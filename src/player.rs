use vstd::prelude::*;
use vstd::utf8::encode_utf8;

use crate::id::{OrderNum, Uid};
use crate::list::{IdList, IdListView};
use crate::skill::Skill;
use crate::stats::Stats;
use crate::status::{drained, Status, StatusCooldownType, Statuses};

verus! {

pub type Hp = u16;

/// Whether a player still stands, and with how many hit points.
#[derive(Clone, Copy, PartialEq, Eq, Structural, Debug)]
pub enum PlayerState {
    Alive(Hp),
    Dead,
}

/// The state that `hp` hit points amount to.
pub open spec fn state_of(hp: Hp) -> PlayerState {
    if hp == 0 {
        PlayerState::Dead
    } else {
        PlayerState::Alive(hp)
    }
}

/// The remaining cooldown after one turn passes.
pub open spec fn ticked(left: u32) -> u32 {
    if left > 0 {
        (left - 1) as u32
    } else {
        0
    }
}

/// A player character.
pub struct Player {
    /// The identifier given on insertion into a roster, if any.
    pub id: Option<Uid>,
    pub name: String,
    pub stats: Stats,
    pub max_hp: Hp,
    pub hp: Hp,
    /// The balance; it may go negative.
    pub money: i64,
    pub skills: Vec<Skill>,
    pub statuses: Statuses,
}

impl Player {
    pub open spec fn wf(&self) -> bool {
        &&& self.stats.wf()
        &&& self.statuses.wf()
    }

    /// `new` is `old` after its turn ended: every cooldown went down by one
    /// (stopping at zero) and every `Normal` status was drained.
    pub open spec fn turn_post(old: Player, new: Player) -> bool {
        &&& new.skills@.len() == old.skills@.len()
        &&& forall|i: int|
            0 <= i < old.skills@.len() ==> {
                &&& (#[trigger] new.skills@[i]).cooldown_left == ticked(
                    old.skills@[i].cooldown_left,
                )
                &&& new.skills@[i].cooldown == old.skills@[i].cooldown
                &&& new.skills@[i].name == old.skills@[i].name
                &&& new.skills@[i].side_effect == old.skills@[i].side_effect
            }
        &&& new.statuses@.entries() == drained(old.statuses@.entries(), StatusCooldownType::Normal)
        &&& new.statuses@.next == old.statuses@.next
        &&& new.name == old.name
        &&& new.stats == old.stats
        &&& new.id == old.id
        &&& new.hp == old.hp
        &&& new.max_hp == old.max_hp
        &&& new.money == old.money
    }

    /// A player with the given name and skills, no stats, statuses, hit points
    /// or money, and no identifier yet.
    pub fn new(name: String, skills: Vec<Skill>) -> (r: Self)
        ensures
            r.wf(),
            r.name == name,
            r.skills == skills,
            r.stats@ == Map::<Seq<char>, i32>::empty(),
            r.statuses@.ids == Seq::<Uid>::empty(),
            r.statuses@.next == 0,
            r.id is None,
            r.hp == 0,
            r.max_hp == 0,
            r.money == 0,
    {
        Player {
            id: None,
            name,
            stats: Stats::new(),
            max_hp: 0,
            hp: 0,
            money: 0,
            skills,
            statuses: Statuses::new(),
        }
    }

    /// Ends the player's turn: every skill's remaining cooldown goes down by
    /// one (stopping at zero) and every `Normal` status is drained.
    pub fn turn(&mut self)
        requires
            old(self).wf(),
        ensures
            final(self).wf(),
            Player::turn_post(*old(self), *final(self)),
    {
        let n = self.skills.len();
        let mut i: usize = 0;
        while i < n
            invariant
                n == self.skills@.len(),
                n == old(self).skills@.len(),
                i <= n,
                forall|j: int|
                    0 <= j < i ==> {
                        &&& (#[trigger] self.skills@[j]).cooldown_left == ticked(
                            old(self).skills@[j].cooldown_left,
                        )
                        &&& self.skills@[j].cooldown == old(self).skills@[j].cooldown
                        &&& self.skills@[j].name == old(self).skills@[j].name
                        &&& self.skills@[j].side_effect == old(self).skills@[j].side_effect
                    },
                forall|j: int| i <= j < n ==> self.skills@[j] == old(self).skills@[j],
                self.statuses == old(self).statuses,
                self.stats == old(self).stats,
                self.name == old(self).name,
                self.id == old(self).id,
                self.hp == old(self).hp,
                self.max_hp == old(self).max_hp,
                self.money == old(self).money,
            decreases n - i,
        {
            self.skills[i].tick();
            i = i + 1;
        }
        self.statuses.drain_by_type(StatusCooldownType::Normal);
    }

    /// Gives the player a status and returns its identifier.
    pub fn add_status(&mut self, status: Status) -> (r: Uid)
        requires
            old(self).wf(),
            old(self).statuses@.next < u64::MAX,
        ensures
            final(self).wf(),
            r == old(self).statuses@.next_uid(),
            final(self).statuses@ == old(self).statuses@.push(status),
            final(self).skills == old(self).skills,
            final(self).name == old(self).name,
            final(self).stats == old(self).stats,
            final(self).id == old(self).id,
            final(self).hp == old(self).hp,
            final(self).max_hp == old(self).max_hp,
            final(self).money == old(self).money,
    {
        self.statuses.push(status)
    }

    /// Removes every status of type `t`; the others stay as they are.
    pub fn drain_status_by_type(&mut self, t: StatusCooldownType)
        requires
            old(self).wf(),
        ensures
            final(self).wf(),
            final(self).statuses@.entries() == drained(old(self).statuses@.entries(), t),
            final(self).statuses@.next == old(self).statuses@.next,
            final(self).skills == old(self).skills,
            final(self).name == old(self).name,
            final(self).stats == old(self).stats,
            final(self).id == old(self).id,
            final(self).hp == old(self).hp,
            final(self).max_hp == old(self).max_hp,
            final(self).money == old(self).money,
    {
        self.statuses.drain_by_type(t)
    }

    /// `Dead` at zero hit points, else `Alive` with the current hit points.
    pub fn get_player_state(&self) -> (r: PlayerState)
        ensures
            r == state_of(self.hp),
    {
        if self.hp == 0 {
            PlayerState::Dead
        } else {
            PlayerState::Alive(self.hp)
        }
    }

    /// Adds `amount` to the hit points unless the sum would not fit, in which
    /// case they stay as they are; returns the resulting state.
    pub fn damage(&mut self, amount: Hp) -> (r: PlayerState)
        ensures
            final(self).hp == if old(self).hp + amount <= Hp::MAX {
                (old(self).hp + amount) as Hp
            } else {
                old(self).hp
            },
            r == state_of(final(self).hp),
            final(self).max_hp == old(self).max_hp,
            final(self).money == old(self).money,
            final(self).id == old(self).id,
            final(self).name == old(self).name,
            final(self).stats == old(self).stats,
            final(self).skills == old(self).skills,
            final(self).statuses == old(self).statuses,
    {
        if let Some(hp) = self.hp.checked_add(amount) {
            self.hp = hp;
        }
        self.get_player_state()
    }

    /// Adds `amount` to the hit points, up to the maximum; returns the resulting state.
    pub fn heal(&mut self, amount: Hp) -> (r: PlayerState)
        requires
            old(self).hp <= old(self).max_hp,
        ensures
            final(self).hp == if old(self).hp + amount > old(self).max_hp {
                old(self).max_hp
            } else {
                (old(self).hp + amount) as Hp
            },
            r == state_of(final(self).hp),
            final(self).max_hp == old(self).max_hp,
            final(self).money == old(self).money,
            final(self).id == old(self).id,
            final(self).name == old(self).name,
            final(self).stats == old(self).stats,
            final(self).skills == old(self).skills,
            final(self).statuses == old(self).statuses,
    {
        let mut amount = amount;
        if amount > self.max_hp - self.hp {
            amount = self.max_hp - self.hp;
        }
        self.hp = self.hp + amount;
        self.get_player_state()
    }

    /// Adds the signed `diff` to the player's money and returns the new balance.
    pub fn manage_money(&mut self, diff: i64) -> (r: i64)
        requires
            i64::MIN <= old(self).money + diff <= i64::MAX,
        ensures
            r == old(self).money + diff,
            final(self).money == r,
            final(self).hp == old(self).hp,
            final(self).max_hp == old(self).max_hp,
            final(self).id == old(self).id,
            final(self).name == old(self).name,
            final(self).stats == old(self).stats,
            final(self).skills == old(self).skills,
            final(self).statuses == old(self).statuses,
    {
        self.money = self.money + diff;
        self.money
    }
    /// Makes every skill ready to use again.
    pub fn reset_skills_cd(&mut self)
        ensures
            final(self).skills@.len() == old(self).skills@.len(),
            forall|i: int|
                0 <= i < old(self).skills@.len() ==> {
                    &&& (#[trigger] final(self).skills@[i]).cooldown_left == 0
                    &&& final(self).skills@[i].cooldown == old(self).skills@[i].cooldown
                    &&& final(self).skills@[i].name == old(self).skills@[i].name
                    &&& final(self).skills@[i].side_effect == old(self).skills@[i].side_effect
                },
            final(self).statuses == old(self).statuses,
            final(self).stats == old(self).stats,
            final(self).name == old(self).name,
            final(self).id == old(self).id,
            final(self).hp == old(self).hp,
            final(self).max_hp == old(self).max_hp,
            final(self).money == old(self).money,
    {
        let n = self.skills.len();
        let mut i: usize = 0;
        while i < n
            invariant
                n == self.skills@.len(),
                n == old(self).skills@.len(),
                i <= n,
                forall|j: int|
                    0 <= j < i ==> {
                        &&& (#[trigger] self.skills@[j]).cooldown_left == 0
                        &&& self.skills@[j].cooldown == old(self).skills@[j].cooldown
                        &&& self.skills@[j].name == old(self).skills@[j].name
                        &&& self.skills@[j].side_effect == old(self).skills@[j].side_effect
                    },
                forall|j: int| i <= j < n ==> self.skills@[j] == old(self).skills@[j],
                self.statuses == old(self).statuses,
                self.stats == old(self).stats,
                self.name == old(self).name,
                self.id == old(self).id,
                self.hp == old(self).hp,
                self.max_hp == old(self).max_hp,
                self.money == old(self).money,
            decreases n - i,
        {
            self.skills[i].cooldown_left = 0;
            i = i + 1;
        }
    }
}

/// Byte string `a` sorts before `b`, or is equal to it, in lexicographic order.
pub open spec fn bytes_le(a: Seq<u8>, b: Seq<u8>) -> bool
    decreases a.len(),
{
    if a.len() == 0 {
        true
    } else if b.len() == 0 {
        false
    } else if a[0] != b[0] {
        a[0] < b[0]
    } else {
        bytes_le(a.drop_first(), b.drop_first())
    }
}

/// Of two byte strings, one sorts before or with the other.
pub proof fn lemma_bytes_le_total(a: Seq<u8>, b: Seq<u8>)
    ensures
        bytes_le(a, b) || bytes_le(b, a),
    decreases a.len(),
{
    if a.len() > 0 && b.len() > 0 && a[0] == b[0] {
        lemma_bytes_le_total(a.drop_first(), b.drop_first());
    }
}

/// The key by which a roster sorts: the UTF-8 bytes of the player's name.
pub open spec fn name_key(p: Player) -> Seq<u8> {
    encode_utf8(p.name@)
}

/// Each player's name sorts before or with the next one's.
pub open spec fn sorted_by_name(players: IdListView<Player>) -> bool {
    forall|k: int|
        0 <= k < players.values.len() - 1 ==> bytes_le(
            name_key(#[trigger] players.values[k]),
            name_key(players.values[k + 1]),
        )
}

/// Whether name `a` sorts before or with name `b`, comparing their bytes.
pub fn name_le(a: &String, b: &String) -> (r: bool)
    ensures
        r == bytes_le(encode_utf8(a@), encode_utf8(b@)),
{
    let x = a.as_str().as_bytes();
    let y = b.as_str().as_bytes();
    let ghost xs = x@;
    let ghost ys = y@;
    let mut i: usize = 0;
    proof {
        assert(xs.subrange(0, xs.len() as int) =~= xs);
        assert(ys.subrange(0, ys.len() as int) =~= ys);
    }
    while i < x.len() && i < y.len()
        invariant
            xs == x@,
            ys == y@,
            xs == encode_utf8(a@),
            ys == encode_utf8(b@),
            i <= xs.len(),
            i <= ys.len(),
            bytes_le(xs, ys) == bytes_le(
                xs.subrange(i as int, xs.len() as int),
                ys.subrange(i as int, ys.len() as int),
            ),
        decreases xs.len() - i,
    {
        let ghost xr = xs.subrange(i as int, xs.len() as int);
        let ghost yr = ys.subrange(i as int, ys.len() as int);
        if x[i] != y[i] {
            proof {
                assert(xr[0] == xs[i as int]);
                assert(yr[0] == ys[i as int]);
            }
            return x[i] < y[i];
        }
        proof {
            assert(xr.drop_first() =~= xs.subrange(i + 1, xs.len() as int));
            assert(yr.drop_first() =~= ys.subrange(i + 1, ys.len() as int));
        }
        i = i + 1;
    }
    i == x.len()
}

/// `new` holds the same entries as `old` except, perhaps, the value under `id`.
pub open spec fn only_changed(
    old: IdListView<Player>,
    new: IdListView<Player>,
    id: Uid,
) -> bool {
    &&& new.ids == old.ids
    &&& new.next == old.next
    &&& new.values.len() == old.values.len()
    &&& forall|j: int|
        0 <= j < old.values.len() && j != old.position(id) ==> new.values[j] == old.values[j]
}

/// The roster of one game: players under durable identifiers, in insertion order.
pub struct Players {
    list: IdList<Player>,
}

impl View for Players {
    type V = IdListView<Player>;

    closed spec fn view(&self) -> IdListView<Player> {
        self.list@
    }
}

impl Players {
    /// The collection is well formed, and each player is, and knows its own identifier.
    pub open spec fn wf(&self) -> bool {
        &&& self@.wf()
        &&& forall|i: int|
            0 <= i < self@.len() ==> (#[trigger] self@.values[i]).wf() && self@.values[i].id
                == Some(self@.ids[i])
    }


    pub fn new() -> (r: Self)
        ensures
            r.wf(),
            r@.ids == Seq::<Uid>::empty(),
            r@.values == Seq::<Player>::empty(),
            r@.next == 0,
    {
        Players { list: IdList::new() }
    }

    pub fn len(&self) -> (r: usize)
        requires
            self.wf(),
        ensures
            r == self@.len(),
    {
        self.list.len()
    }

    pub fn is_empty(&self) -> (r: bool)
        requires
            self.wf(),
        ensures
            r == (self@.len() == 0),
    {
        self.list.is_empty()
    }

    pub fn contains(&self, id: Uid) -> (r: bool)
        requires
            self.wf(),
        ensures
            r == self@.contains(id),
    {
        self.list.contains(id)
    }

    /// The position of `id` in the roster, or `None` when it is not live.
    pub fn get_index_of(&self, id: Uid) -> (r: Option<OrderNum>)
        requires
            self.wf(),
        ensures
            match r {
                Some(i) => self@.contains(id) && i == self@.position(id),
                None => !self@.contains(id),
            },
    {
        self.list.get_index_of(id)
    }

    /// The player under `id`, or `None` when it is not live.
    pub fn get(&self, id: Uid) -> (r: Option<&Player>)
        requires
            self.wf(),
        ensures
            r matches Some(v) ==> self@.get(id) == Some(*v),
            r is None ==> self@.get(id) is None,
    {
        self.list.get(id)
    }

    /// The entry at position `i` of the roster, or `None` past the end.
    pub fn get_by_index(&self, i: OrderNum) -> (r: Option<(Uid, &Player)>)
        requires
            self.wf(),
        ensures
            i < self@.len() ==> (r matches Some(p) && p.0 == self@.ids[i as int] && *p.1
                == self@.values[i as int]),
            i >= self@.len() ==> r is None,
    {
        self.list.get_by_index(i)
    }

    /// The live identifiers in roster order.
    pub fn ids(&self) -> (r: Vec<Uid>)
        requires
            self.wf(),
        ensures
            r@ == self@.ids,
    {
        self.list.ids()
    }

    /// Adds `player` under a fresh identifier, which the player records too.
    pub fn push(&mut self, player: Player) -> (r: Uid)
        requires
            old(self).wf(),
            player.wf(),
            old(self)@.next < u64::MAX,
        ensures
            final(self).wf(),
            r == old(self)@.next_uid(),
            final(self)@.ids == old(self)@.ids.push(r),
            final(self)@.next == old(self)@.next + 1,
            final(self)@.values.len() == old(self)@.values.len() + 1,
            final(self)@.values.drop_last() == old(self)@.values,
            final(self)@.values.last() == (Player { id: Some(r), ..player }),
    {
        let mut player = player;
        let id = self.list.next_id();
        player.id = Some(id);
        let r = self.list.push(player);
        proof {
            assert(self@.values.drop_last() =~= old(self)@.values);
        }
        r
    }

    /// Stores `player` under `id`: a live identifier keeps its position, an
    /// absent one is appended. The player records `id`. Returns the player
    /// that was there before, if any.
    pub fn insert(&mut self, id: Uid, player: Player) -> (r: Option<Player>)
        requires
            old(self).wf(),
            player.wf(),
            old(self)@.contains(id) || id.0 < u64::MAX,
        ensures
            final(self).wf(),
            final(self)@ == old(self)@.insert(id, Player { id: Some(id), ..player }),
            r == old(self)@.get(id),
    {
        let mut player = player;
        player.id = Some(id);
        let ghost p = player;
        let r = self.list.insert(id, player);
        proof {
            let o = old(self)@;
            if o.contains(id) {
                o.ids.index_of_first_ensures(id);
            }
            assert forall|i: int| 0 <= i < self@.len() implies (#[trigger] self@.values[i]).wf()
                && self@.values[i].id == Some(self@.ids[i]) by {
                if i < o.len() && !(o.contains(id) && i == o.position(id)) {
                    assert(o.values[i].wf());
                }
            }
        }
        r
    }

    /// Removes the player under `id` and returns it; `None` when it is not live.
    /// Turn orders that name `id` are not touched: their entry dangles.
    pub fn remove(&mut self, id: Uid) -> (r: Option<Player>)
        requires
            old(self).wf(),
        ensures
            final(self).wf(),
            final(self)@ == old(self)@.remove(id),
            r == old(self)@.get(id),
    {
        let r = self.list.remove(id);
        proof {
            let o = old(self)@;
            if o.contains(id) {
                let k = o.position(id);
                assert forall|i: int| 0 <= i < self@.len() implies (#[trigger] self@.values[i]).wf()
                    && self@.values[i].id == Some(self@.ids[i]) by {
                    let pi = if i < k { i } else { i + 1 };
                    assert(self@.values[i] == o.values[pi]);
                    assert(self@.ids[i] == o.ids[pi]);
                }
            }
        }
        r
    }

    /// Sorts the roster by name (byte order), keeping every player under its
    /// identifier; players with equal names keep their relative order.
    pub fn sort(&mut self)
        requires
            old(self).wf(),
        ensures
            final(self).wf(),
            sorted_by_name(final(self)@),
            final(self)@.entries().to_multiset() == old(self)@.entries().to_multiset(),
            final(self)@.next == old(self)@.next,
    {
        let n = self.list.len();
        if n == 0 {
            return;
        }
        let mut i: usize = 1;
        while i < n
            invariant
                self.wf(),
                n == self@.len(),
                1 <= i <= n,
                self@.next == old(self)@.next,
                self@.entries().to_multiset() == old(self)@.entries().to_multiset(),
                forall|k: int|
                    0 <= k < i - 1 ==> bytes_le(
                        name_key(#[trigger] self@.values[k]),
                        name_key(self@.values[k + 1]),
                    ),
            decreases n - i,
        {
            let mut j: usize = i;
            while j > 0 && !name_le(
                &self.list.get_by_index(j - 1).unwrap().1.name,
                &self.list.get_by_index(j).unwrap().1.name,
            )
                invariant
                    self.wf(),
                    n == self@.len(),
                    0 <= j <= i < n,
                    self@.next == old(self)@.next,
                    self@.entries().to_multiset() == old(self)@.entries().to_multiset(),
                    forall|k: int|
                        0 <= k < j - 1 ==> bytes_le(
                            name_key(#[trigger] self@.values[k]),
                            name_key(self@.values[k + 1]),
                        ),
                    forall|k: int|
                        j <= k < i ==> bytes_le(
                            name_key(#[trigger] self@.values[k]),
                            name_key(self@.values[k + 1]),
                        ),
                    0 < j < i ==> bytes_le(
                        name_key(self@.values[j - 1]),
                        name_key(self@.values[j + 1]),
                    ),
                decreases j,
            {
                let ghost before = self@;
                self.list.swap_indices(j - 1, j);
                proof {
                    lemma_bytes_le_total(
                        name_key(before.values[j - 1]),
                        name_key(before.values[j as int]),
                    );
                    lemma_swap_keeps_multiset(before.entries(), j - 1, j as int);
                    assert(self@.entries() =~= before.entries().update(
                        j - 1,
                        before.entries()[j as int],
                    ).update(j as int, before.entries()[j - 1]));
                    assert forall|k: int| 0 <= k < self@.len() implies (
                    #[trigger] self@.values[k]).wf() && self@.values[k].id == Some(
                        self@.ids[k],
                    ) by {
                        if k == j - 1 {
                            assert(before.values[j as int].wf());
                        } else if k == j {
                            assert(before.values[j - 1].wf());
                        } else {
                            assert(before.values[k].wf());
                        }
                    }
                    assert forall|k: int| j <= k < i implies bytes_le(
                        name_key(#[trigger] self@.values[k]),
                        name_key(self@.values[k + 1]),
                    ) by {
                        if k > j {
                            assert(bytes_le(
                                name_key(before.values[k]),
                                name_key(before.values[k + 1]),
                            ));
                        }
                    }
                    assert forall|k: int| 0 <= k < j - 2 implies bytes_le(
                        name_key(#[trigger] self@.values[k]),
                        name_key(self@.values[k + 1]),
                    ) by {
                        assert(bytes_le(
                            name_key(before.values[k]),
                            name_key(before.values[k + 1]),
                        ));
                    }
                    if j >= 2 {
                        assert(bytes_le(name_key(before.values[j - 2]), name_key(before.values[j - 1])));
                    }
                }
                j = j - 1;
            }
            proof {
                assert(forall|k: int|
                    0 <= k < i ==> bytes_le(
                        name_key(#[trigger] self@.values[k]),
                        name_key(self@.values[k + 1]),
                    ));
            }
            i = i + 1;
        }
    }

    /// Mutable access to the player at position `i`; the caller re-establishes
    /// well-formedness.
    pub(crate) fn get_by_index_mut(&mut self, i: OrderNum) -> (r: &mut Player)
        requires
            old(self).wf(),
            i < old(self)@.len(),
        ensures
            *r == old(self)@.values[i as int],
            final(self)@ == (IdListView {
                ids: old(self)@.ids,
                values: old(self)@.values.update(i as int, *final(r)),
                next: old(self)@.next,
            }),
    {
        self.list.get_by_index_mut(i)
    }
}

/// Exchanging two entries of a sequence keeps its multiset of entries.
proof fn lemma_swap_keeps_multiset<A>(s: Seq<A>, a: int, b: int)
    requires
        0 <= a < s.len(),
        0 <= b < s.len(),
    ensures
        s.update(a, s[b]).update(b, s[a]).to_multiset() == s.to_multiset(),
{
    broadcast use {vstd::seq_lib::to_multiset_update, vstd::seq_lib::group_to_multiset_ensures};

    if a == b {
        assert(s.update(a, s[b]).update(b, s[a]) =~= s);
    } else {
        let m = s.to_multiset();
        let t = s.update(a, s[b]);
        assert(t[b] == s[b]);
        assert(s.contains(s[a]));
        assert(t.contains(s[b]) && t[a] == s[b]);
        let u = t.update(b, s[a]);
        assert(u.to_multiset() == t.to_multiset().insert(s[a]).remove(s[b]));
        assert(t.to_multiset() == m.insert(s[b]).remove(s[a]));
        assert(m.count(s[a]) > 0);
        assert(u.to_multiset() =~= m);
    }
}

} // verus!
