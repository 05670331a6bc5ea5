use vstd::prelude::*;

use vstd::utf8::encode_utf8;

use crate::error::GameError;
use crate::id::Uid;
use crate::list::{lemma_position_of, IdListView};
use crate::player::{bytes_le, lemma_bytes_le_total, name_le, only_changed, Player, Players};
use crate::setlist::SetList;
use crate::skill::{SideEffectAffects, Skill};
use crate::stats::StatList;
use crate::status::{drained, ids_of, Status, StatusCooldownType, StatusList};

verus! {

/// Why a game cannot start.
#[derive(Clone, Copy, PartialEq, Eq, Structural, Debug)]
pub enum PlayError {
    /// The roster is empty.
    NoPlayers,
    /// The turn order is empty.
    EmptyOrder,
}

/// One game: its roster, its turn order and its registries of stat and status names.
///
/// The turn order is a view over roster identities. Removing a player does not
/// touch it: an entry that no longer names a live player dangles and is
/// skipped when turns are handed out.
pub struct GameState {
    pub players: Players,
    pub order: Vec<Uid>,
    pub stat_list: StatList,
    pub status_list: StatusList,
}

impl GameState {
    pub open spec fn wf(&self) -> bool {
        &&& self.players.wf()
        &&& self.stat_list.wf()
        &&& self.status_list.wf()
    }

    /// A game with no players, no order and empty registries.
    pub fn new() -> (r: Self)
        ensures
            r.wf(),
            r.players@.len() == 0,
            r.players@.next == 0,
            r.order@.len() == 0,
            r.stat_list@.len() == 0,
            r.status_list@.len() == 0,
    {
        GameState {
            players: Players::new(),
            order: Vec::new(),
            stat_list: SetList::new(),
            status_list: SetList::new(),
        }
    }

    /// Gives a game that has players but no turn order the roster's own order.
    pub fn fill_default_order(&mut self)
        requires
            old(self).wf(),
        ensures
            final(self).wf(),
            final(self).order@ == if old(self).players@.len() > 0 && old(self).order@.len()
                == 0 {
                old(self).players@.ids
            } else {
                old(self).order@
            },
            final(self).players == old(self).players,
            final(self).stat_list == old(self).stat_list,
            final(self).status_list == old(self).status_list,
    {
        if !self.players.is_empty() && self.order.len() == 0 {
            self.order = self.players.ids();
        }
    }

    /// Whether play can start: it needs players, and a turn order.
    pub fn can_play(&self) -> (r: Result<(), PlayError>)
        requires
            self.wf(),
        ensures
            self.players@.len() == 0 ==> r == Err::<(), PlayError>(PlayError::NoPlayers),
            self.players@.len() > 0 && self.order@.len() == 0 ==> r == Err::<(), PlayError>(
                PlayError::EmptyOrder,
            ),
            self.players@.len() > 0 && self.order@.len() > 0 ==> r is Ok,
    {
        if self.players.is_empty() {
            Err(PlayError::NoPlayers)
        } else if self.order.len() == 0 {
            Err(PlayError::EmptyOrder)
        } else {
            Ok(())
        }
    }

    /// The entries of the turn order that no longer name a live player, in order.
    pub fn dangling_order_entries(&self) -> (r: Vec<Uid>)
        requires
            self.wf(),
        ensures
            r@ == self.order@.filter(|id: Uid| !self.players@.contains(id)),
    {
        let ghost keep = |id: Uid| !self.players@.contains(id);
        let mut r: Vec<Uid> = Vec::new();
        let mut i: usize = 0;
        while i < self.order.len()
            invariant
                self.wf(),
                keep == (|id: Uid| !self.players@.contains(id)),
                i <= self.order@.len(),
                r@ == self.order@.subrange(0, i as int).filter(keep),
            decreases self.order@.len() - i,
        {
            proof {
                reveal(Seq::filter);
                assert(self.order@.subrange(0, i + 1).drop_last() =~= self.order@.subrange(
                    0,
                    i as int,
                ));
            }
            let id = self.order[i];
            if !self.players.contains(id) {
                r.push(id);
            }
            i = i + 1;
        }
        proof {
            assert(self.order@.subrange(0, self.order@.len() as int) =~= self.order@);
        }
        r
    }

    /// Resets the turn order to the roster's own order.
    pub fn reset_order(&mut self)
        requires
            old(self).wf(),
        ensures
            final(self).wf(),
            final(self).order@ == old(self).players@.ids,
            final(self).players == old(self).players,
            final(self).stat_list == old(self).stat_list,
            final(self).status_list == old(self).status_list,
    {
        self.order = self.players.ids();
    }

    /// Moves the order entry at position `i` one place up (towards the
    /// front) or down, and returns its new position; at the edge it stays.
    pub fn move_in_order(&mut self, i: usize, up: bool) -> (r: usize)
        requires
            i < old(self).order@.len(),
        ensures
            final(self).players == old(self).players,
            final(self).stat_list == old(self).stat_list,
            final(self).status_list == old(self).status_list,
            ({
                let o = old(self).order@;
                let j: int = if up && i > 0 {
                    i - 1
                } else if !up && i + 1 < o.len() {
                    i + 1
                } else {
                    i as int
                };
                &&& r == j
                &&& final(self).order@ == o.update(i as int, o[j]).update(j, o[i as int])
            }),
    {
        let n = self.order.len();
        let j: usize = if up && i > 0 {
            i - 1
        } else if !up && i + 1 < n {
            i + 1
        } else {
            i
        };
        let a = self.order[i];
        let b = self.order[j];
        self.order.set(i, b);
        self.order.set(j, a);
        j
    }

    /// Takes the entry at position `i` out of the turn order.
    pub fn remove_from_order(&mut self, i: usize) -> (r: Uid)
        requires
            i < old(self).order@.len(),
        ensures
            r == old(self).order@[i as int],
            final(self).order@ == old(self).order@.remove(i as int),
            final(self).players == old(self).players,
            final(self).stat_list == old(self).stat_list,
            final(self).status_list == old(self).status_list,
    {
        self.order.remove(i)
    }
}

/// The saved games, each under its own name, kept in name order.
pub struct Games {
    names: Vec<String>,
    states: Vec<GameState>,
}

impl Games {
    /// The names of the games, in order.
    pub closed spec fn spec_names(&self) -> Seq<Seq<char>> {
        crate::setlist::names_of(self.names@)
    }

    /// The games, in the order of their names.
    pub closed spec fn spec_states(&self) -> Seq<GameState> {
        self.states@
    }

    /// Every game has one name, no two share it, and the names are in byte order.
    pub open spec fn wf(&self) -> bool {
        &&& self.spec_names().len() == self.spec_states().len()
        &&& self.spec_names().no_duplicates()
        &&& forall|k: int|
            0 <= k < self.spec_names().len() - 1 ==> bytes_le(
                encode_utf8(#[trigger] self.spec_names()[k]),
                encode_utf8(self.spec_names()[k + 1]),
            )
        &&& forall|k: int|
            0 <= k < self.spec_states().len() ==> (#[trigger] self.spec_states()[k]).wf()
    }

    pub fn new() -> (r: Self)
        ensures
            r.wf(),
            r.spec_names().len() == 0,
    {
        let r = Games { names: Vec::new(), states: Vec::new() };
        proof {
            assert(r.spec_names() =~= Seq::<Seq<char>>::empty());
        }
        r
    }

    pub fn len(&self) -> (r: usize)
        requires
            self.wf(),
        ensures
            r == self.spec_names().len(),
    {
        self.names.len()
    }

    /// The names of the games, in order.
    pub fn names(&self) -> (r: Vec<String>)
        requires
            self.wf(),
        ensures
            crate::setlist::names_of(r@) == self.spec_names(),
    {
        let mut r: Vec<String> = Vec::new();
        let mut i: usize = 0;
        while i < self.names.len()
            invariant
                i <= self.names@.len(),
                r@ == self.names@.subrange(0, i as int),
            decreases self.names@.len() - i,
        {
            r.push(self.names[i].clone());
            i = i + 1;
            proof {
                assert(r@ =~= self.names@.subrange(0, i as int));
            }
        }
        proof {
            assert(r@ =~= self.names@);
        }
        r
    }

    /// The position of the game called `name`, or `None` when there is none.
    pub fn find(&self, name: &String) -> (r: Option<usize>)
        requires
            self.wf(),
        ensures
            match r {
                Some(i) => self.spec_names().contains(name@) && i == self.spec_names().index_of(
                    name@,
                ),
                None => !self.spec_names().contains(name@),
            },
    {
        let ghost ns = self.spec_names();
        let mut i: usize = 0;
        while i < self.names.len()
            invariant
                self.wf(),
                ns == self.spec_names(),
                ns.len() == self.names@.len(),
                i <= ns.len(),
                forall|j: int| 0 <= j < i ==> ns[j] != name@,
            decreases ns.len() - i,
        {
            proof {
                assert(ns[i as int] == self.names@[i as int]@);
            }
            if self.names[i] == *name {
                proof {
                    assert(ns[i as int] == name@);
                    ns.index_of_first_ensures(name@);
                }
                return Some(i);
            }
            i = i + 1;
        }
        proof {
            if ns.contains(name@) {
                ns.index_of_first_ensures(name@);
            }
        }
        None
    }

    /// Files `state` under `name`, at the place that keeps the names in
    /// order, and returns its position. A game of that name that is already
    /// there is kept, and its position returned.
    pub fn add(&mut self, name: String, state: GameState) -> (r: usize)
        requires
            old(self).wf(),
            state.wf(),
        ensures
            final(self).wf(),
            old(self).spec_names().contains(name@) ==> r == old(self).spec_names().index_of(
                name@,
            ) && final(self).spec_names() == old(self).spec_names() && final(self).spec_states()
                == old(self).spec_states(),
            !old(self).spec_names().contains(name@) ==> {
                &&& final(self).spec_names() == old(self).spec_names().insert(r as int, name@)
                &&& final(self).spec_states() == old(self).spec_states().insert(r as int, state)
            },
            r < final(self).spec_names().len(),
            final(self).spec_names()[r as int] == name@,
    {
        if let Some(i) = self.find(&name) {
            proof {
                self.spec_names().index_of_first_ensures(name@);
            }
            return i;
        }
        let ghost ns = self.spec_names();
        let ghost key = encode_utf8(name@);
        let mut i: usize = 0;
        while i < self.names.len() && name_le(&self.names[i], &name)
            invariant
                key == encode_utf8(name@),
                ns == self.spec_names(),
                ns.len() == self.names@.len(),
                i <= ns.len(),
                forall|j: int| 0 <= j < i ==> bytes_le(encode_utf8(#[trigger] ns[j]), key),
            decreases ns.len() - i,
        {
            proof {
                assert(ns[i as int] == self.names@[i as int]@);
            }
            i = i + 1;
        }
        let ghost n = name@;
        self.names.insert(i, name);
        self.states.insert(i, state);
        proof {
            let nn = self.spec_names();
            assert(nn =~= ns.insert(i as int, n));
            assert(!ns.contains(n));
            assert forall|a: int, b: int| 0 <= a < b < nn.len() implies nn[a] != nn[b] by {
                if a == i {
                    assert(ns.contains(nn[b]));
                } else if b == i {
                    assert(ns.contains(nn[a]));
                } else {
                    let pa = if a < i { a } else { a - 1 };
                    let pb = if b < i { b } else { b - 1 };
                    assert(ns[pa] != ns[pb]);
                }
            }
            assert forall|k: int| 0 <= k < nn.len() - 1 implies bytes_le(
                encode_utf8(#[trigger] nn[k]),
                encode_utf8(nn[k + 1]),
            ) by {
                if k == i {
                    if i < ns.len() {
                        lemma_bytes_le_total(key, encode_utf8(ns[i as int]));
                    }
                } else if k == i - 1 {
                } else if k < i {
                    assert(nn[k + 1] == ns[k + 1]);
                } else {
                    assert(nn[k] == ns[k - 1]);
                    assert(nn[k + 1] == ns[k]);
                }
            }
            assert forall|k: int| 0 <= k < self.spec_states().len() implies (
            #[trigger] self.spec_states()[k]).wf() by {
                if k < i {
                    assert(self.spec_states()[k] == old(self).spec_states()[k]);
                } else if k > i {
                    assert(self.spec_states()[k] == old(self).spec_states()[k - 1]);
                }
            }
            assert(nn[i as int] == n);
        }
        i
    }

    /// The game at position `i`.
    pub fn get(&self, i: usize) -> (r: &GameState)
        requires
            self.wf(),
            i < self.spec_names().len(),
        ensures
            *r == self.spec_states()[i as int],
            r.wf(),
    {
        &self.states[i]
    }

    /// Mutable access to the game at position `i`; it stays well formed.
    pub fn get_mut(&mut self, i: usize) -> (r: &mut GameState)
        requires
            old(self).wf(),
            i < old(self).spec_names().len(),
        ensures
            *r == old(self).spec_states()[i as int],
            r.wf(),
            final(r).wf() ==> final(self).wf(),
            final(self).spec_names() == old(self).spec_names(),
            final(self).spec_states() == old(self).spec_states().update(i as int, *final(r)),
    {
        &mut self.states[i]
    }
}

/// A status can be added to the player under `id`, if there is one: its
/// collection of statuses has identifiers left to issue.
pub open spec fn can_add_status(players: IdListView<Player>, id: Uid) -> bool {
    players.get(id) matches Some(p) ==> p.statuses@.next < u64::MAX
}

/// The roster after the player under `id` became `p`.
pub open spec fn replaced(players: IdListView<Player>, id: Uid, p: Player) -> IdListView<Player> {
    IdListView { values: players.values.update(players.position(id), p), ..players }
}

impl Players {
    proof fn lemma_replace(a: Players, b: Players, i: int)
        requires
            a.wf(),
            0 <= i < a@.len(),
            b@.ids == a@.ids,
            b@.next == a@.next,
            b@.values == a@.values.update(i, b@.values[i]),
            b@.values[i].wf(),
            b@.values[i].id == a@.values[i].id,
        ensures
            b.wf(),
            a@.position(a@.ids[i]) == i,
            only_changed(a@, b@, a@.ids[i]),
            b@ == replaced(a@, a@.ids[i], b@.values[i]),
            b@.get(a@.ids[i]) == Some(b@.values[i]),
    {
        lemma_position_of(a@, i);
        assert forall|j: int| 0 <= j < b@.len() implies (#[trigger] b@.values[j]).wf()
            && b@.values[j].id == Some(b@.ids[j]) by {
            if j != i {
                assert(b@.values[j] == a@.values[j]);
            }
        }
        assert(b@.values =~= a@.values.update(i, b@.values[i]));
    }

    /// Ends the turn of the player under `id`: cooldowns go down by one and
    /// `Normal` statuses are drained. `NotFound` when `id` is not live.
    pub fn make_turn(&mut self, id: Uid) -> (r: Result<(), GameError>)
        requires
            old(self).wf(),
        ensures
            final(self).wf(),
            r is Ok <==> old(self)@.contains(id),
            r is Ok ==> only_changed(old(self)@, final(self)@, id) && Player::turn_post(
                old(self)@.get(id)->0,
                final(self)@.get(id)->0,
            ),
            r is Err ==> r == Err::<(), GameError>(GameError::NotFound) && final(self)@ == old(
                self,
            )@,
    {
        match self.get_index_of(id) {
            Some(i) => {
                let ghost a = *self;
                let p = self.get_by_index_mut(i);
                p.turn();
                proof {
                    Players::lemma_replace(a, *self, i as int);
                }
                Ok(())
            },
            None => Err(GameError::NotFound),
        }
    }

    /// Gives the player under `id` a status and returns the status's identifier.
    pub fn add_status(&mut self, id: Uid, status: Status) -> (r: Result<Uid, GameError>)
        requires
            old(self).wf(),
            can_add_status(old(self)@, id),
        ensures
            final(self).wf(),
            r is Ok <==> old(self)@.contains(id),
            r matches Ok(s) ==> {
                let p = old(self)@.get(id)->0;
                &&& s == p.statuses@.next_uid()
                &&& final(self)@ == replaced(
                    old(self)@,
                    id,
                    Player { statuses: final(self)@.get(id)->0.statuses, ..p },
                )
                &&& final(self)@.get(id)->0.statuses@ == p.statuses@.push(status)
            },
            r is Err ==> r == Err::<Uid, GameError>(GameError::NotFound) && final(self)@ == old(
                self,
            )@,
    {
        match self.get_index_of(id) {
            Some(i) => {
                let ghost a = *self;
                let p = self.get_by_index_mut(i);
                let s = p.add_status(status);
                proof {
                    Players::lemma_replace(a, *self, i as int);
                }
                Ok(s)
            },
            None => Err(GameError::NotFound),
        }
    }

    /// Removes every status of type `t` from the player under `id`. `Normal`
    /// statuses only wear off at the end of a turn, so `t` is never `Normal`.
    pub fn drain_status_by_type(&mut self, id: Uid, t: StatusCooldownType) -> (r: Result<
        (),
        GameError,
    >)
        requires
            old(self).wf(),
            t != StatusCooldownType::Normal,
        ensures
            final(self).wf(),
            r is Ok <==> old(self)@.contains(id),
            r is Ok ==> {
                let p = old(self)@.get(id)->0;
                let q = final(self)@.get(id)->0;
                &&& final(self)@ == replaced(old(self)@, id, Player { statuses: q.statuses, ..p })
                &&& q.statuses@.entries() == drained(p.statuses@.entries(), t)
                &&& q.statuses@.next == p.statuses@.next
            },
            r is Err ==> r == Err::<(), GameError>(GameError::NotFound) && final(self)@ == old(
                self,
            )@,
    {
        match self.get_index_of(id) {
            Some(i) => {
                let ghost a = *self;
                let p = self.get_by_index_mut(i);
                p.drain_status_by_type(t);
                proof {
                    Players::lemma_replace(a, *self, i as int);
                }
                Ok(())
            },
            None => Err(GameError::NotFound),
        }
    }

    /// Removes the `k`-th (from zero) of the `Manual` statuses of the player
    /// under `id` and returns it. `NotFound` when `id` is not live or the
    /// player has no more than `k` such statuses.
    pub fn drain_manual_status(&mut self, id: Uid, k: usize) -> (r: Result<Status, GameError>)
        requires
            old(self).wf(),
        ensures
            final(self).wf(),
            r is Ok <==> old(self)@.contains(id) && k < ids_of(
                old(self)@.get(id)->0.statuses@.entries(),
                StatusCooldownType::Manual,
            ).len(),
            r matches Ok(s) ==> {
                let p = old(self)@.get(id)->0;
                let q = final(self)@.get(id)->0;
                let sid = ids_of(p.statuses@.entries(), StatusCooldownType::Manual)[k as int];
                &&& final(self)@ == replaced(old(self)@, id, Player { statuses: q.statuses, ..p })
                &&& q.statuses@ == p.statuses@.remove(sid)
                &&& p.statuses@.get(sid) == Some(s)
            },
            r is Err ==> r == Err::<Status, GameError>(GameError::NotFound) && final(self)@ == old(
                self,
            )@,
    {
        match self.get_index_of(id) {
            Some(i) => {
                let ghost a = *self;
                let manual = match self.get_by_index(i) {
                    Some((_, p)) => p.statuses.ids_of_type(StatusCooldownType::Manual),
                    None => Vec::new(),
                };
                if k >= manual.len() {
                    return Err(GameError::NotFound);
                }
                let sid = manual[k];
                proof {
                    lemma_ids_of_live(
                        a@.values[i as int].statuses@.entries(),
                        StatusCooldownType::Manual,
                        k as int,
                    );
                    assert(a@.values[i as int].statuses@.contains(sid));
                }
                let p = self.get_by_index_mut(i);
                let r = p.statuses.drain_by_id(sid);
                proof {
                    Players::lemma_replace(a, *self, i as int);
                }
                r
            },
            None => Err(GameError::NotFound),
        }
    }
    /// Whether a status can be added to the player under `id`.
    pub fn can_add_status(&self, id: Uid) -> (r: bool)
        requires
            self.wf(),
        ensures
            r == can_add_status(self@, id),
    {
        match self.get(id) {
            Some(p) => p.statuses.next_id().0 < u64::MAX,
            None => true,
        }
    }

    /// Removes every status of the player under `id`.
    pub fn clear_statuses(&mut self, id: Uid) -> (r: Result<(), GameError>)
        requires
            old(self).wf(),
        ensures
            final(self).wf(),
            r is Ok <==> old(self)@.contains(id),
            r is Ok ==> {
                let p = old(self)@.get(id)->0;
                let q = final(self)@.get(id)->0;
                &&& final(self)@ == replaced(old(self)@, id, Player { statuses: q.statuses, ..p })
                &&& q.statuses@.len() == 0
                &&& q.statuses@.next == p.statuses@.next
            },
            r is Err ==> r == Err::<(), GameError>(GameError::NotFound) && final(self)@ == old(
                self,
            )@,
    {
        match self.get_index_of(id) {
            Some(i) => {
                let ghost a = *self;
                let p = self.get_by_index_mut(i);
                p.statuses.clear();
                proof {
                    Players::lemma_replace(a, *self, i as int);
                }
                Ok(())
            },
            None => Err(GameError::NotFound),
        }
    }

    /// Makes every skill of the player under `id` ready to use again.
    pub fn reset_skills_cd(&mut self, id: Uid) -> (r: Result<(), GameError>)
        requires
            old(self).wf(),
        ensures
            final(self).wf(),
            r is Ok <==> old(self)@.contains(id),
            r is Ok ==> {
                let p = old(self)@.get(id)->0;
                let q = final(self)@.get(id)->0;
                &&& final(self)@ == replaced(old(self)@, id, Player { skills: q.skills, ..p })
                &&& q.skills@.len() == p.skills@.len()
                &&& forall|j: int|
                    0 <= j < p.skills@.len() ==> {
                        &&& (#[trigger] q.skills@[j]).cooldown_left == 0
                        &&& q.skills@[j].cooldown == p.skills@[j].cooldown
                        &&& q.skills@[j].name == p.skills@[j].name
                        &&& q.skills@[j].side_effect == p.skills@[j].side_effect
                    }
            },
            r is Err ==> r == Err::<(), GameError>(GameError::NotFound) && final(self)@ == old(
                self,
            )@,
    {
        match self.get_index_of(id) {
            Some(i) => {
                let ghost a = *self;
                let p = self.get_by_index_mut(i);
                p.reset_skills_cd();
                proof {
                    Players::lemma_replace(a, *self, i as int);
                }
                Ok(())
            },
            None => Err(GameError::NotFound),
        }
    }

    /// Adds the signed `diff` to the money of the player under `id` and
    /// returns the new balance.
    pub fn manage_money(&mut self, id: Uid, diff: i64) -> (r: Result<i64, GameError>)
        requires
            old(self).wf(),
            old(self)@.get(id) matches Some(p) ==> i64::MIN <= p.money + diff <= i64::MAX,
        ensures
            final(self).wf(),
            r is Ok <==> old(self)@.contains(id),
            r matches Ok(m) ==> {
                let p = old(self)@.get(id)->0;
                &&& m == p.money + diff
                &&& final(self)@ == replaced(old(self)@, id, Player { money: m, ..p })
            },
            r is Err ==> r == Err::<i64, GameError>(GameError::NotFound) && final(self)@ == old(
                self,
            )@,
    {
        match self.get_index_of(id) {
            Some(i) => {
                let ghost a = *self;
                let p = self.get_by_index_mut(i);
                let m = p.manage_money(diff);
                proof {
                    Players::lemma_replace(a, *self, i as int);
                    assert(self@.values[i as int] == (Player { money: m, ..a@.values[i as int] }));
                }
                Ok(m)
            },
            None => Err(GameError::NotFound),
        }
    }

    /// Uses skill `k` of the player under `id`. `NotFound` when there is no
    /// such player or skill, `OnCooldown` when the skill is not ready; nothing
    /// changes then. On success the skill's full cooldown starts.
    pub fn use_skill(&mut self, id: Uid, k: usize) -> (r: Result<(), GameError>)
        requires
            old(self).wf(),
        ensures
            final(self).wf(),
            !old(self)@.contains(id) || k >= old(self)@.get(id)->0.skills@.len() ==> r == Err::<
                (),
                GameError,
            >(GameError::NotFound),
            old(self)@.contains(id) && k < old(self)@.get(id)->0.skills@.len() ==> {
                let s = old(self)@.get(id)->0.skills@[k as int];
                &&& s.cooldown_left == 0 ==> r is Ok
                &&& s.cooldown_left > 0 ==> r == Err::<(), GameError>(GameError::OnCooldown)
            },
            r is Ok ==> {
                let p = old(self)@.get(id)->0;
                let q = final(self)@.get(id)->0;
                let s = p.skills@[k as int];
                &&& final(self)@ == replaced(old(self)@, id, Player { skills: q.skills, ..p })
                &&& q.skills@ == p.skills@.update(
                    k as int,
                    Skill { cooldown_left: s.cooldown, ..s },
                )
            },
            r is Err ==> final(self)@ == old(self)@,
    {
        match self.get_index_of(id) {
            Some(i) => {
                let ghost a = *self;
                if k >= self.get_by_index(i).unwrap().1.skills.len() {
                    return Err(GameError::NotFound);
                }
                if self.get_by_index(i).unwrap().1.skills[k].cooldown_left > 0 {
                    return Err(GameError::OnCooldown);
                }
                let p = self.get_by_index_mut(i);
                let r = p.skills[k].use_skill();
                proof {
                    Players::lemma_replace(a, *self, i as int);
                    let s = a@.values[i as int].skills@[k as int];
                    assert(self@.values[i as int].skills@ =~= a@.values[i as int].skills@.update(
                        k as int,
                        Skill { cooldown_left: s.cooldown, ..s },
                    ));
                }
                r
            },
            None => Err(GameError::NotFound),
        }
    }

    /// Carries out an "adds status" side effect of a skill used by the player
    /// under `user`: the status goes to the user when `affects` includes them,
    /// and to `target` when `affects` includes someone else and `target` names
    /// a live player other than the user. Returns how many players got it.
    pub fn apply_status_effect(
        &mut self,
        user: Uid,
        status: &Status,
        affects: SideEffectAffects,
        target: Option<Uid>,
    ) -> (r: usize)
        requires
            old(self).wf(),
            can_add_status(old(self)@, user),
            target matches Some(t) ==> can_add_status(old(self)@, t),
        ensures
            final(self).wf(),
            ({
                let to_self = affects.spec_affects_self() && old(self)@.contains(user);
                let to_other = affects.spec_affects_other() && (target matches Some(t) && t
                    != user && old(self)@.contains(t));
                &&& final(self)@.ids == old(self)@.ids
                &&& final(self)@.next == old(self)@.next
                &&& r == (if to_self { 1usize } else { 0 }) + (if to_other { 1usize } else { 0 })
                &&& forall|x: Uid|
                    #![trigger final(self)@.get(x)]
                    old(self)@.contains(x) ==> {
                        let p = old(self)@.get(x)->0;
                        let q = final(self)@.get(x)->0;
                        if (x == user && to_self) || (target == Some(x) && to_other) {
                            &&& q == (Player { statuses: q.statuses, ..p })
                            &&& q.statuses@ == p.statuses@.push(*status)
                        } else {
                            q == p
                        }
                    }
            }),
    {
        let mut n: usize = 0;
        let ghost a = self@;
        if affects.affects_self() && self.contains(user) {
            let _ = self.add_status(user, status.copied());
            n = n + 1;
        }
        let ghost b = self@;
        proof {
            assert forall|x: Uid| old(self)@.contains(x) && x != user implies #[trigger] b.get(x)
                == a.get(x) by {
                a.ids.index_of_first_ensures(x);
                a.ids.index_of_first_ensures(user);
            }
        }
        if let Some(t) = target {
            if affects.affects_other() && t != user && self.contains(t) {
                let _ = self.add_status(t, status.copied());
                n = n + 1;
                proof {
                    assert forall|x: Uid| old(self)@.contains(x) && x != t implies #[trigger] self@.get(
                        x,
                    ) == b.get(x) by {
                        b.ids.index_of_first_ensures(x);
                        b.ids.index_of_first_ensures(t);
                    }
                }
            }
        }
        n
    }
}

/// An identifier that `ids_of` lists names a live entry.
proof fn lemma_ids_of_live(entries: Seq<(Uid, Status)>, t: StatusCooldownType, k: int)
    requires
        0 <= k < ids_of(entries, t).len(),
    ensures
        exists|j: int| 0 <= j < entries.len() && entries[j].0 == ids_of(entries, t)[k],
{
    let p = |e: (Uid, Status)| !crate::status::keeps(t, e);
    let f = entries.filter(p);
    assert(f.contains(f[k]));
    crate::status::lemma_filter_subset(entries, p, f[k]);
    let j = choose|j: int| 0 <= j < entries.len() && entries[j] == f[k];
    assert(entries[j].0 == ids_of(entries, t)[k]);
}

} // verus!
