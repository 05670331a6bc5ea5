use vstd::prelude::*;

use crate::error::GameError;
use crate::id::{OrderNum, Uid};
use crate::list::{IdList, IdListView};

verus! {

/// The registry of status names of one game.
pub type StatusList = crate::setlist::SetList;

/// When a status wears off.
#[derive(Clone, Copy, PartialEq, Eq, Structural, Debug, Hash)]
pub enum StatusCooldownType {
    /// At the end of its owner's turn.
    Normal,
    /// When its owner attacks.
    OnAttacking,
    /// When its owner is attacked.
    OnGettingAttacked,
    /// Only when the game master removes it.
    Manual,
}

/// A timed effect on a player.
#[derive(Clone, Debug)]
pub struct Status {
    /// A name from the game's status registry.
    pub status_type: String,
    pub status_cooldown_type: StatusCooldownType,
    pub duration_left: u32,
}

impl Status {
    pub fn new(
        status_type: String,
        status_cooldown_type: StatusCooldownType,
        duration_left: u32,
    ) -> (r: Self)
        ensures
            r.status_type == status_type,
            r.status_cooldown_type == status_cooldown_type,
            r.duration_left == duration_left,
    {
        Status { status_type, status_cooldown_type, duration_left }
    }

    /// A copy of this status.
    pub fn copied(&self) -> (r: Status)
        ensures
            r == *self,
    {
        Status {
            status_type: self.status_type.clone(),
            status_cooldown_type: self.status_cooldown_type,
            duration_left: self.duration_left,
        }
    }
}

/// The entry `e` holds a status that is not of type `t`.
pub open spec fn keeps(t: StatusCooldownType, e: (Uid, Status)) -> bool {
    e.1.status_cooldown_type != t
}

/// The entries that survive draining every status of type `t`, in their order.
pub open spec fn drained(entries: Seq<(Uid, Status)>, t: StatusCooldownType) -> Seq<(Uid, Status)> {
    entries.filter(|e: (Uid, Status)| keeps(t, e))
}

/// The identifiers of the statuses of type `t`, in order.
pub open spec fn ids_of(entries: Seq<(Uid, Status)>, t: StatusCooldownType) -> Seq<Uid> {
    entries.filter(|e: (Uid, Status)| !keeps(t, e)).map_values(|e: (Uid, Status)| e.0)
}

/// The statuses of one player, each under its own identifier.
pub struct Statuses {
    list: IdList<Status>,
}

impl View for Statuses {
    type V = IdListView<Status>;

    closed spec fn view(&self) -> IdListView<Status> {
        self.list@
    }
}

impl Statuses {
    pub open spec fn wf(&self) -> bool {
        self@.wf()
    }


    pub fn new() -> (r: Self)
        ensures
            r.wf(),
            r@.ids == Seq::<Uid>::empty(),
            r@.values == Seq::<Status>::empty(),
            r@.next == 0,
    {
        Statuses { list: IdList::new() }
    }

    /// The identifier that the next `push` issues.
    pub fn next_id(&self) -> (r: Uid)
        requires
            self.wf(),
        ensures
            r == self@.next_uid(),
    {
        self.list.next_id()
    }

    pub fn len(&self) -> (r: usize)
        requires
            self.wf(),
        ensures
            r == self@.len(),
    {
        self.list.len()
    }

    pub fn is_empty(&self) -> (r: bool)
        requires
            self.wf(),
        ensures
            r == (self@.len() == 0),
    {
        self.list.is_empty()
    }

    /// Adds a status under a fresh identifier and returns that identifier.
    pub fn push(&mut self, status: Status) -> (r: Uid)
        requires
            old(self).wf(),
            old(self)@.next < u64::MAX,
        ensures
            final(self).wf(),
            r == old(self)@.next_uid(),
            final(self)@ == old(self)@.push(status),
    {
        self.list.push(status)
    }

    /// The status under `id`, or `None` when it is not live.
    pub fn get(&self, id: Uid) -> (r: Option<&Status>)
        requires
            self.wf(),
        ensures
            r matches Some(v) ==> self@.get(id) == Some(*v),
            r is None ==> self@.get(id) is None,
    {
        self.list.get(id)
    }

    /// The entry at position `i`, or `None` past the end.
    pub fn get_by_index(&self, i: OrderNum) -> (r: Option<(Uid, &Status)>)
        requires
            self.wf(),
        ensures
            i < self@.len() ==> (r matches Some(p) && p.0 == self@.ids[i as int] && *p.1
                == self@.values[i as int]),
            i >= self@.len() ==> r is None,
    {
        self.list.get_by_index(i)
    }

    /// Removes every status.
    pub fn clear(&mut self)
        requires
            old(self).wf(),
        ensures
            final(self).wf(),
            final(self)@.ids == Seq::<Uid>::empty(),
            final(self)@.values == Seq::<Status>::empty(),
            final(self)@.next == old(self)@.next,
    {
        self.list.clear()
    }
    /// Removes every status of type `t`; the others keep their identifiers and order.
    pub fn drain_by_type(&mut self, t: StatusCooldownType)
        requires
            old(self).wf(),
        ensures
            final(self).wf(),
            final(self)@.entries() == drained(old(self)@.entries(), t),
            final(self)@.next == old(self)@.next,
    {
        let ghost o = self@.entries();
        let ghost n = o.len();
        let ghost mut k: int = 0;
        let mut i: usize = 0;
        while i < self.list.len()
            invariant
                self.wf(),
                self@.next == old(self)@.next,
                0 <= i <= k <= n,
                o == old(self)@.entries(),
                n == o.len(),
                self@.len() == i + (n - k),
                self@.entries() == drained(o.subrange(0, k), t) + o.subrange(k, n as int),
                drained(o.subrange(0, k), t).len() == i,
            decreases n - k,
        {
            proof {
                reveal(Seq::filter);
                assert(o.subrange(0, k + 1).drop_last() =~= o.subrange(0, k));
                assert(self@.entries()[i as int] == o[k]);
            }
            let (id, st) = self.list.get_by_index(i).unwrap();
            if st.status_cooldown_type == t {
                proof {
                    self@.ids.index_of_first_ensures(id);
                    assert(self@.position(id) == i);
                }
                let ghost before = self@;
                self.list.remove(id);
                proof {
                    assert(self@.entries() =~= before.entries().remove(i as int));
                    assert(self@.entries() =~= drained(o.subrange(0, k + 1), t) + o.subrange(
                        k + 1,
                        n as int,
                    ));
                    k = k + 1;
                }
            } else {
                proof {
                    assert(self@.entries() =~= drained(o.subrange(0, k + 1), t) + o.subrange(
                        k + 1,
                        n as int,
                    ));
                    k = k + 1;
                }
                i = i + 1;
            }
        }
        proof {
            assert(o.subrange(0, n as int) =~= o);
            assert(self@.entries() =~= drained(o, t));
        }
    }
    /// Removes the status under `id` and returns it; `NotFound` when it is not
    /// live, and then nothing changes.
    pub fn drain_by_id(&mut self, id: Uid) -> (r: Result<Status, GameError>)
        requires
            old(self).wf(),
        ensures
            final(self).wf(),
            final(self)@ == old(self)@.remove(id),
            match r {
                Ok(s) => old(self)@.get(id) == Some(s),
                Err(e) => e == GameError::NotFound && !old(self)@.contains(id),
            },
    {
        match self.list.remove(id) {
            Some(s) => Ok(s),
            None => Err(GameError::NotFound),
        }
    }

    /// The identifiers of the statuses of type `t`, in order.
    pub fn ids_of_type(&self, t: StatusCooldownType) -> (r: Vec<Uid>)
        requires
            self.wf(),
        ensures
            r@ == ids_of(self@.entries(), t),
    {
        let ghost o = self@.entries();
        let n = self.list.len();
        let mut r: Vec<Uid> = Vec::new();
        let mut i: usize = 0;
        while i < n
            invariant
                self.wf(),
                o == self@.entries(),
                n == o.len(),
                i <= n,
                r@ == ids_of(o.subrange(0, i as int), t),
            decreases n - i,
        {
            proof {
                reveal(Seq::filter);
                assert(o.subrange(0, i + 1).drop_last() =~= o.subrange(0, i as int));
            }
            let (id, st) = self.list.get_by_index(i).unwrap();
            if st.status_cooldown_type == t {
                r.push(id);
            }
            proof {
                let p = |e: (Uid, Status)| !keeps(t, e);
                let f = |e: (Uid, Status)| e.0;
                let a = o.subrange(0, i as int).filter(p);
                assert(o.subrange(0, i + 1).filter(p) == if p(o[i as int]) {
                    a.push(o[i as int])
                } else {
                    a
                });
                assert(a.push(o[i as int]).map_values(f) =~= a.map_values(f).push(o[i as int].0));
            }
            i = i + 1;
        }
        proof {
            assert(o.subrange(0, n as int) =~= o);
        }
        r
    }
}

/// Whatever a filter keeps was in the sequence.
pub(crate) proof fn lemma_filter_subset<A>(s: Seq<A>, p: spec_fn(A) -> bool, x: A)
    requires
        s.filter(p).contains(x),
    ensures
        s.contains(x),
    decreases s.len(),
{
    reveal(Seq::filter);
    if s.len() > 0 {
        let sub = s.drop_last().filter(p);
        if sub.contains(x) {
            lemma_filter_subset(s.drop_last(), p, x);
            let j = choose|j: int| 0 <= j < s.drop_last().len() && s.drop_last()[j] == x;
            assert(s[j] == x);
        } else {
            assert(x == s.last());
            assert(s[s.len() - 1] == x);
        }
    }
}

/// Draining the statuses of type `t` removes exactly those: an entry survives
/// if and only if it was there and its status is of another type.
pub proof fn lemma_drained_members(
    entries: Seq<(Uid, Status)>,
    t: StatusCooldownType,
    e: (Uid, Status),
)
    ensures
        drained(entries, t).contains(e) <==> entries.contains(e) && e.1.status_cooldown_type != t,
{
    let p = |x: (Uid, Status)| keeps(t, x);
    if drained(entries, t).contains(e) {
        lemma_filter_subset(entries, p, e);
        let f = entries.filter(p);
        let j = choose|j: int| 0 <= j < f.len() && f[j] == e;
        entries.lemma_filter_pred(p, j);
    }
    if entries.contains(e) && e.1.status_cooldown_type != t {
        let j = choose|j: int| 0 <= j < entries.len() && entries[j] == e;
        entries.lemma_filter_contains(p, j);
    }
}

} // verus!
