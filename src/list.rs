use vstd::prelude::*;

use crate::id::{OrderNum, Uid};

verus! {

/// The mathematical model of an [`IdList`]: the live identifiers in
/// iteration order, the values stored under them, and the next identifier
/// that `push` will issue.
pub ghost struct IdListView<V> {
    pub ids: Seq<Uid>,
    pub values: Seq<V>,
    pub next: nat,
}

impl<V> IdListView<V> {
    /// Every live identifier is unique, was issued before `next`, and has a
    /// value; `next` fits the identifier's width.
    pub open spec fn wf(self) -> bool {
        &&& self.next <= u64::MAX
        &&& self.ids.len() == self.values.len()
        &&& self.ids.no_duplicates()
        &&& forall|i: int| 0 <= i < self.ids.len() ==> (#[trigger] self.ids[i]).0 < self.next
    }

    pub open spec fn len(self) -> nat {
        self.ids.len()
    }

    pub open spec fn contains(self, id: Uid) -> bool {
        self.ids.contains(id)
    }

    /// The position of a live identifier (meaningful only when it is live).
    pub open spec fn position(self, id: Uid) -> int {
        self.ids.index_of(id)
    }

    /// The value stored under `id`, if it is live.
    pub open spec fn get(self, id: Uid) -> Option<V> {
        if self.contains(id) {
            Some(self.values[self.position(id)])
        } else {
            None
        }
    }

    /// The entries in order, each identifier beside its value.
    pub open spec fn entries(self) -> Seq<(Uid, V)> {
        Seq::new(self.ids.len(), |i: int| (self.ids[i], self.values[i]))
    }

    /// The identifier that the next `push` issues.
    pub open spec fn next_uid(self) -> Uid {
        Uid(self.next as u64)
    }

    /// The model after appending `value` under a freshly issued identifier.
    pub open spec fn push(self, value: V) -> IdListView<V> {
        IdListView {
            ids: self.ids.push(self.next_uid()),
            values: self.values.push(value),
            next: self.next + 1,
        }
    }

    /// The model after removing `id`; absent identifiers leave it unchanged.
    pub open spec fn remove(self, id: Uid) -> IdListView<V> {
        if self.contains(id) {
            let i = self.position(id);
            IdListView { ids: self.ids.remove(i), values: self.values.remove(i), next: self.next }
        } else {
            self
        }
    }

    /// The model after storing `value` under `id`: a live identifier keeps its
    /// position, an absent one is appended.
    pub open spec fn insert(self, id: Uid, value: V) -> IdListView<V> {
        if self.contains(id) {
            IdListView {
                ids: self.ids,
                values: self.values.update(self.position(id), value),
                next: self.next,
            }
        } else {
            IdListView {
                ids: self.ids.push(id),
                values: self.values.push(value),
                next: if id.0 < self.next { self.next } else { id.0 as nat + 1 },
            }
        }
    }
}

/// An identity-keyed collection that keeps its entries in insertion order.
pub struct IdList<V> {
    ids: Vec<Uid>,
    values: Vec<V>,
    next: u64,
}

impl<V> View for IdList<V> {
    type V = IdListView<V>;

    closed spec fn view(&self) -> IdListView<V> {
        IdListView { ids: self.ids@, values: self.values@, next: self.next as nat }
    }
}

impl<V> IdList<V> {
    pub open spec fn wf(&self) -> bool {
        self@.wf()
    }

    /// An empty collection whose first issued identifier is `Uid(0)`.
    pub fn new() -> (r: Self)
        ensures
            r.wf(),
            r@.ids == Seq::<Uid>::empty(),
            r@.values == Seq::<V>::empty(),
            r@.next == 0,
    {
        IdList { ids: Vec::new(), values: Vec::new(), next: 0 }
    }

    /// An empty collection that goes on issuing identifiers where `self` stands.
    pub(crate) fn empty_continuing(&self) -> (r: Self)
        requires
            self.wf(),
        ensures
            r.wf(),
            r@.ids == Seq::<Uid>::empty(),
            r@.values == Seq::<V>::empty(),
            r@.next == self@.next,
    {
        IdList { ids: Vec::new(), values: Vec::new(), next: self.next }
    }

    pub fn len(&self) -> (r: usize)
        requires
            self.wf(),
        ensures
            r == self@.len(),
    {
        self.ids.len()
    }

    pub fn is_empty(&self) -> (r: bool)
        requires
            self.wf(),
        ensures
            r == (self@.len() == 0),
    {
        self.ids.len() == 0
    }

    /// The position of `id` in the current order, or `None` when it is not live.
    pub fn get_index_of(&self, id: Uid) -> (r: Option<OrderNum>)
        requires
            self.wf(),
        ensures
            match r {
                Some(i) => self@.contains(id) && i == self@.position(id),
                None => !self@.contains(id),
            },
    {
        let mut i: usize = 0;
        while i < self.ids.len()
            invariant
                self.wf(),
                i <= self.ids@.len(),
                forall|j: int| 0 <= j < i ==> self.ids@[j] != id,
            decreases self.ids@.len() - i,
        {
            if self.ids[i] == id {
                proof {
                    self.ids@.index_of_first_ensures(id);
                }
                return Some(i);
            }
            i = i + 1;
        }
        None
    }

    pub fn contains(&self, id: Uid) -> (r: bool)
        requires
            self.wf(),
        ensures
            r == self@.contains(id),
    {
        self.get_index_of(id).is_some()
    }

    /// The identifier that the next `push` issues.
    pub fn next_id(&self) -> (r: Uid)
        requires
            self.wf(),
        ensures
            r == self@.next_uid(),
    {
        Uid(self.next)
    }

    /// Appends `value` under a freshly issued identifier and returns it.
    pub fn push(&mut self, value: V) -> (r: Uid)
        requires
            old(self).wf(),
            old(self)@.next < u64::MAX,
        ensures
            final(self).wf(),
            r == old(self)@.next_uid(),
            !old(self)@.contains(r),
            final(self)@ == old(self)@.push(value),
    {
        let id = Uid(self.next);
        proof {
            if self.ids@.contains(id) {
                let k = choose|k: int| 0 <= k < self.ids@.len() && self.ids@[k] == id;
                assert(self.ids@[k].0 < self.next);
            }
        }
        self.ids.push(id);
        self.values.push(value);
        self.next = self.next + 1;
        proof {
            assert(self@.ids =~= old(self)@.ids.push(id));
        }
        id
    }

    /// The value stored under `id`, or `None` when it is not live.
    pub fn get(&self, id: Uid) -> (r: Option<&V>)
        requires
            self.wf(),
        ensures
            r matches Some(v) ==> self@.get(id) == Some(*v),
            r is None ==> self@.get(id) is None,
    {
        match self.get_index_of(id) {
            Some(i) => Some(&self.values[i]),
            None => None,
        }
    }

    /// The entry at position `i` of the current order, or `None` past the end.
    pub fn get_by_index(&self, i: OrderNum) -> (r: Option<(Uid, &V)>)
        requires
            self.wf(),
        ensures
            i < self@.len() ==> (r matches Some(p) && p.0 == self@.ids[i as int] && *p.1
                == self@.values[i as int]),
            i >= self@.len() ==> r is None,
    {
        if i < self.ids.len() {
            Some((self.ids[i], &self.values[i]))
        } else {
            None
        }
    }

    /// Mutable access to the value under `id`, or `None` when it is not live;
    /// identifiers and order stay as they are.
    pub fn get_mut(&mut self, id: Uid) -> (r: Option<&mut V>)
        requires
            old(self).wf(),
        ensures
            final(self).wf(),
            r is None ==> !old(self)@.contains(id) && final(self)@ == old(self)@,
            r matches Some(v) ==> old(self)@.contains(id) && *v == old(self)@.values[old(
                self,
            )@.position(id)] && final(self)@ == (IdListView {
                    ids: old(self)@.ids,
                    values: old(self)@.values.update(old(self)@.position(id), *final(v)),
                    next: old(self)@.next,
                }),
    {
        match self.get_index_of(id) {
            Some(i) => Some(self.get_by_index_mut(i)),
            None => None,
        }
    }

    /// Mutable access to the value at position `i`; identifiers and order stay as they are.
    pub fn get_by_index_mut(&mut self, i: OrderNum) -> (r: &mut V)
        requires
            old(self).wf(),
            i < old(self)@.len(),
        ensures
            *r == old(self)@.values[i as int],
            final(self)@ == (IdListView {
                ids: old(self)@.ids,
                values: old(self)@.values.update(i as int, *final(r)),
                next: old(self)@.next,
            }),
    {
        &mut self.values[i]
    }
    /// Stores `value` under `id`: a live identifier keeps its position and gets the
    /// new value (the old one is returned); an absent one is appended.
    pub fn insert(&mut self, id: Uid, value: V) -> (r: Option<V>)
        requires
            old(self).wf(),
            old(self)@.contains(id) || id.0 < u64::MAX,
        ensures
            final(self).wf(),
            final(self)@ == old(self)@.insert(id, value),
            r == old(self)@.get(id),
    {
        match self.get_index_of(id) {
            Some(i) => {
                let mut value = value;
                std::mem::swap(&mut self.values[i], &mut value);
                Some(value)
            },
            None => {
                self.ids.push(id);
                self.values.push(value);
                if self.next <= id.0 {
                    self.next = id.0 + 1;
                }
                proof {
                    assert forall|a: int, b: int|
                        0 <= a < b < self.ids@.len() implies self.ids@[a] != self.ids@[b] by {
                        if b == self.ids@.len() - 1 {
                            assert(old(self).ids@.contains(old(self).ids@[a]));
                        }
                    }
                    assert(self@.ids =~= old(self)@.ids.push(id));
                }
                None
            },
        }
    }

    /// Removes `id` and returns its value; an identifier that is not live is
    /// reported by `None` and leaves the collection unchanged.
    pub fn remove(&mut self, id: Uid) -> (r: Option<V>)
        requires
            old(self).wf(),
        ensures
            final(self).wf(),
            final(self)@ == old(self)@.remove(id),
            r == old(self)@.get(id),
    {
        match self.get_index_of(id) {
            Some(i) => {
                let ghost before = self.ids@;
                self.ids.remove(i);
                let v = self.values.remove(i);
                proof {
                    lemma_remove_keeps_unique(before, i as int);
                }
                Some(v)
            },
            None => None,
        }
    }

    /// Removes every entry; identifiers issued so far are never issued again.
    pub fn clear(&mut self)
        requires
            old(self).wf(),
        ensures
            final(self).wf(),
            final(self)@.ids == Seq::<Uid>::empty(),
            final(self)@.values == Seq::<V>::empty(),
            final(self)@.next == old(self)@.next,
    {
        self.ids.clear();
        self.values.clear();
    }

    /// The live identifiers in iteration order.
    pub fn ids(&self) -> (r: Vec<Uid>)
        requires
            self.wf(),
        ensures
            r@ == self@.ids,
    {
        let mut r: Vec<Uid> = Vec::new();
        let mut i: usize = 0;
        while i < self.ids.len()
            invariant
                i <= self.ids@.len(),
                r@ == self.ids@.subrange(0, i as int),
            decreases self.ids@.len() - i,
        {
            r.push(self.ids[i]);
            i = i + 1;
            proof {
                assert(r@ =~= self.ids@.subrange(0, i as int));
            }
        }
        proof {
            assert(r@ =~= self.ids@);
        }
        r
    }

    /// Exchanges the entries at positions `a` and `b`; identifiers and values stay paired.
    pub fn swap_indices(&mut self, a: OrderNum, b: OrderNum)
        requires
            old(self).wf(),
            a < old(self)@.len(),
            b < old(self)@.len(),
        ensures
            final(self).wf(),
            final(self)@.ids == old(self)@.ids.update(a as int, old(self)@.ids[b as int]).update(
                b as int,
                old(self)@.ids[a as int],
            ),
            final(self)@.values == old(self)@.values.update(
                a as int,
                old(self)@.values[b as int],
            ).update(b as int, old(self)@.values[a as int]),
            final(self)@.next == old(self)@.next,
    {
        let ia = self.ids[a];
        let ib = self.ids[b];
        self.ids.set(a, ib);
        self.ids.set(b, ia);
        if a != b {
            // take a's value out, trade it for b's, and put b's value where a's was
            let mut va = self.values.remove(a);
            let at_b = if a < b {
                b - 1
            } else {
                b
            };
            std::mem::swap(&mut self.values[at_b], &mut va);
            self.values.insert(a, va);
        }
        proof {
            let o = old(self)@.ids;
            assert forall|x: int, y: int|
                0 <= x < y < self.ids@.len() implies self.ids@[x] != self.ids@[y] by {
                let px = if x == a { b as int } else if x == b { a as int } else { x };
                let py = if y == a { b as int } else if y == b { a as int } else { y };
                assert(self.ids@[x] == o[px]);
                assert(self.ids@[y] == o[py]);
            }
            assert forall|x: int| 0 <= x < self.ids@.len() implies (#[trigger] self.ids@[x]).0
                < self.next by {
                let px = if x == a { b as int } else if x == b { a as int } else { x };
                assert(self.ids@[x] == o[px]);
            }
            assert(self.values@ =~= old(self)@.values.update(
                a as int,
                old(self)@.values[b as int],
            ).update(b as int, old(self)@.values[a as int]));
        }
    }
}

/// In a sequence without duplicates, the entry at position `i` is found at `i`.
pub proof fn lemma_index_of_unique<A>(s: Seq<A>, i: int)
    requires
        s.no_duplicates(),
        0 <= i < s.len(),
    ensures
        s.contains(s[i]),
        s.index_of(s[i]) == i,
{
    s.index_of_first_ensures(s[i]);
}

/// In a well-formed model, the live identifier at position `i` is found at `i`.
pub broadcast proof fn lemma_position_of<V>(v: IdListView<V>, i: int)
    requires
        v.wf(),
        0 <= i < v.ids.len(),
    ensures
        v.contains(v.ids[i]),
        #[trigger] v.position(v.ids[i]) == i,
{
    lemma_index_of_unique(v.ids, i);
}

/// One mutation of an identity-keyed collection.
pub enum ListOp<V> {
    Push(V),
    Remove(Uid),
}

impl<V> IdListView<V> {
    /// Live identifiers appear in the order in which they were issued.
    pub open spec fn issue_ordered(self) -> bool {
        forall|i: int, j: int| 0 <= i < j < self.ids.len() ==> self.ids[i].0 < self.ids[j].0
    }

    pub open spec fn apply(self, op: ListOp<V>) -> IdListView<V> {
        match op {
            ListOp::Push(v) => self.push(v),
            ListOp::Remove(id) => self.remove(id),
        }
    }

    /// The model after performing `ops` from first to last.
    pub open spec fn apply_all(self, ops: Seq<ListOp<V>>) -> IdListView<V>
        decreases ops.len(),
    {
        if ops.len() == 0 {
            self
        } else {
            self.apply(ops[0]).apply_all(ops.subrange(1, ops.len() as int))
        }
    }
}

/// After any sequence of pushes and removals, starting from a well-formed
/// collection whose entries are in issue order (an empty one, say), every live
/// identifier is unique and the iteration order is the order of insertion.
pub proof fn lemma_push_remove_keep_order<V>(l: IdListView<V>, ops: Seq<ListOp<V>>)
    requires
        l.wf(),
        l.issue_ordered(),
        l.next + ops.len() < u64::MAX,
    ensures
        l.apply_all(ops).wf(),
        l.apply_all(ops).issue_ordered(),
        l.apply_all(ops).next <= l.next + ops.len(),
    decreases ops.len(),
{
    if ops.len() > 0 {
        let m = l.apply(ops[0]);
        match ops[0] {
            ListOp::Push(v) => {
                assert(m.ids.last() == l.next_uid());
                assert(m.ids =~= l.ids.push(l.next_uid()));
                assert forall|a: int, b: int| 0 <= a < b < m.ids.len() implies m.ids[a]
                    != m.ids[b] by {
                    if b == m.ids.len() - 1 {
                        assert(l.ids[a].0 < l.next);
                    }
                }
                assert forall|i: int, j: int| 0 <= i < j < m.ids.len() implies m.ids[i].0
                    < m.ids[j].0 by {
                    if j == m.ids.len() - 1 {
                        assert(l.ids[i].0 < l.next);
                    }
                }
            },
            ListOp::Remove(id) => {
                if l.contains(id) {
                    lemma_remove_keeps_unique(l.ids, l.position(id));
                    let k = l.position(id);
                    assert forall|i: int, j: int| 0 <= i < j < m.ids.len() implies m.ids[i].0
                        < m.ids[j].0 by {
                        let pi = if i < k { i } else { i + 1 };
                        let pj = if j < k { j } else { j + 1 };
                        assert(m.ids[i] == l.ids[pi]);
                        assert(m.ids[j] == l.ids[pj]);
                    }
                    assert forall|i: int| 0 <= i < m.ids.len() implies (#[trigger] m.ids[i]).0
                        < m.next by {
                        let pi = if i < k { i } else { i + 1 };
                        assert(m.ids[i] == l.ids[pi]);
                    }
                }
            },
        }
        lemma_push_remove_keep_order(m, ops.subrange(1, ops.len() as int));
    }
}

/// Pushing a value and at once removing the identifier that the push issued
/// leaves the same entries, in the same order, as before the push.
pub proof fn lemma_push_then_remove<V>(l: IdListView<V>, value: V)
    requires
        l.wf(),
        l.next < u64::MAX,
    ensures
        l.push(value).remove(l.next_uid()).ids == l.ids,
        l.push(value).remove(l.next_uid()).values == l.values,
{
    let p = l.push(value);
    let id = l.next_uid();
    assert(p.ids.last() == id);
    assert(p.contains(id));
    if l.ids.contains(id) {
        let k = l.ids.index_of(id);
        l.ids.index_of_first_ensures(id);
        assert(l.ids[k].0 < l.next);
    }
    p.ids.index_of_first_ensures(id);
    let k = p.position(id);
    if k < p.ids.len() - 1 {
        assert(l.ids[k] == id);
    }
    assert(k == l.ids.len());
    assert(p.ids.remove(k) =~= l.ids);
    assert(p.values.remove(k) =~= l.values);
}

/// Dropping one entry of a sequence without duplicates leaves none.
pub(crate) proof fn lemma_remove_keeps_unique<A>(s: Seq<A>, i: int)
    requires
        s.no_duplicates(),
        0 <= i < s.len(),
    ensures
        s.remove(i).no_duplicates(),
        forall|x: A| s.remove(i).contains(x) ==> s.contains(x),
{
    let r = s.remove(i);
    assert forall|a: int, b: int| 0 <= a < b < r.len() implies r[a] != r[b] by {
        let pa = if a < i { a } else { a + 1 };
        let pb = if b < i { b } else { b + 1 };
        assert(r[a] == s[pa]);
        assert(r[b] == s[pb]);
    }
    assert forall|x: A| r.contains(x) implies s.contains(x) by {
        let k = choose|k: int| 0 <= k < r.len() && r[k] == x;
        let pk = if k < i { k } else { k + 1 };
        assert(s[pk] == x);
    }
}

} // verus!
