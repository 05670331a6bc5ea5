use vstd::prelude::*;

use crate::id::{OrderNum, Uid};
use crate::list::{lemma_remove_keeps_unique, IdList, IdListView};

verus! {

/// The text of every entry of a model of strings, in order.
pub open spec fn names_of(values: Seq<String>) -> Seq<Seq<char>> {
    values.map_values(|s: String| s@)
}

/// A registry of unique names (stat names, status names), each under a durable identifier.
pub struct SetList {
    list: IdList<String>,
}

impl View for SetList {
    type V = IdListView<String>;

    closed spec fn view(&self) -> IdListView<String> {
        self.list@
    }
}

impl SetList {
    /// The collection is well formed and no two entries hold the same text.
    pub open spec fn wf(&self) -> bool {
        &&& self@.wf()
        &&& self.names().no_duplicates()
    }

    pub open spec fn names(&self) -> Seq<Seq<char>> {
        names_of(self@.values)
    }

    pub open spec fn has_name(&self, name: Seq<char>) -> bool {
        self.names().contains(name)
    }

    /// The position of the entry holding `name` (meaningful only when there is one).
    pub open spec fn name_position(&self, name: Seq<char>) -> int {
        self.names().index_of(name)
    }


    pub fn new() -> (r: Self)
        ensures
            r.wf(),
            r@.ids == Seq::<Uid>::empty(),
            r@.values == Seq::<String>::empty(),
            r@.next == 0,
    {
        let r = SetList { list: IdList::new() };
        proof {
            assert(r.names() =~= Seq::<Seq<char>>::empty());
        }
        r
    }

    pub fn len(&self) -> (r: usize)
        requires
            self.wf(),
        ensures
            r == self@.len(),
    {
        self.list.len()
    }

    pub fn is_empty(&self) -> (r: bool)
        requires
            self.wf(),
        ensures
            r == (self@.len() == 0),
    {
        self.list.is_empty()
    }

    /// The position of the entry whose text is `name`, or `None` when there is none.
    pub fn get_index(&self, name: &String) -> (r: Option<OrderNum>)
        requires
            self.wf(),
        ensures
            match r {
                Some(i) => self.has_name(name@) && i == self.name_position(name@),
                None => !self.has_name(name@),
            },
    {
        let n = self.list.len();
        let mut i: usize = 0;
        while i < n
            invariant
                self.wf(),
                n == self@.len(),
                i <= n,
                forall|j: int| 0 <= j < i ==> self.names()[j] != name@,
            decreases n - i,
        {
            let entry = self.list.get_by_index(i);
            if let Some((_, v)) = entry {
                if *v == *name {
                    proof {
                        assert(self.names()[i as int] == name@);
                        self.names().index_of_first_ensures(name@);
                    }
                    return Some(i);
                }
            }
            i = i + 1;
        }
        proof {
            if self.names().contains(name@) {
                self.names().index_of_first_ensures(name@);
            }
        }
        None
    }

    /// The text at position `i`, or `None` past the end.
    pub fn get(&self, i: OrderNum) -> (r: Option<&String>)
        requires
            self.wf(),
        ensures
            i < self@.len() ==> (r matches Some(s) && *s == self@.values[i as int]),
            i >= self@.len() ==> r is None,
    {
        match self.list.get_by_index(i) {
            Some((_, v)) => Some(v),
            None => None,
        }
    }

    /// The identifier of the entry at position `i`, or `None` past the end.
    pub fn get_id(&self, i: OrderNum) -> (r: Option<Uid>)
        requires
            self.wf(),
        ensures
            i < self@.len() ==> r == Some(self@.ids[i as int]),
            i >= self@.len() ==> r is None,
    {
        match self.list.get_by_index(i) {
            Some((id, _)) => Some(id),
            None => None,
        }
    }

    /// Every text in order.
    pub fn get_names(&self) -> (r: Vec<String>)
        requires
            self.wf(),
        ensures
            r@ == self@.values,
    {
        let n = self.list.len();
        let mut r: Vec<String> = Vec::new();
        let mut i: usize = 0;
        while i < n
            invariant
                self.wf(),
                n == self@.len(),
                i <= n,
                r@ == self@.values.subrange(0, i as int),
            decreases n - i,
        {
            if let Some((_, v)) = self.list.get_by_index(i) {
                r.push(v.clone());
            }
            i = i + 1;
            proof {
                assert(r@ =~= self@.values.subrange(0, i as int));
            }
        }
        proof {
            assert(r@ =~= self@.values);
        }
        r
    }
    /// Adds `name`. When an entry already holds the same text it is overwritten
    /// in place and keeps its identifier and position; otherwise `name` is
    /// appended under a fresh identifier. Returns the entry's identifier.
    pub fn insert(&mut self, name: String) -> (r: Uid)
        requires
            old(self).wf(),
            old(self)@.next < u64::MAX,
        ensures
            final(self).wf(),
            old(self).has_name(name@) ==> {
                let k = old(self).name_position(name@);
                &&& r == old(self)@.ids[k]
                &&& final(self)@ == old(self)@.insert(r, name)
                &&& final(self)@.ids == old(self)@.ids
                &&& final(self).names() == old(self).names()
            },
            !old(self).has_name(name@) ==> r == old(self)@.next_uid() && final(self)@ == old(
                self,
            )@.push(name),
    {
        match self.get_index(&name) {
            Some(i) => {
                let id = self.list.get_by_index(i).unwrap().0;
                let ghost o = self@;
                proof {
                    o.ids.index_of_first_ensures(id);
                    assert(o.ids[i as int] == id);
                    assert(o.position(id) == i);
                }
                self.list.insert(id, name);
                proof {
                    assert(self.names() =~= old(self).names());
                }
                id
            },
            None => {
                let ghost n = name@;
                let id = self.list.push(name);
                proof {
                    assert(self.names() =~= old(self).names().push(n));
                    assert forall|a: int, b: int|
                        0 <= a < b < self.names().len() implies self.names()[a]
                        != self.names()[b] by {
                        if b == self.names().len() - 1 {
                            assert(old(self).names().contains(old(self).names()[a]));
                        }
                    }
                }
                id
            },
        }
    }

    /// Removes the entry whose text is `name` and returns its former position
    /// and text; `None` when there is no such entry (nothing changes then).
    pub fn remove(&mut self, name: &String) -> (r: Option<(OrderNum, String)>)
        requires
            old(self).wf(),
        ensures
            final(self).wf(),
            old(self).has_name(name@) ==> {
                let k = old(self).name_position(name@);
                &&& r == Some((k as usize, old(self)@.values[k]))
                &&& final(self)@ == old(self)@.remove(old(self)@.ids[k])
            },
            !old(self).has_name(name@) ==> r is None && final(self)@ == old(self)@,
    {
        match self.get_index(name) {
            Some(i) => {
                let id = self.list.get_by_index(i).unwrap().0;
                let ghost o = self@;
                proof {
                    o.ids.index_of_first_ensures(id);
                    assert(o.position(id) == i);
                    lemma_remove_keeps_unique(self.names(), i as int);
                }
                let v = self.list.remove(id).unwrap();
                proof {
                    assert(self.names() =~= old(self).names().remove(i as int));
                }
                Some((i, v))
            },
            None => None,
        }
    }
}

} // verus!
