use vstd::prelude::*;

use crate::setlist::{names_of, SetList};

verus! {

/// The registry of stat names of one game.
pub type StatList = SetList;

/// A player's stat values, keyed by stat name.
pub struct Stats {
    names: Vec<String>,
    values: Vec<i32>,
}

impl View for Stats {
    type V = Map<Seq<char>, i32>;

    closed spec fn view(&self) -> Map<Seq<char>, i32> {
        Map::new(
            |k: Seq<char>| names_of(self.names@).contains(k),
            |k: Seq<char>| self.values@[names_of(self.names@).index_of(k)],
        )
    }
}

impl Stats {
    /// Each name is held once and has a value.
    pub closed spec fn wf(&self) -> bool {
        &&& self.names@.len() == self.values@.len()
        &&& names_of(self.names@).no_duplicates()
    }

    pub fn new() -> (r: Self)
        ensures
            r.wf(),
            r@ == Map::<Seq<char>, i32>::empty(),
    {
        let r = Stats { names: Vec::new(), values: Vec::new() };
        proof {
            assert(names_of(r.names@) =~= Seq::<Seq<char>>::empty());
            assert(r@ =~= Map::<Seq<char>, i32>::empty());
        }
        r
    }

    fn find(&self, name: &String) -> (r: Option<usize>)
        requires
            self.wf(),
        ensures
            match r {
                Some(i) => names_of(self.names@).contains(name@) && i == names_of(
                    self.names@,
                ).index_of(name@),
                None => !names_of(self.names@).contains(name@),
            },
    {
        let ghost ns = names_of(self.names@);
        let mut i: usize = 0;
        while i < self.names.len()
            invariant
                self.wf(),
                ns == names_of(self.names@),
                i <= self.names@.len(),
                forall|j: int| 0 <= j < i ==> ns[j] != name@,
            decreases self.names@.len() - i,
        {
            if self.names[i] == *name {
                proof {
                    assert(ns[i as int] == name@);
                    ns.index_of_first_ensures(name@);
                }
                return Some(i);
            }
            i = i + 1;
        }
        proof {
            if ns.contains(name@) {
                ns.index_of_first_ensures(name@);
            }
        }
        None
    }

    /// The value of the stat `name`; a stat that was never set counts as zero.
    pub fn get(&self, name: &String) -> (r: i32)
        requires
            self.wf(),
        ensures
            r == if self@.contains_key(name@) {
                self@[name@]
            } else {
                0
            },
    {
        match self.find(name) {
            Some(i) => self.values[i],
            None => 0,
        }
    }

    /// Sets the stat `name` to `value`.
    pub fn set(&mut self, name: String, value: i32)
        requires
            old(self).wf(),
        ensures
            final(self).wf(),
            final(self)@ == old(self)@.insert(name@, value),
    {
        let ghost n = name@;
        let ghost old_ns = names_of(self.names@);
        match self.find(&name) {
            Some(i) => {
                self.values.set(i, value);
                proof {
                    old_ns.index_of_first_ensures(n);
                    assert forall|k: Seq<char>| old_ns.contains(k) && k != n implies old_ns.index_of(
                        k,
                    ) != i by {
                        old_ns.index_of_first_ensures(k);
                    }
                    assert(self@ =~= old(self)@.insert(n, value));
                }
            },
            None => {
                self.names.push(name);
                self.values.push(value);
                proof {
                    let ns = names_of(self.names@);
                    assert(ns =~= old_ns.push(n));
                    assert forall|a: int, b: int| 0 <= a < b < ns.len() implies ns[a] != ns[b] by {
                        if b == ns.len() - 1 {
                            assert(old_ns.contains(old_ns[a]));
                        }
                    }
                    assert(ns[old_ns.len() as int] == n);
                    ns.index_of_first_ensures(n);
                    assert(ns.index_of(n) == old_ns.len()) by {
                        let p = ns.index_of(n);
                        if p < old_ns.len() {
                            assert(old_ns[p] == n);
                            assert(old_ns.contains(n));
                        }
                    }
                    assert forall|k: Seq<char>| old_ns.contains(k) implies ns.index_of(k)
                        == old_ns.index_of(k) by {
                        old_ns.index_of_first_ensures(k);
                        ns.index_of_first_ensures(k);
                        let p = ns.index_of(k);
                        let q = old_ns.index_of(k);
                        assert(ns[q] == k);
                        if p < q {
                            assert(old_ns[p] == k);
                        }
                    }
                    assert forall|k: Seq<char>| ns.contains(k) implies old_ns.contains(k) || k
                        == n by {
                        let j = choose|j: int| 0 <= j < ns.len() && ns[j] == k;
                        if j < old_ns.len() {
                            assert(old_ns[j] == k);
                        }
                    }
                    assert forall|k: Seq<char>| old_ns.contains(k) implies ns.contains(k) by {
                        let j = choose|j: int| 0 <= j < old_ns.len() && old_ns[j] == k;
                        assert(ns[j] == k);
                    }
                    assert(self@ =~= old(self)@.insert(n, value));
                }
            },
        }
    }
    /// Every stat with its value, each name once.
    pub fn entries(&self) -> (r: Vec<(String, i32)>)
        requires
            self.wf(),
        ensures
            r@.len() == self@.dom().len(),
            forall|k: int|
                0 <= k < r@.len() ==> self@.contains_key((#[trigger] r@[k]).0@) && self@[r@[k].0@]
                    == r@[k].1,
            forall|n: Seq<char>|
                self@.contains_key(n) ==> exists|k: int| 0 <= k < r@.len() && (#[trigger] r@[k]).0@ == n,
    {
        let ghost ns = names_of(self.names@);
        let mut r: Vec<(String, i32)> = Vec::new();
        let mut i: usize = 0;
        while i < self.names.len()
            invariant
                self.wf(),
                ns == names_of(self.names@),
                i <= self.names@.len(),
                r@.len() == i,
                forall|k: int| 0 <= k < i ==> (#[trigger] r@[k]).0@ == ns[k] && r@[k].1 == self.values@[k],
            decreases self.names@.len() - i,
        {
            r.push((self.names[i].clone(), self.values[i]));
            i = i + 1;
        }
        proof {
            assert forall|k: int| 0 <= k < r@.len() implies self@.contains_key((#[trigger] r@[k]).0@)
                && self@[r@[k].0@] == r@[k].1 by {
                assert(ns[k] == r@[k].0@);
                assert(ns.contains(ns[k]));
                ns.index_of_first_ensures(ns[k]);
            }
            assert forall|n: Seq<char>| self@.contains_key(n) implies exists|k: int|
                0 <= k < r@.len() && (#[trigger] r@[k]).0@ == n by {
                let k = choose|k: int| 0 <= k < ns.len() && ns[k] == n;
                assert(r@[k].0@ == n);
            }
            ns.unique_seq_to_set();
            assert(self@.dom() =~= ns.to_set());
        }
        r
    }
}

} // verus!
