//! A small set of strings that keeps the order of insertion.
use vstd::prelude::*;

verus! {

/// A set of strings, each held once, in the order they were first inserted.
pub struct StringSet {
    items: Vec<String>,
}

impl View for StringSet {
    type V = Set<Seq<char>>;

    open spec fn view(&self) -> Set<Seq<char>> {
        Set::new(|s: Seq<char>| exists|i: int| 0 <= i < self.elements().len() && self.elements()[i]@ == s)
    }
}

impl StringSet {
    /// The strings held, in order of insertion.
    pub closed spec fn elements(&self) -> Seq<String> {
        self.items@
    }

    /// No string is held twice.
    pub open spec fn wf(&self) -> bool {
        forall|i: int, j: int|
            0 <= i < j < self.elements().len() ==> (#[trigger] self.elements()[i])@ != (
            #[trigger] self.elements()[j])@
    }

    /// The empty set.
    pub fn new() -> (r: StringSet)
        ensures
            r.wf(),
            r@ == Set::<Seq<char>>::empty(),
    {
        let r = StringSet { items: Vec::new() };
        assert(r@ =~= Set::<Seq<char>>::empty());
        r
    }

    /// Whether a string equal to `v` is held.
    pub fn contains(&self, v: &String) -> (r: bool)
        ensures
            r == self@.contains(v@),
    {
        let mut i: usize = 0;
        while i < self.items.len()
            invariant
                i <= self.items@.len(),
                forall|k: int| 0 <= k < i ==> self.items@[k]@ != v@,
            decreases self.items@.len() - i,
        {
            if self.items[i] == *v {
                assert(self.items@[i as int]@ == v@);
                return true;
            }
            i = i + 1;
        }
        false
    }

    /// Adds `v`; returns whether it was not held before.
    pub fn insert(&mut self, v: String) -> (r: bool)
        requires
            old(self).wf(),
        ensures
            final(self).wf(),
            final(self)@ == old(self)@.insert(v@),
            r == !old(self)@.contains(v@),
    {
        if self.contains(&v) {
            return false;
        }
        let ghost before = self.items@;
        self.items.push(v);
        assert(self.items@ == before.push(v));
        assert(self@ =~= old(self)@.insert(v@)) by {
            assert forall|s: Seq<char>| self@.contains(s) implies old(self)@.insert(v@).contains(
                s,
            ) by {
                let i = choose|i: int| 0 <= i < self.items@.len() && self.items@[i]@ == s;
                if i < before.len() {
                    assert(before[i]@ == s);
                }
            }
            assert forall|s: Seq<char>| old(self)@.insert(v@).contains(s) implies self@.contains(
                s,
            ) by {
                if s == v@ {
                    assert(self.items@[before.len() as int]@ == s);
                } else {
                    let i = choose|i: int| 0 <= i < before.len() && before[i]@ == s;
                    assert(self.items@[i]@ == s);
                }
            }
        }
        true
    }

    /// Adds every string of `vs`.
    pub fn insert_all(&mut self, vs: Vec<String>)
        requires
            old(self).wf(),
        ensures
            final(self).wf(),
            final(self)@ == old(self)@.union(vs@.map_values(|s: String| s@).to_set()),
    {
        let mut i: usize = 0;
        while i < vs.len()
            invariant
                i <= vs@.len(),
                self.wf(),
                self@ == old(self)@.union(vs@.take(i as int).map_values(|s: String| s@).to_set()),
            decreases vs@.len() - i,
        {
            let v = vs[i].clone();
            self.insert(v);
            proof {
                let a = vs@.take(i as int).map_values(|s: String| s@);
                let b = vs@.take(i as int + 1).map_values(|s: String| s@);
                assert(b =~= a.push(vs@[i as int]@));
                assert(b.to_set() =~= a.to_set().insert(vs@[i as int]@)) by {
                    a.lemma_push_to_set_commute(vs@[i as int]@);
                }
            }
            i = i + 1;
            assert(self@ =~= old(self)@.union(
                vs@.take(i as int).map_values(|s: String| s@).to_set(),
            ));
        }
        assert(vs@.take(i as int) =~= vs@);
    }

    /// The strings held, in order of insertion.
    pub fn to_vec(&self) -> (r: Vec<String>)
        ensures
            r@ == self.elements(),
            r@.map_values(|s: String| s@).to_set() == self@,
    {
        let r = crate::protocol::clone_strings(&self.items);
        assert(r@.map_values(|s: String| s@).to_set() =~= self@) by {
            let m = r@.map_values(|s: String| s@);
            assert forall|s: Seq<char>| m.to_set().contains(s) implies self@.contains(s) by {
                let i = choose|i: int| 0 <= i < m.len() && m[i] == s;
                assert(self.items@[i]@ == s);
            }
            assert forall|s: Seq<char>| self@.contains(s) implies m.to_set().contains(s) by {
                let i = choose|i: int| 0 <= i < self.items@.len() && self.items@[i]@ == s;
                assert(m[i] == s);
            }
        }
        r
    }
}

} // verus!
