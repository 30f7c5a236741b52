//! The topology graph: for each node, the ordered list of its neighbours.

use vstd::prelude::*;

verus! {

/// A mapping from node name to neighbour list, held as a list of entries
/// in which no name occurs twice.
#[derive(Debug)]
pub struct TopologyGraph {
    entries: Vec<(String, Vec<String>)>,
}

/// Whether entry `i` of `entries` is for `node`.
pub open spec fn entry_is_for(entries: Seq<(String, Vec<String>)>, i: int, node: Seq<char>) -> bool {
    0 <= i < entries.len() && entries[i].0@ == node
}

impl View for TopologyGraph {
    type V = Map<Seq<char>, Seq<Seq<char>>>;

    closed spec fn view(&self) -> Map<Seq<char>, Seq<Seq<char>>> {
        let entries = self.entries@;
        Map::new(
            |node: Seq<char>| exists|i: int| entry_is_for(entries, i, node),
            |node: Seq<char>| entries[choose|i: int| entry_is_for(entries, i, node)].1.deep_view(),
        )
    }
}

impl TopologyGraph {
    #[verifier::type_invariant]
    spec fn names_distinct(self) -> bool {
        forall|i: int, j: int|
            0 <= i < j < self.entries@.len() ==> self.entries@[i].0@ != self.entries@[j].0@
    }

    /// The graph in which no node has an entry.
    pub fn new() -> (graph: Self)
        ensures
            graph@ == Map::<Seq<char>, Seq<Seq<char>>>::empty(),
    {
        let graph = TopologyGraph { entries: Vec::new() };
        graph
    }

    /// The graph's entries, each a node's name with its neighbour list, in
    /// no particular order. Each node that the graph lists has one entry,
    /// and no entry is for a node that it does not list.
    pub fn entries(&self) -> (entries: &Vec<(String, Vec<String>)>)
        ensures
            forall|i: int|
                0 <= i < entries@.len() ==> self@.contains_key(#[trigger] entries@[i].0@)
                    && self@[entries@[i].0@] == entries@[i].1.deep_view(),
            forall|i: int, j: int| 0 <= i < j < entries@.len() ==> entries@[i].0@ != entries@[j].0@,
            forall|node: Seq<char>|
                self@.contains_key(node) ==> exists|i: int| #[trigger] entry_is_for(entries@, i, node),
    {
        proof {
            use_type_invariant(self);
            let all = self.entries@;
            assert forall|i: int| 0 <= i < all.len() implies self@.contains_key(#[trigger] all[i].0@)
                && self@[all[i].0@] == all[i].1.deep_view() by {
                assert(entry_is_for(all, i, all[i].0@));
            }
        }
        &self.entries
    }

    /// Where `node`'s entry stands, if it has one.
    fn position(&self, node: &String) -> (at: Option<usize>)
        ensures
            match at {
                Some(i) => entry_is_for(self.entries@, i as int, node@),
                None => forall|i: int| !entry_is_for(self.entries@, i, node@),
            },
    {
        let mut i: usize = 0;
        while i < self.entries.len()
            invariant
                i <= self.entries.len(),
                forall|k: int| 0 <= k < i ==> !entry_is_for(self.entries@, k, node@),
            decreases self.entries.len() - i,
        {
            if self.entries[i].0 == *node {
                return Some(i);
            }
            i += 1;
        }
        None
    }

    /// The neighbour list of `node`, if the graph has one for it.
    pub fn get(&self, node: &String) -> (found: Option<&Vec<String>>)
        ensures
            match found {
                Some(list) => self@.contains_key(node@) && list.deep_view() == self@[node@],
                None => !self@.contains_key(node@),
            },
    {
        proof {
            use_type_invariant(self);
        }
        match self.position(node) {
            Some(i) => Some(&self.entries[i].1),
            None => None,
        }
    }

    /// Gives `node` the neighbour list `neighbours`, in place of the one it
    /// had, if any.
    pub fn insert(&mut self, node: String, neighbours: Vec<String>)
        ensures
            final(self)@ == old(self)@.insert(node@, neighbours.deep_view()),
    {
        proof {
            use_type_invariant(&*self);
        }
        let at = self.position(&node);
        let ghost before = self.entries@;
        let ghost key = node@;
        let ghost value = neighbours.deep_view();
        let mut entries: Vec<(String, Vec<String>)> = Vec::new();
        std::mem::swap(&mut entries, &mut self.entries);
        match at {
            Some(i) => {
                entries.set(i, (node, neighbours));
            },
            None => {
                entries.push((node, neighbours));
            },
        }
        let ghost after = entries@;
        assert forall|k: int, j: int| 0 <= k < j < after.len() implies after[k].0@ != after[j].0@ by {
            if j == before.len() {
                assert(!entry_is_for(before, k, key));
            }
        }
        self.entries = entries;
        proof {
            let grown = old(self)@.insert(key, value);
            assert forall|n: Seq<char>| self@.contains_key(n) == grown.contains_key(n) by {
                if exists|i: int| entry_is_for(after, i, n) {
                    let i = choose|i: int| entry_is_for(after, i, n);
                    if n != key {
                        assert(entry_is_for(before, i, n));
                    }
                }
                if exists|i: int| entry_is_for(before, i, n) {
                    let i = choose|i: int| entry_is_for(before, i, n);
                    assert(entry_is_for(after, i, n));
                }
                if n == key {
                    match at {
                        Some(i) => assert(entry_is_for(after, i as int, n)),
                        None => assert(entry_is_for(after, before.len() as int, n)),
                    }
                }
            }
            assert forall|n: Seq<char>| self@.contains_key(n) implies self@[n] == grown[n] by {
                let i = choose|i: int| entry_is_for(after, i, n);
                if n != key {
                    assert(entry_is_for(before, i, n));
                } else {
                    match at {
                        Some(a) => assert(entry_is_for(after, a as int, n)),
                        None => assert(entry_is_for(after, before.len() as int, n)),
                    }
                }
            }
        }
    }
}

impl Clone for TopologyGraph {
    fn clone(&self) -> (copy: Self)
        ensures
            copy@ == self@,
    {
        proof {
            use_type_invariant(self);
        }
        let mut entries: Vec<(String, Vec<String>)> = Vec::new();
        let mut i: usize = 0;
        while i < self.entries.len()
            invariant
                i <= self.entries.len(),
                entries@.len() == i,
                forall|k: int|
                    0 <= k < i ==> entries@[k].0@ == self.entries@[k].0@
                        && entries@[k].1.deep_view() == self.entries@[k].1.deep_view(),
            decreases self.entries.len() - i,
        {
            entries.push((self.entries[i].0.clone(), self.entries[i].1.clone()));
            i += 1;
        }
        let copy = TopologyGraph { entries };
        proof {
            let ours = self.entries@;
            let theirs = copy.entries@;
            assert forall|n: Seq<char>| copy@.contains_key(n) == self@.contains_key(n) by {
                if exists|i: int| entry_is_for(theirs, i, n) {
                    let i = choose|i: int| entry_is_for(theirs, i, n);
                    assert(entry_is_for(ours, i, n));
                }
                if exists|i: int| entry_is_for(ours, i, n) {
                    let i = choose|i: int| entry_is_for(ours, i, n);
                    assert(entry_is_for(theirs, i, n));
                }
            }
            assert forall|n: Seq<char>| copy@.contains_key(n) implies copy@[n] == self@[n] by {
                let i = choose|i: int| entry_is_for(theirs, i, n);
                assert(entry_is_for(ours, i, n));
            }
            assert(copy@ =~= self@);
        }
        copy
    }
}

} // verus!
