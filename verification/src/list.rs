//! The canonical point-in-time state: every interface under its index.

use crate::diff::{
    interface_diff, is_modified, snapshot_diff, InterfaceDiff, Snapshot, UpdateDiff,
};
use crate::interface::{Interface, InterfaceView};
use std::collections::HashMap;
use vstd::prelude::*;
use vstd::set_lib::lemma_subset_equality;
use vstd::std_specs::cmp::PartialEqSpecImpl;
use vstd::std_specs::hash::*;
use vstd::std_specs::iter::IteratorSpec;

verus! {

/// The keys of `map`, each exactly once, in the order in which the map
/// hands them out.
pub fn map_keys<V>(map: &HashMap<u32, V>) -> (keys: Vec<u32>)
    ensures
        keys@.no_duplicates(),
        keys@.to_set() == map@.dom(),
{
    broadcast use group_hash_axioms;

    let mut keys: Vec<u32> = Vec::new();
    let ghost all = spec_keys_iter(map).remaining();
    for k in it: map.keys()
        invariant
            it.seq() == all,
            keys@.len() == it.index(),
            forall|i: int| 0 <= i < keys@.len() ==> keys@[i] == *all[i],
    {
        keys.push(*k);
    }
    assert(keys@ =~= all.unref());
    keys
}

/// The keys of `of` that `other` lacks, each exactly once.
pub fn keys_outside<V, W>(of: &HashMap<u32, V>, other: &HashMap<u32, W>) -> (outside: Vec<u32>)
    ensures
        outside@.no_duplicates(),
        outside@.to_set() == of@.dom().difference(other@.dom()),
{
    broadcast use group_hash_axioms;

    let keys = map_keys(of);
    let mut outside: Vec<u32> = Vec::new();
    let ghost mut origin: Seq<int> = Seq::empty();
    let mut i: usize = 0;
    while i < keys.len()
        invariant
            i <= keys.len(),
            keys@.no_duplicates(),
            outside@.no_duplicates(),
            origin.len() == outside@.len(),
            forall|j: int|
                0 <= j < outside@.len() ==> 0 <= #[trigger] origin[j] < i && keys@[origin[j]]
                    == outside@[j],
            forall|j: int| 0 <= j < outside@.len() ==> !other@.contains_key(#[trigger] outside@[j]),
            forall|j: int|
                0 <= j < i && !other@.contains_key(keys@[j]) ==> outside@.contains(
                    #[trigger] keys@[j],
                ),
        decreases keys.len() - i,
    {
        let k = keys[i];
        if !other.contains_key(&k) {
            let ghost before = outside@;
            assert forall|j: int| 0 <= j < before.len() implies before[j] != k by {
                assert(keys@[origin[j]] == before[j] && origin[j] < i);
            }
            outside.push(k);
            proof {
                origin = origin.push(i as int);
                assert forall|j: int|
                    0 <= j <= i && !other@.contains_key(keys@[j]) implies outside@.contains(
                    #[trigger] keys@[j],
                ) by {
                    if j < i {
                        let n = choose|n: int| 0 <= n < before.len() && before[n] == keys@[j];
                        assert(outside@[n] == keys@[j]);
                    } else {
                        assert(outside@[before.len() as int] == keys@[j]);
                    }
                }
            }
        }
        i += 1;
    }
    assert(outside@.to_set() =~= of@.dom().difference(other@.dom())) by {
        assert forall|k: u32| outside@.to_set().contains(k) implies of@.dom().contains(k) by {
            let j = choose|j: int| 0 <= j < outside@.len() && outside@[j] == k;
            assert(keys@.to_set().contains(keys@[origin[j]]));
        }
        assert forall|k: u32|
            of@.dom().difference(other@.dom()).contains(k) implies outside@.to_set().contains(
            k,
        ) by {
            assert(keys@.to_set().contains(k));
            let j = choose|j: int| 0 <= j < keys@.len() && keys@[j] == k;
            assert(outside@.contains(keys@[j]));
        }
    }
    outside
}

/// A snapshot of all interfaces, each under its index.
#[derive(Debug, Clone)]
pub struct List(pub HashMap<u32, Interface>);

impl View for List {
    type V = Snapshot;

    open spec fn view(&self) -> Snapshot {
        self.0@.map_values(|i: Interface| i@)
    }
}

impl List {
    /// Every interface stands under its own index and lists no address twice.
    pub open spec fn wf(&self) -> bool {
        forall|k: u32| #[trigger]
            self.0@.contains_key(k) ==> self.0@[k].index == k && self.0@[k].wf()
    }

    /// The snapshot without interfaces.
    pub fn new() -> (list: List)
        ensures
            list.wf(),
            list@ == Map::<u32, InterfaceView>::empty(),
    {
        let list = List(HashMap::new());
        assert(list@ =~= Map::empty());
        list
    }

    /// What changed on the way from `prev` to this snapshot.
    pub fn diff_from(&self, prev: &List) -> (diff: UpdateDiff)
        ensures
            diff.wf(),
            diff@ == snapshot_diff(self@, prev@),
    {
        broadcast use group_hash_axioms;

        let added = keys_outside(&self.0, &prev.0);
        let removed = keys_outside(&prev.0, &self.0);
        let mut modified: HashMap<u32, InterfaceDiff> = HashMap::new();
        let keys = map_keys(&self.0);
        let mut i: usize = 0;
        while i < keys.len()
            invariant
                i <= keys.len(),
                keys@.to_set() == self.0@.dom(),
                forall|k: u32| #[trigger]
                    modified@.contains_key(k) ==> is_modified(self@, prev@, k) && modified@[k].wf()
                        && modified@[k]@ == interface_diff(self@[k], prev@[k]),
                forall|j: int|
                    0 <= j < i && is_modified(self@, prev@, keys@[j]) ==> modified@.contains_key(
                        #[trigger] keys@[j],
                    ),
            decreases keys.len() - i,
        {
            let k = keys[i];
            assert(keys@.to_set().contains(keys@[i as int]));
            let curr_if = self.0.get(&k).unwrap();
            match prev.0.get(&k) {
                Some(prev_if) => {
                    if !(curr_if == prev_if) {
                        modified.insert(k, InterfaceDiff::between(curr_if, prev_if));
                    }
                },
                None => {},
            }
            i += 1;
        }
        let diff = UpdateDiff { added, removed, modified };
        assert(diff@ =~~= snapshot_diff(self@, prev@)) by {
            assert forall|k: u32| is_modified(self@, prev@, k) implies diff.modified@.contains_key(
                k,
            ) by {
                assert(keys@.to_set().contains(k));
                let j = choose|j: int| 0 <= j < keys@.len() && keys@[j] == k;
                assert(diff.modified@.contains_key(keys@[j]));
            }
        }
        diff
    }
}

impl Default for List {
    fn default() -> (list: List)
        ensures
            list.wf(),
            list@ == Map::<u32, InterfaceView>::empty(),
    {
        List::new()
    }
}

impl PartialEq for List {
    /// The two snapshots hold the same indices, and under each index equal
    /// interfaces.
    fn eq(&self, other: &List) -> (same: bool) {
        broadcast use group_hash_axioms;

        if self.0.len() != other.0.len() {
            assert(self@.dom() =~= self.0@.dom());
            assert(other@.dom() =~= other.0@.dom());
            return false;
        }
        let keys = map_keys(&self.0);
        let mut i: usize = 0;
        while i < keys.len()
            invariant
                i <= keys.len(),
                keys@.to_set() == self.0@.dom(),
                forall|j: int|
                    0 <= j < i ==> other@.contains_key(#[trigger] keys@[j]) && other@[keys@[j]]
                        == self@[keys@[j]],
            decreases keys.len() - i,
        {
            let k = keys[i];
            assert(keys@.to_set().contains(keys@[i as int]));
            let mine = self.0.get(&k).unwrap();
            match other.0.get(&k) {
                Some(theirs) => {
                    if !(mine == theirs) {
                        assert(self@[k] != other@[k]);
                        return false;
                    }
                },
                None => {
                    assert(self@.contains_key(k) && !other@.contains_key(k));
                    return false;
                },
            }
            i += 1;
        }
        proof {
            assert forall|k: u32| self.0@.dom().contains(k) implies other.0@.dom().contains(k) by {
                assert(keys@.to_set().contains(k));
                let j = choose|j: int| 0 <= j < keys@.len() && keys@[j] == k;
                assert(other@.contains_key(keys@[j]));
            }
            lemma_subset_equality(self.0@.dom(), other.0@.dom());
            assert forall|k: u32| self@.contains_key(k) implies self@[k] == other@[k] by {
                assert(keys@.to_set().contains(k));
                let j = choose|j: int| 0 <= j < keys@.len() && keys@[j] == k;
                assert(other@[keys@[j]] == self@[keys@[j]]);
            }
            assert(self@ =~= other@);
        }
        true
    }
}

impl PartialEqSpecImpl for List {
    open spec fn obeys_eq_spec() -> bool {
        true
    }

    open spec fn eq_spec(&self, other: &List) -> bool {
        self@ == other@
    }
}

impl Eq for List {

}

} // verus!
