//! What changed between two snapshots: the diff types, their mathematical
//! meaning, and the laws that every diff obeys.

use crate::addr::{records_missing_from, IpRecord};
use crate::interface::{Interface, InterfaceView};
use std::collections::HashMap;
use vstd::prelude::*;

verus! {

/// A snapshot as contracts see it: each interface under its index.
pub type Snapshot = Map<u32, InterfaceView>;

/// Whether every address in `snapshot` has a prefix length within what its
/// family allows: at most 32 for IPv4, at most 128 for IPv6.
pub open spec fn prefixes_in_range(snapshot: Snapshot) -> bool {
    forall|k: u32, r: IpRecord|
        snapshot.contains_key(k) && #[trigger] snapshot[k].ips.contains(r) ==> r.prefix_in_range()
}

/// What changed within a single interface between updates, if it was present in both.
#[derive(Debug, Clone, PartialEq, Eq)]
pub struct InterfaceDiff {
    pub hw_addr_changed: bool,
    pub addrs_added: Vec<IpRecord>,
    pub addrs_removed: Vec<IpRecord>,
}

/// What an [`InterfaceDiff`] stands for.
#[verifier::ext_equal]
pub struct InterfaceDiffView {
    pub hw_addr_changed: bool,
    pub addrs_added: Set<IpRecord>,
    pub addrs_removed: Set<IpRecord>,
}

impl View for InterfaceDiff {
    type V = InterfaceDiffView;

    open spec fn view(&self) -> InterfaceDiffView {
        InterfaceDiffView {
            hw_addr_changed: self.hw_addr_changed,
            addrs_added: self.addrs_added@.to_set(),
            addrs_removed: self.addrs_removed@.to_set(),
        }
    }
}

impl InterfaceDiff {
    /// Neither list names a record twice.
    pub open spec fn wf(&self) -> bool {
        &&& self.addrs_added@.no_duplicates()
        &&& self.addrs_removed@.no_duplicates()
    }

    /// The diff of `curr` against `prev`, two states of one interface.
    pub fn between(curr: &Interface, prev: &Interface) -> (diff: InterfaceDiff)
        ensures
            diff.wf(),
            diff@ == interface_diff(curr@, prev@),
    {
        InterfaceDiff {
            hw_addr_changed: prev.hw_addr != curr.hw_addr,
            addrs_added: records_missing_from(&curr.ips, &prev.ips),
            addrs_removed: records_missing_from(&prev.ips, &curr.ips),
        }
    }
}

impl Default for InterfaceDiff {
    fn default() -> (diff: InterfaceDiff)
        ensures
            diff.wf(),
            diff@ == no_interface_change(),
    {
        InterfaceDiff { hw_addr_changed: false, addrs_added: Vec::new(), addrs_removed: Vec::new() }
    }
}

/// What changed between one `Update` and the next.
#[derive(Debug, Clone, PartialEq, Eq)]
pub struct UpdateDiff {
    pub added: Vec<u32>,
    pub removed: Vec<u32>,
    pub modified: HashMap<u32, InterfaceDiff>,
}

/// What an [`UpdateDiff`] stands for.
#[verifier::ext_equal]
pub struct UpdateDiffView {
    pub added: Set<u32>,
    pub removed: Set<u32>,
    pub modified: Map<u32, InterfaceDiffView>,
}

impl View for UpdateDiff {
    type V = UpdateDiffView;

    open spec fn view(&self) -> UpdateDiffView {
        UpdateDiffView {
            added: self.added@.to_set(),
            removed: self.removed@.to_set(),
            modified: self.modified@.map_values(|d: InterfaceDiff| d@),
        }
    }
}

impl UpdateDiff {
    /// No index is listed twice, and every per-interface diff is well formed.
    pub open spec fn wf(&self) -> bool {
        &&& self.added@.no_duplicates()
        &&& self.removed@.no_duplicates()
        &&& forall|k: u32| #[trigger]
            self.modified@.contains_key(k) ==> self.modified@[k].wf()
    }
}

impl Default for UpdateDiff {
    fn default() -> (diff: UpdateDiff)
        ensures
            diff.wf(),
            diff@ == no_change(),
    {
        let diff = UpdateDiff { added: Vec::new(), removed: Vec::new(), modified: HashMap::new() };
        assert(diff@ =~~= no_change());
        diff
    }
}

/// The diff that reports nothing for one interface.
pub open spec fn no_interface_change() -> InterfaceDiffView {
    InterfaceDiffView {
        hw_addr_changed: false,
        addrs_added: Set::empty(),
        addrs_removed: Set::empty(),
    }
}

/// The diff that reports nothing.
pub open spec fn no_change() -> UpdateDiffView {
    UpdateDiffView { added: Set::empty(), removed: Set::empty(), modified: Map::empty() }
}

/// How `curr` differs from `prev`, two states of one interface: the
/// addresses gained, the addresses lost, and whether the hardware address
/// is another.
pub open spec fn interface_diff(curr: InterfaceView, prev: InterfaceView) -> InterfaceDiffView {
    InterfaceDiffView {
        hw_addr_changed: prev.hw_addr != curr.hw_addr,
        addrs_added: curr.ips.difference(prev.ips),
        addrs_removed: prev.ips.difference(curr.ips),
    }
}

/// Whether index `k` is present in both snapshots with differing interfaces.
pub open spec fn is_modified(curr: Snapshot, prev: Snapshot, k: u32) -> bool {
    curr.contains_key(k) && prev.contains_key(k) && curr[k] != prev[k]
}

/// How snapshot `curr` differs from snapshot `prev`: the indices that came,
/// the indices that went, and a diff for every index whose interface is
/// present in both and not the same.
pub open spec fn snapshot_diff(curr: Snapshot, prev: Snapshot) -> UpdateDiffView {
    UpdateDiffView {
        added: curr.dom().difference(prev.dom()),
        removed: prev.dom().difference(curr.dom()),
        modified: Map::new(
            |k: u32| is_modified(curr, prev, k),
            |k: u32| interface_diff(curr[k], prev[k]),
        ),
    }
}

/// In any diff the added indices, the removed indices and the modified
/// indices are pairwise disjoint.
pub proof fn lemma_diff_parts_disjoint(curr: Snapshot, prev: Snapshot)
    ensures
        snapshot_diff(curr, prev).added.disjoint(snapshot_diff(curr, prev).removed),
        snapshot_diff(curr, prev).added.disjoint(snapshot_diff(curr, prev).modified.dom()),
        snapshot_diff(curr, prev).removed.disjoint(snapshot_diff(curr, prev).modified.dom()),
{
}

/// The diff of a snapshot against itself reports nothing.
pub proof fn lemma_diff_of_self_is_empty(snapshot: Snapshot)
    ensures
        snapshot_diff(snapshot, snapshot) == no_change(),
{
    assert(snapshot_diff(snapshot, snapshot) =~~= no_change());
}

/// Applying a diff to the addresses it was computed from gives the
/// addresses it was computed against: for every index present in both
/// snapshots, the previous addresses, with the added ones joined and the
/// removed ones taken away, are the current addresses. An index that the
/// diff does not list as modified has the same addresses on both sides.
pub proof fn lemma_diff_round_trip(curr: Snapshot, prev: Snapshot, k: u32)
    requires
        curr.contains_key(k),
        prev.contains_key(k),
    ensures
        snapshot_diff(curr, prev).modified.contains_key(k) ==> prev[k].ips.union(
            snapshot_diff(curr, prev).modified[k].addrs_added,
        ).difference(snapshot_diff(curr, prev).modified[k].addrs_removed) == curr[k].ips,
        !snapshot_diff(curr, prev).modified.contains_key(k) ==> prev[k].ips == curr[k].ips,
{
    if snapshot_diff(curr, prev).modified.contains_key(k) {
        let d = snapshot_diff(curr, prev).modified[k];
        assert(prev[k].ips.union(d.addrs_added).difference(d.addrs_removed) =~= curr[k].ips);
    }
}

/// A modified entry always has something to show for it, unless the two
/// interfaces differ in nothing but index or name: its hardware address
/// changed, or an address was added, or an address was removed.
pub proof fn lemma_modified_entry_reports_change(curr: Snapshot, prev: Snapshot, k: u32)
    requires
        snapshot_diff(curr, prev).modified.contains_key(k),
        curr[k].index == prev[k].index,
        curr[k].name == prev[k].name,
    ensures
        ({
            let d = snapshot_diff(curr, prev).modified[k];
            d.hw_addr_changed || !d.addrs_added.is_empty() || !d.addrs_removed.is_empty()
        }),
{
    let d = snapshot_diff(curr, prev).modified[k];
    if !d.hw_addr_changed && d.addrs_added.is_empty() && d.addrs_removed.is_empty() {
        assert forall|r: IpRecord| curr[k].ips.contains(r) == prev[k].ips.contains(r) by {
            if curr[k].ips.contains(r) && !prev[k].ips.contains(r) {
                assert(d.addrs_added.contains(r));
            }
            if prev[k].ips.contains(r) && !curr[k].ips.contains(r) {
                assert(d.addrs_removed.contains(r));
            }
        }
        assert(curr[k].ips =~= prev[k].ips);
        assert(curr[k] =~= prev[k]);
    }
}

/// Diffing against the empty snapshot lists every index as added and
/// nothing as removed or modified.
pub proof fn lemma_diff_from_empty(snapshot: Snapshot)
    ensures
        snapshot_diff(snapshot, Map::empty()).added == snapshot.dom(),
        snapshot_diff(snapshot, Map::empty()).removed == Set::<u32>::empty(),
        snapshot_diff(snapshot, Map::empty()).modified == Map::<u32, InterfaceDiffView>::empty(),
{
    let d = snapshot_diff(snapshot, Map::empty());
    assert(d.added =~= snapshot.dom());
    assert(d.removed =~= Set::<u32>::empty());
    assert(d.modified =~= Map::<u32, InterfaceDiffView>::empty());
}

} // verus!
