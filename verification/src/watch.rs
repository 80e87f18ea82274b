//! The change detector at the heart of every watcher: it retains the last
//! snapshot delivered, compares each fresh snapshot with it, and decides
//! whether an update goes out and what it says.

use crate::diff::{
    lemma_diff_from_empty, snapshot_diff, InterfaceDiffView, Snapshot, UpdateDiff, UpdateDiffView,
};
use crate::error::Error;
use crate::interface::{Interface, InterfaceView};
use crate::list::List;
use std::collections::HashMap;
use vstd::prelude::*;

verus! {

/// Information delivered via callback when a network interface change is detected.
///
/// This contains up-to-date information about all interfaces, plus a diff which
/// details which interfaces and IP addresses have changed since the last callback.
#[derive(Debug, Clone, PartialEq, Eq)]
pub struct Update {
    pub interfaces: HashMap<u32, Interface>,
    pub diff: UpdateDiff,
}

/// What an [`Update`] stands for.
#[verifier::ext_equal]
pub struct UpdateView {
    pub interfaces: Snapshot,
    pub diff: UpdateDiffView,
}

impl View for Update {
    type V = UpdateView;

    open spec fn view(&self) -> UpdateView {
        UpdateView {
            interfaces: self.interfaces@.map_values(|i: Interface| i@),
            diff: self.diff@,
        }
    }
}

impl Update {
    /// The snapshot is well formed, and so is the diff.
    pub open spec fn wf(&self) -> bool {
        &&& forall|k: u32| #[trigger]
            self.interfaces@.contains_key(k) ==> self.interfaces@[k].index == k
                && self.interfaces@[k].wf()
        &&& self.diff.wf()
    }
}

/// The update that reports snapshot `curr` after snapshot `prev`.
pub open spec fn update_for(curr: Snapshot, prev: Snapshot) -> UpdateView {
    UpdateView { interfaces: curr, diff: snapshot_diff(curr, prev) }
}

/// What a watcher keeps between two events: the last snapshot it delivered.
pub struct WatchState {
    /// The last result that we captured, for diffing.
    pub prev_list: List,
}

impl View for WatchState {
    type V = Snapshot;

    open spec fn view(&self) -> Snapshot {
        self.prev_list@
    }
}

impl WatchState {
    /// The retained snapshot is well formed.
    pub open spec fn wf(&self) -> bool {
        self.prev_list.wf()
    }

    /// The state of a watcher that has delivered nothing yet.
    pub fn new() -> (state: WatchState)
        ensures
            state.wf(),
            state@ == Map::<u32, InterfaceView>::empty(),
    {
        WatchState { prev_list: List::new() }
    }

    /// Begins a watch with the snapshot `initial`: the first update always
    /// goes out, and it reports every interface as added.
    pub fn start(initial: List) -> (begun: (WatchState, Update))
        ensures
            begun.0@ == initial@,
            begun.1@ == update_for(initial@, Map::empty()),
            begun.1@.diff.added == initial@.dom(),
            begun.1@.diff.removed == Set::<u32>::empty(),
            begun.1@.diff.modified == Map::<u32, InterfaceDiffView>::empty(),
            begun.1.diff.wf(),
            initial.wf() ==> begun.0.wf() && begun.1.wf(),
    {
        let update = Update {
            interfaces: initial.0.clone(),
            diff: initial.diff_from(&List::new()),
        };
        proof {
            lemma_diff_from_empty(initial@);
        }
        (WatchState { prev_list: initial }, update)
    }
}

/// What one snapshot does to a watcher that last delivered `prev`: a
/// snapshot equal to `prev` changes nothing and sends nothing; any other
/// becomes the retained snapshot and goes out with its diff against `prev`.
pub open spec fn step(prev: Snapshot, snapshot: Snapshot) -> (Snapshot, Option<UpdateView>) {
    if snapshot == prev {
        (prev, None)
    } else {
        (snapshot, Some(update_for(snapshot, prev)))
    }
}

/// Takes in a fresh snapshot. If it equals the one last delivered, nothing
/// happens; otherwise it replaces the retained snapshot and the update to
/// deliver is returned.
pub fn handle_notif(state: &mut WatchState, new_list: List) -> (update: Option<Update>)
    ensures
        final(state)@ == step(old(state)@, new_list@).0,
        match update {
            Some(u) => step(old(state)@, new_list@).1 == Some(u@) && u.diff.wf(),
            None => step(old(state)@, new_list@).1 is None,
        },
        old(state).wf() && new_list.wf() ==> final(state).wf(),
        update matches Some(u) ==> (new_list.wf() ==> u.wf()),
{
    if new_list == state.prev_list {
        return None;
    }
    let update = Update {
        interfaces: new_list.0.clone(),
        diff: new_list.diff_from(&state.prev_list),
    };
    state.prev_list = new_list;
    Some(update)
}

/// Reacts to one change notification, given the attempt to take a fresh
/// snapshot: a failed attempt is swallowed and leaves the retained snapshot
/// as it was; a successful one is taken in by [`handle_notif`].
pub fn notif(state: &mut WatchState, snapshot: Result<List, Error>) -> (update: Option<Update>)
    ensures
        snapshot is Err ==> update is None && final(state)@ == old(state)@,
        snapshot matches Ok(new_list) ==> {
            &&& final(state)@ == step(old(state)@, new_list@).0
            &&& match update {
                Some(u) => step(old(state)@, new_list@).1 == Some(u@) && u.diff.wf(),
                None => step(old(state)@, new_list@).1 is None,
            }
        },
{
    match snapshot {
        Ok(new_list) => handle_notif(state, new_list),
        Err(_) => None,
    }
}

/// What a run of notifications does to a watcher that last delivered
/// `prev`: the snapshot it retains in the end, and the updates it sends, in
/// their order. Each notification is given by the attempt to take a
/// snapshot after it, `None` standing for an attempt that failed.
pub open spec fn run(prev: Snapshot, attempts: Seq<Option<Snapshot>>) -> (Snapshot, Seq<UpdateView>)
    decreases attempts.len(),
{
    if attempts.len() == 0 {
        (prev, Seq::empty())
    } else {
        let (retained, sent) = run(prev, attempts.drop_last());
        match attempts.last() {
            Some(snapshot) => match step(retained, snapshot).1 {
                Some(update) => (snapshot, sent.push(update)),
                None => (retained, sent),
            },
            None => (retained, sent),
        }
    }
}

/// Notifications that find the snapshot unchanged, or find none at all, are
/// fully suppressed: however many arrive, no update is sent and the
/// retained snapshot stays.
pub proof fn lemma_unchanged_snapshots_send_nothing(prev: Snapshot, attempts: Seq<Option<Snapshot>>)
    requires
        forall|i: int|
            0 <= i < attempts.len() ==> (#[trigger] attempts[i]) is None || attempts[i] == Some(prev),
    ensures
        run(prev, attempts) == (prev, Seq::<UpdateView>::empty()),
    decreases attempts.len(),
{
    if attempts.len() > 0 {
        lemma_unchanged_snapshots_send_nothing(prev, attempts.drop_last());
        assert(attempts.last() == attempts[attempts.len() - 1]);
    }
}

/// The snapshot that the update before the `n`-th was about: for the first
/// update, the snapshot the watcher began with.
pub open spec fn predecessor(prev: Snapshot, sent: Seq<UpdateView>, n: int) -> Snapshot {
    if n == 0 {
        prev
    } else {
        sent[n - 1].interfaces
    }
}

/// Whether each update of `sent` carries a snapshot that differs from the
/// one delivered before it, together with the diff between the two.
pub open spec fn chained(prev: Snapshot, sent: Seq<UpdateView>) -> bool {
    forall|n: int|
        0 <= n < sent.len() ==> (#[trigger] sent[n]).interfaces != predecessor(prev, sent, n)
            && sent[n] == update_for(sent[n].interfaces, predecessor(prev, sent, n))
}

/// The updates of a run form a chain: each reports the change from the
/// snapshot delivered before it, never an unchanged one, and the watcher
/// retains the snapshot of the last update sent.
pub proof fn lemma_updates_chain(prev: Snapshot, attempts: Seq<Option<Snapshot>>)
    ensures
        chained(prev, run(prev, attempts).1),
        run(prev, attempts).0 == predecessor(
            prev,
            run(prev, attempts).1,
            run(prev, attempts).1.len() as int,
        ),
        run(prev, attempts).1.len() <= attempts.len(),
    decreases attempts.len(),
{
    if attempts.len() > 0 {
        lemma_updates_chain(prev, attempts.drop_last());
    }
}

} // verus!
