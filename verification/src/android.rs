//! The process-wide registry behind the Android watchers: every watcher
//! shares one helper on the Java side, which is started for the first
//! watcher and stopped after the last.

use crate::diff::Snapshot;
use crate::error::Error;
use crate::interface::InterfaceView;
use crate::list::List;
use crate::watch::{step, update_for, Update};
use vstd::prelude::*;

verus! {

pub type WatcherId = usize;

/// What all watchers of the process share.
///
/// No watcher is registered twice, and every identifier in use lies below
/// the next one to hand out.
pub struct State {
    /// The registered watchers, oldest first.
    watchers: Vec<WatcherId>,
    /// The snapshot that the watchers were last told of.
    current_interfaces: List,
    /// The identifier that the next watcher gets.
    next_watcher_id: WatcherId,
    /// Whether the helper on the Java side is running.
    java_support: bool,
}

/// What registering a watcher leads to.
pub struct Registration {
    /// The identifier of the new watcher, to keep in its handle.
    pub id: WatcherId,
    /// The update that the new watcher's callback gets at once.
    pub initial_update: Update,
    /// Whether the helper has to be started: this is the only watcher.
    pub start_helper: bool,
}

/// An update and the watchers whose callbacks get it.
pub struct Dispatch {
    pub update: Update,
    pub recipients: Vec<WatcherId>,
}

impl State {
    #[verifier::type_invariant]
    spec fn inv(&self) -> bool {
        &&& self.watchers@.no_duplicates()
        &&& forall|i: int|
            0 <= i < self.watchers@.len() ==> #[trigger] self.watchers@[i] < self.next_watcher_id
        &&& self.next_watcher_id >= 1
    }

    /// The registered watchers, oldest first.
    pub closed spec fn registered(&self) -> Seq<WatcherId> {
        self.watchers@
    }

    /// The identifier that the next watcher gets.
    pub closed spec fn next_id(&self) -> WatcherId {
        self.next_watcher_id
    }

    /// Whether the helper on the Java side is running.
    pub closed spec fn helper_running(&self) -> bool {
        self.java_support
    }

    /// The snapshot that the watchers were last told of.
    pub closed spec fn current(&self) -> Snapshot {
        self.current_interfaces@
    }

    /// The registry before any watcher: identifiers start at 1.
    pub fn new() -> (state: State)
        ensures
            state.registered() == Seq::<WatcherId>::empty(),
            state.next_id() == 1,
            !state.helper_running(),
            state.current() == Map::<u32, InterfaceView>::empty(),
    {
        State {
            watchers: Vec::new(),
            current_interfaces: List::new(),
            next_watcher_id: 1,
            java_support: false,
        }
    }

    /// The registered watchers, oldest first. None is listed twice, and
    /// each has an identifier below the next one to hand out: identifiers
    /// are never used again.
    pub fn watchers(&self) -> (watchers: &Vec<WatcherId>)
        ensures
            watchers@ == self.registered(),
            watchers@.no_duplicates(),
            forall|i: int| 0 <= i < watchers@.len() ==> #[trigger] watchers@[i] < self.next_id(),
    {
        proof {
            use_type_invariant(self);
        }
        &self.watchers
    }

    /// The identifier that the next watcher gets.
    pub fn next_watcher_id(&self) -> (id: WatcherId)
        ensures
            id == self.next_id(),
    {
        self.next_watcher_id
    }

    /// Whether the helper on the Java side is running.
    pub fn java_support(&self) -> (running: bool)
        ensures
            running == self.helper_running(),
    {
        self.java_support
    }

    /// The snapshot that the watchers were last told of.
    pub fn current_interfaces(&self) -> (list: &List)
        ensures
            list@ == self.current(),
    {
        &self.current_interfaces
    }
}

/// Registers a watcher, given the snapshot just taken. The watcher gets the
/// next identifier and, at once, an update that reports every interface as
/// added; the snapshot becomes the one that later changes are held against.
pub fn watch_interfaces(state: &mut State, current_list: List) -> (registration: Registration)
    requires
        old(state).next_id() < usize::MAX,
    ensures
        registration.id == old(state).next_id(),
        final(state).next_id() == old(state).next_id() + 1,
        final(state).registered() == old(state).registered().push(registration.id),
        final(state).current() == current_list@,
        final(state).helper_running() == old(state).helper_running(),
        registration.initial_update@ == update_for(current_list@, Map::empty()),
        registration.initial_update.diff.wf(),
        registration.start_helper == (old(state).registered().len() == 0),
{
    proof {
        use_type_invariant(&*state);
    }
    let initial_update = Update {
        interfaces: current_list.0.clone(),
        diff: current_list.diff_from(&List::new()),
    };
    let id = state.next_watcher_id;
    state.next_watcher_id = id + 1;
    state.current_interfaces = current_list;
    let is_first_watcher = state.watchers.len() == 0;
    let mut watchers = state.watchers.clone();
    watchers.push(id);
    state.watchers = watchers;
    Registration { id, initial_update, start_helper: is_first_watcher }
}

/// Records that the helper on the Java side has been started.
pub fn start_java_watching(state: &mut State)
    ensures
        final(state).helper_running(),
        final(state).registered() == old(state).registered(),
        final(state).next_id() == old(state).next_id(),
        final(state).current() == old(state).current(),
{
    proof {
        use_type_invariant(&*state);
    }
    state.java_support = true;
}

/// The members of `watchers` other than `id`, in their order.
fn without(watchers: &Vec<WatcherId>, id: WatcherId) -> (kept: Vec<WatcherId>)
    requires
        watchers@.no_duplicates(),
    ensures
        kept@.no_duplicates(),
        !kept@.contains(id),
        kept@.to_set() == watchers@.to_set().remove(id),
        forall|j: int| 0 <= j < kept@.len() ==> watchers@.contains(#[trigger] kept@[j]),
{
    let mut kept: Vec<WatcherId> = Vec::new();
    let ghost mut origin: Seq<int> = Seq::empty();
    let mut i: usize = 0;
    while i < watchers.len()
        invariant
            i <= watchers.len(),
            watchers@.no_duplicates(),
            kept@.no_duplicates(),
            origin.len() == kept@.len(),
            forall|j: int|
                0 <= j < kept@.len() ==> 0 <= #[trigger] origin[j] < i && watchers@[origin[j]]
                    == kept@[j] && kept@[j] != id,
            forall|j: int|
                0 <= j < i && watchers@[j] != id ==> kept@.contains(#[trigger] watchers@[j]),
        decreases watchers.len() - i,
    {
        let w = watchers[i];
        if w != id {
            let ghost before = kept@;
            assert forall|j: int| 0 <= j < before.len() implies before[j] != w by {
                assert(watchers@[origin[j]] == before[j] && origin[j] < i);
            }
            kept.push(w);
            proof {
                origin = origin.push(i as int);
                assert forall|j: int| 0 <= j <= i && watchers@[j] != id implies kept@.contains(
                    #[trigger] watchers@[j],
                ) by {
                    if j < i {
                        let n = choose|n: int| 0 <= n < before.len() && before[n] == watchers@[j];
                        assert(kept@[n] == watchers@[j]);
                    } else {
                        assert(kept@[before.len() as int] == watchers@[j]);
                    }
                }
            }
        }
        i += 1;
    }
    proof {
        assert forall|j: int| 0 <= j < kept@.len() implies watchers@.contains(#[trigger] kept@[j])
            && kept@[j] != id by {
            assert(watchers@[origin[j]] == kept@[j]);
        }
        assert forall|w: WatcherId| kept@.to_set().contains(w) implies watchers@.to_set().remove(
            id,
        ).contains(w) by {
            let j = choose|j: int| 0 <= j < kept@.len() && kept@[j] == w;
            assert(watchers@.contains(kept@[j]));
        }
        assert forall|w: WatcherId| watchers@.to_set().remove(id).contains(w) implies kept@.to_set().contains(
            w,
        ) by {
            let j = choose|j: int| 0 <= j < watchers@.len() && watchers@[j] == w;
            assert(kept@.contains(watchers@[j]));
        }
        assert(kept@.to_set() =~= watchers@.to_set().remove(id));
    }
    kept
}

/// Takes the watcher `id` off the registry, as dropping its handle does.
/// Returns whether the helper has to be stopped: it runs, and no watcher is
/// left.
pub fn drop_watcher(state: &mut State, id: WatcherId) -> (stop_helper: bool)
    ensures
        !final(state).registered().contains(id),
        final(state).registered().to_set() == old(state).registered().to_set().remove(id),
        final(state).next_id() == old(state).next_id(),
        final(state).current() == old(state).current(),
        stop_helper == (old(state).helper_running() && final(state).registered().len() == 0),
        final(state).helper_running() == (old(state).helper_running()
            && final(state).registered().len() > 0),
{
    proof {
        use_type_invariant(&*state);
    }
    let kept = without(&state.watchers, id);
    assert forall|j: int| 0 <= j < kept@.len() implies #[trigger] kept@[j] < state.next_watcher_id by {
        let n = choose|n: int| 0 <= n < state.watchers@.len() && state.watchers@[n] == kept@[j];
        assert(state.watchers@[n] < state.next_watcher_id);
    }
    state.watchers = kept;
    if state.watchers.len() == 0 {
        let stop_helper = state.java_support;
        state.java_support = false;
        stop_helper
    } else {
        false
    }
}

/// Reacts to the helper's report that something changed, given the attempt
/// to take a fresh snapshot. A failed attempt, or a snapshot equal to the
/// current one, changes nothing and reaches nobody. Any other snapshot
/// becomes the current one, and one update goes to every registered watcher.
pub fn interfaces_did_change(state: &mut State, snapshot: Result<List, Error>) -> (dispatch: Option<
    Dispatch,
>)
    ensures
        final(state).registered() == old(state).registered(),
        final(state).next_id() == old(state).next_id(),
        final(state).helper_running() == old(state).helper_running(),
        snapshot is Err ==> dispatch is None && final(state).current() == old(state).current(),
        snapshot matches Ok(new_list) ==> {
            &&& final(state).current() == step(old(state).current(), new_list@).0
            &&& match dispatch {
                Some(d) => step(old(state).current(), new_list@).1 == Some(d.update@)
                    && d.update.diff.wf() && d.recipients@ == old(state).registered(),
                None => step(old(state).current(), new_list@).1 is None,
            }
        },
{
    proof {
        use_type_invariant(&*state);
    }
    let new_list = match snapshot {
        Ok(new_list) => new_list,
        Err(_) => {
            return None;
        },
    };
    if new_list == state.current_interfaces {
        return None;
    }
    let diff = new_list.diff_from(&state.current_interfaces);
    let update = Update { interfaces: new_list.0.clone(), diff };
    state.current_interfaces = new_list;
    Some(Dispatch { update, recipients: state.watchers.clone() })
}

/// Where the Android context for a call into the Java side comes from.
#[derive(Debug, Clone, Copy, PartialEq, Eq, Structural)]
pub enum ContextSource {
    /// The context that the host handed over.
    Stored,
    /// The context that the process was started with.
    Ambient,
}

/// Chooses the Android context to work with. A context that the host has
/// handed over comes first. Without one, the ambient context serves, unless
/// its virtual machine or its context object is missing: then there is no
/// Android context.
pub fn select_context(stored: bool, ambient_vm_null: bool, ambient_context_null: bool) -> (choice:
    Result<ContextSource, Error>)
    ensures
        stored ==> choice == Ok::<ContextSource, Error>(ContextSource::Stored),
        !stored && (ambient_vm_null || ambient_context_null) ==> choice == Err::<
            ContextSource,
            Error,
        >(Error::NoAndroidContext),
        !stored && !ambient_vm_null && !ambient_context_null ==> choice == Ok::<
            ContextSource,
            Error,
        >(ContextSource::Ambient),
{
    if stored {
        Ok(ContextSource::Stored)
    } else if ambient_vm_null || ambient_context_null {
        Err(Error::NoAndroidContext)
    } else {
        Ok(ContextSource::Ambient)
    }
}

/// What can happen to the registry.
pub enum RegistryEvent {
    /// A watcher registers.
    Watch,
    /// The handle of this watcher is dropped.
    Drop(WatcherId),
    /// The helper reports a change.
    Change,
}

/// The registered watchers and the next identifier after `events`, begun
/// with the watchers `ids` and the next identifier `next`.
pub open spec fn registered_after(ids: Set<WatcherId>, next: int, events: Seq<RegistryEvent>) -> (
    Set<WatcherId>,
    int,
)
    decreases events.len(),
{
    if events.len() == 0 {
        (ids, next)
    } else {
        let (before, id) = registered_after(ids, next, events.drop_last());
        match events.last() {
            RegistryEvent::Watch => (before.insert(id as WatcherId), id + 1),
            RegistryEvent::Drop(dropped) => (before.remove(dropped), id),
            RegistryEvent::Change => (before, id),
        }
    }
}

/// A watcher whose handle was dropped never gets an update again: whatever
/// happens afterwards, while identifiers last, it is not among the
/// registered watchers, to whom alone updates go.
pub proof fn lemma_dropped_watcher_stays_out(
    ids: Set<WatcherId>,
    next: int,
    events: Seq<RegistryEvent>,
    dropped: WatcherId,
)
    requires
        dropped < next,
        !ids.contains(dropped),
        next + events.len() <= usize::MAX,
    ensures
        !registered_after(ids, next, events).0.contains(dropped),
        next <= registered_after(ids, next, events).1 <= next + events.len(),
    decreases events.len(),
{
    if events.len() > 0 {
        lemma_dropped_watcher_stays_out(ids, next, events.drop_last(), dropped);
    }
}

} // verus!
