use netwatcher::android::{
    drop_watcher, interfaces_did_change, select_context, start_java_watching, watch_interfaces,
    ContextSource, State,
};
use netwatcher::error::Error;
use netwatcher::{Interface, IpAddr, IpRecord, List};
use std::collections::HashMap;

fn single(index: u32, ips: Vec<IpRecord>) -> List {
    let mut map = HashMap::new();
    map.insert(
        index,
        Interface { index, name: "wlan0".to_string(), hw_addr: "00:00:00:00:00:00".to_string(), ips },
    );
    List(map)
}

#[test]
fn the_registry_starts_empty_with_identifier_one() {
    let state = State::new();
    assert!(state.watchers().is_empty());
    assert_eq!(state.next_watcher_id(), 1);
    assert!(!state.java_support());
    assert!(*state.current_interfaces() == List::new());
}

#[test]
fn watchers_get_rising_identifiers_and_only_the_first_starts_the_helper() {
    let mut state = State::new();
    let first = watch_interfaces(&mut state, single(3, vec![]));
    assert_eq!(first.id, 1);
    assert!(first.start_helper);
    assert_eq!(first.initial_update.diff.added, vec![3]);
    assert!(first.initial_update.diff.removed.is_empty());
    assert!(first.initial_update.diff.modified.is_empty());
    assert_eq!(first.initial_update.interfaces.len(), 1);
    assert!(!state.java_support());
    start_java_watching(&mut state);
    assert!(state.java_support());

    let second = watch_interfaces(&mut state, single(3, vec![]));
    assert_eq!(second.id, 2);
    assert!(!second.start_helper);
    assert_eq!(second.initial_update.diff.added, vec![3]);
    assert_eq!(*state.watchers(), vec![1, 2]);
    assert_eq!(state.next_watcher_id(), 3);
    assert!(state.java_support());
}

#[test]
fn the_helper_stops_after_the_last_watcher() {
    let mut state = State::new();
    let a = watch_interfaces(&mut state, List::new()).id;
    start_java_watching(&mut state);
    let b = watch_interfaces(&mut state, List::new()).id;
    assert!(!drop_watcher(&mut state, a));
    assert_eq!(*state.watchers(), vec![b]);
    assert!(state.java_support());
    assert!(!drop_watcher(&mut state, a));
    assert!(drop_watcher(&mut state, b));
    assert!(state.watchers().is_empty());
    assert!(!state.java_support());
    assert!(!drop_watcher(&mut state, b));
    let c = watch_interfaces(&mut state, List::new());
    assert_eq!(c.id, 3);
    assert!(c.start_helper);
}

#[test]
fn a_watcher_whose_helper_never_started_leaves_without_a_stop() {
    let mut state = State::new();
    let a = watch_interfaces(&mut state, List::new()).id;
    assert!(!drop_watcher(&mut state, a));
    assert!(state.watchers().is_empty());
}

#[test]
fn every_registered_watcher_gets_the_same_update() {
    let mut state = State::new();
    let a = watch_interfaces(&mut state, single(3, vec![])).id;
    let b = watch_interfaces(&mut state, single(3, vec![])).id;
    let added = IpRecord { ip: IpAddr::v4(127, 0, 0, 10), prefix_len: 8 };
    let dispatch = interfaces_did_change(&mut state, Ok(single(3, vec![added]))).unwrap();
    assert_eq!(dispatch.recipients, vec![a, b]);
    assert_eq!(dispatch.update.diff.modified[&3].addrs_added, vec![added]);
    assert!(*state.current_interfaces() == single(3, vec![added]));
    assert!(interfaces_did_change(&mut state, Ok(single(3, vec![added]))).is_none());
    assert!(interfaces_did_change(&mut state, Err(Error::NoAndroidContext)).is_none());
    assert!(*state.current_interfaces() == single(3, vec![added]));
}

#[test]
fn a_dropped_watcher_gets_no_further_update() {
    let mut state = State::new();
    let a = watch_interfaces(&mut state, List::new()).id;
    let b = watch_interfaces(&mut state, List::new()).id;
    drop_watcher(&mut state, a);
    let dispatch = interfaces_did_change(&mut state, Ok(single(3, vec![]))).unwrap();
    assert_eq!(dispatch.recipients, vec![b]);
    let c = watch_interfaces(&mut state, single(3, vec![])).id;
    assert_ne!(c, a);
    let dispatch = interfaces_did_change(&mut state, Ok(List::new())).unwrap();
    assert_eq!(dispatch.recipients, vec![b, c]);
    assert_eq!(dispatch.update.diff.removed, vec![3]);
}

#[test]
fn a_stored_context_comes_before_the_ambient_one() {
    for vm_null in [false, true] {
        for context_null in [false, true] {
            assert!(matches!(select_context(true, vm_null, context_null), Ok(ContextSource::Stored)));
        }
    }
    assert!(matches!(select_context(false, false, false), Ok(ContextSource::Ambient)));
    assert!(matches!(select_context(false, true, false), Err(Error::NoAndroidContext)));
    assert!(matches!(select_context(false, false, true), Err(Error::NoAndroidContext)));
    assert!(matches!(select_context(false, true, true), Err(Error::NoAndroidContext)));
}
