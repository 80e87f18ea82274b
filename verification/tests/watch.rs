use netwatcher::error::Error;
use netwatcher::linux::{netlink_groups, socket_ready, worker_iteration};
use netwatcher::watch::{handle_notif, notif};
use netwatcher::{Interface, IpAddr, IpRecord, List, Update, UpdateDiff, WatchState};
use std::collections::HashMap;

fn rec4(a: u8, b: u8, c: u8, d: u8, prefix_len: u8) -> IpRecord {
    IpRecord { ip: IpAddr::v4(a, b, c, d), prefix_len }
}

fn loopback(ips: Vec<IpRecord>) -> Interface {
    Interface { index: 1, name: "lo".to_string(), hw_addr: "00:00:00:00:00:00".to_string(), ips }
}

fn ethernet() -> Interface {
    Interface {
        index: 2,
        name: "eth0".to_string(),
        hw_addr: "02:42:AC:11:00:02".to_string(),
        ips: vec![rec4(172, 17, 0, 2, 16)],
    }
}

fn list_of(interfaces: Vec<Interface>) -> List {
    let mut map = HashMap::new();
    for i in interfaces {
        map.insert(i.index, i);
    }
    List(map)
}

fn has_ip(update: &Update, record: &IpRecord) -> bool {
    update.interfaces.values().any(|interface| interface.ips.contains(record))
}

fn sorted(mut v: Vec<u32>) -> Vec<u32> {
    v.sort();
    v
}

#[test]
fn the_first_update_reports_every_interface_as_added() {
    let s0 = list_of(vec![loopback(vec![rec4(127, 0, 0, 1, 8)]), ethernet()]);
    let (state, update) = WatchState::start(list_of(vec![loopback(vec![rec4(127, 0, 0, 1, 8)]), ethernet()]));
    assert!(state.prev_list == s0);
    assert!(List(update.interfaces.clone()) == s0);
    assert_eq!(sorted(update.diff.added.clone()), vec![1, 2]);
    assert!(update.diff.removed.is_empty());
    assert!(update.diff.modified.is_empty());
}

#[test]
fn the_first_update_goes_out_even_without_interfaces() {
    let (state, update) = WatchState::start(List::new());
    assert!(state.prev_list == List::new());
    assert!(update.interfaces.is_empty());
    assert_eq!(update.diff, UpdateDiff::default());
}

#[test]
fn a_new_watcher_state_holds_nothing() {
    let state = WatchState::new();
    assert!(state.prev_list == List::new());
}

#[test]
fn an_unchanged_snapshot_sends_nothing() {
    let (mut state, _) = WatchState::start(list_of(vec![loopback(vec![rec4(127, 0, 0, 1, 8)])]));
    for _ in 0..25 {
        let again = list_of(vec![loopback(vec![rec4(127, 0, 0, 1, 8)])]);
        assert!(handle_notif(&mut state, again).is_none());
    }
    assert!(state.prev_list == list_of(vec![loopback(vec![rec4(127, 0, 0, 1, 8)])]));
}

#[test]
fn a_failed_snapshot_is_swallowed() {
    let (mut state, _) = WatchState::start(list_of(vec![ethernet()]));
    assert!(notif(&mut state, Err(Error::Getifaddrs("ENOMEM".to_string()))).is_none());
    assert!(state.prev_list == list_of(vec![ethernet()]));
    let update = notif(&mut state, Ok(list_of(vec![]))).unwrap();
    assert_eq!(update.diff.removed, vec![2]);
    assert!(state.prev_list == List::new());
}

#[test]
fn each_update_is_the_diff_against_the_one_before() {
    let mut state = WatchState::new();
    let first = handle_notif(&mut state, list_of(vec![ethernet()])).unwrap();
    assert_eq!(first.diff.added, vec![2]);
    let second = handle_notif(&mut state, list_of(vec![ethernet(), loopback(vec![])])).unwrap();
    assert_eq!(second.diff.added, vec![1]);
    assert!(second.diff.removed.is_empty() && second.diff.modified.is_empty());
    assert!(handle_notif(&mut state, list_of(vec![loopback(vec![]), ethernet()])).is_none());
    let third = handle_notif(&mut state, list_of(vec![loopback(vec![])])).unwrap();
    assert_eq!(third.diff.removed, vec![2]);
    assert!(third.diff.added.is_empty() && third.diff.modified.is_empty());
    assert_eq!(third.interfaces.len(), 1);
}

#[test]
fn api_test_test_watch_interfaces_loopback_changes() {
    let expected_original = rec4(127, 0, 0, 1, 8);
    let expected_added = rec4(127, 0, 0, 10, 8);
    let mut updates: Vec<Update> = Vec::new();

    let (mut state, initial) = WatchState::start(list_of(vec![loopback(vec![expected_original]), ethernet()]));
    updates.push(initial);
    assert_eq!(updates.len(), 1);
    assert!(has_ip(&updates[0], &expected_original));
    assert!(!has_ip(&updates[0], &expected_added));

    let with_alias = list_of(vec![loopback(vec![expected_original, expected_added]), ethernet()]);
    updates.extend(notif(&mut state, Ok(with_alias)));
    assert_eq!(updates.len(), 2);
    assert!(has_ip(&updates[1], &expected_original));
    assert!(has_ip(&updates[1], &expected_added));

    let without_alias = list_of(vec![loopback(vec![expected_original]), ethernet()]);
    updates.extend(notif(&mut state, Ok(without_alias)));
    assert_eq!(updates.len(), 3);
    assert!(has_ip(&updates[2], &expected_original));
    assert!(!has_ip(&updates[2], &expected_added));
}

#[test]
fn mod_test_watch_interfaces_loopback_changes() {
    let expected_original = rec4(127, 0, 0, 1, 8);
    let expected_added = rec4(127, 0, 0, 10, 8);
    let loopback_on_windows = |ips: Vec<IpRecord>| Interface {
        index: 1,
        name: "Loopback Pseudo-Interface 1".to_string(),
        hw_addr: "00:00:00:00:00:00".to_string(),
        ips,
    };
    let mut updates: Vec<Update> = Vec::new();

    let (mut state, initial) = WatchState::start(list_of(vec![loopback_on_windows(vec![expected_original])]));
    updates.push(initial);
    assert!(has_ip(&updates[0], &expected_original));
    assert!(!has_ip(&updates[0], &expected_added));

    updates.extend(handle_notif(
        &mut state,
        list_of(vec![loopback_on_windows(vec![expected_original, expected_added])]),
    ));
    assert_eq!(updates.len(), 2);
    assert!(has_ip(&updates[1], &expected_original));
    assert!(has_ip(&updates[1], &expected_added));

    updates.extend(handle_notif(&mut state, list_of(vec![loopback_on_windows(vec![expected_original])])));
    assert_eq!(updates.len(), 3);
    assert!(has_ip(&updates[2], &expected_original));
    assert!(!has_ip(&updates[2], &expected_added));
}

#[test]
fn adding_an_alias_is_reported_as_one_added_address() {
    let original = rec4(127, 0, 0, 1, 8);
    let alias = rec4(127, 0, 0, 10, 8);
    let (mut state, _) = WatchState::start(list_of(vec![loopback(vec![original]), ethernet()]));
    let update = notif(&mut state, Ok(list_of(vec![loopback(vec![original, alias]), ethernet()]))).unwrap();
    let lo = &update.interfaces[&1];
    assert!(lo.ips.contains(&original) && lo.ips.contains(&alias));
    assert!(update.diff.added.is_empty() && update.diff.removed.is_empty());
    assert_eq!(update.diff.modified.len(), 1);
    let m = &update.diff.modified[&1];
    assert_eq!(m.addrs_added, vec![alias]);
    assert!(m.addrs_removed.is_empty());
    assert!(!m.hw_addr_changed);
}

#[test]
fn removing_an_alias_is_reported_as_one_removed_address() {
    let original = rec4(127, 0, 0, 1, 8);
    let alias = rec4(127, 0, 0, 10, 8);
    let (mut state, _) = WatchState::start(list_of(vec![loopback(vec![original, alias])]));
    let update = notif(&mut state, Ok(list_of(vec![loopback(vec![original])]))).unwrap();
    let lo = &update.interfaces[&1];
    assert!(lo.ips.contains(&original) && !lo.ips.contains(&alias));
    let m = &update.diff.modified[&1];
    assert_eq!(m.addrs_removed, vec![alias]);
    assert!(m.addrs_added.is_empty());
}

#[test]
fn the_netlink_socket_listens_for_links_and_both_address_families() {
    assert_eq!(netlink_groups(), 0x31);
    assert_eq!(netlink_groups(), 0x01 | 0x10 | 0x20);
    assert_eq!(netwatcher::linux::RECEIVE_BUFFER_LEN, 4096);
}

#[test]
fn any_event_on_the_socket_makes_it_ready() {
    assert!(!socket_ready(0));
    assert!(socket_ready(1));
    assert!(socket_ready(0x18));
    assert!(socket_ready(-1));
}

#[test]
fn the_worker_leaves_only_when_the_pipe_shows_an_event() {
    let (mut state, _) = WatchState::start(list_of(vec![ethernet()]));
    let (update, exit) = worker_iteration(&mut state, None, 0);
    assert!(update.is_none() && !exit);
    let (update, exit) = worker_iteration(&mut state, None, 0x10);
    assert!(update.is_none() && exit);
    let (update, exit) = worker_iteration(&mut state, Some(Err(Error::Getifaddrs("x".to_string()))), 0);
    assert!(update.is_none() && !exit);
    assert!(state.prev_list == list_of(vec![ethernet()]));
    let (update, exit) = worker_iteration(&mut state, Some(Ok(list_of(vec![ethernet()]))), 0);
    assert!(update.is_none() && !exit);
    let (update, exit) = worker_iteration(&mut state, Some(Ok(List::new())), 1);
    assert_eq!(update.unwrap().diff.removed, vec![2]);
    assert!(exit);
    assert!(state.prev_list == List::new());
}
