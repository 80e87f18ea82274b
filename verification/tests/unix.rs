use netwatcher::unix::{list_interfaces, prefix_len_v4, prefix_len_v6, RawAddress, RawEntry};
use netwatcher::{IpAddr, IpRecord};

fn v4(a: u8, b: u8, c: u8, d: u8) -> u32 {
    u32::from_be_bytes([a, b, c, d])
}

fn entry(name: &str, index: u32, address: Option<RawAddress>) -> RawEntry {
    RawEntry { interface_name: name.to_string(), index, address }
}

fn inet(ip: u32, netmask: Option<u32>) -> Option<RawAddress> {
    Some(RawAddress::Inet { ip, netmask })
}

fn inet6(ip: u128, netmask: Option<u128>) -> Option<RawAddress> {
    Some(RawAddress::Inet6 { ip, netmask })
}

fn linux_host() -> Vec<RawEntry> {
    vec![
        entry("lo", 1, Some(RawAddress::Link(Some([0; 6])))),
        entry("eth0", 2, Some(RawAddress::Link(Some([0x02, 0x42, 0xac, 0x11, 0x00, 0x02])))),
        entry("lo", 1, inet(v4(127, 0, 0, 1), Some(v4(255, 0, 0, 0)))),
        entry("eth0", 2, inet(v4(172, 17, 0, 2), Some(v4(255, 255, 0, 0)))),
        entry("lo", 1, inet6(1, Some(u128::MAX))),
        entry("eth0", 2, inet6(0xfe80u128 << 112 | 0x42, Some(u128::MAX << 64))),
    ]
}

#[test]
fn imp_mac_list() {
    let ifaces = list_interfaces(&linux_host()).unwrap();
    println!("{:?}", ifaces);
}

#[test]
fn list_mac_list() {
    let ifaces = list_interfaces(&Vec::new()).unwrap();
    println!("{:?}", ifaces);
    assert!(ifaces.0.is_empty());
}

#[test]
fn test_list_interfaces_has_loopback() {
    let interfaces = list_interfaces(&linux_host()).expect("failed to list network interfaces").0;
    assert!(!interfaces.is_empty(), "no network interfaces found");

    let expected_loopback = IpRecord { ip: IpAddr::v4(127, 0, 0, 1), prefix_len: 8 };
    let loopback_found = interfaces.values().any(|interface| interface.ips.contains(&expected_loopback));

    assert!(loopback_found, "address 127.0.0.1/8 not found");
}

#[test]
fn entries_are_grouped_by_interface_name() {
    let list = list_interfaces(&linux_host()).unwrap().0;
    assert_eq!(list.len(), 2);
    let lo = &list[&1];
    assert_eq!(lo.index, 1);
    assert_eq!(lo.name, "lo");
    assert_eq!(lo.hw_addr, "00:00:00:00:00:00");
    assert_eq!(
        lo.ips,
        vec![
            IpRecord { ip: IpAddr::v4(127, 0, 0, 1), prefix_len: 8 },
            IpRecord { ip: IpAddr::V6(1), prefix_len: 128 },
        ]
    );
    let eth = &list[&2];
    assert_eq!(eth.index, 2);
    assert_eq!(eth.name, "eth0");
    assert_eq!(eth.hw_addr, "02:42:AC:11:00:02");
    assert_eq!(
        eth.ips,
        vec![
            IpRecord { ip: IpAddr::v4(172, 17, 0, 2), prefix_len: 16 },
            IpRecord { ip: IpAddr::V6(0xfe80u128 << 112 | 0x42), prefix_len: 64 },
        ]
    );
}

#[test]
fn netmasks_become_prefix_lengths() {
    assert_eq!(prefix_len_v4(0), 0);
    assert_eq!(prefix_len_v4(v4(255, 0, 0, 0)), 8);
    assert_eq!(prefix_len_v4(v4(255, 255, 255, 0)), 24);
    assert_eq!(prefix_len_v4(v4(255, 255, 255, 252)), 30);
    assert_eq!(prefix_len_v4(u32::MAX), 32);
    assert_eq!(prefix_len_v4(v4(255, 0, 255, 0)), 8);
    assert_eq!(prefix_len_v4(v4(127, 255, 255, 255)), 0);
    assert_eq!(prefix_len_v6(0), 0);
    assert_eq!(prefix_len_v6(u128::MAX), 128);
    assert_eq!(prefix_len_v6(u128::MAX << 64), 64);
    assert_eq!(prefix_len_v6(u128::MAX << 118), 10);
    assert_eq!(prefix_len_v6(u128::MAX << 32), 96);
    assert_eq!(prefix_len_v6(u128::MAX << 1), 127);
    assert_eq!(prefix_len_v6(u128::MAX >> 1), 0);
    assert_eq!(prefix_len_v6((u128::MAX << 64) | 1), 64);
}

#[test]
fn an_alias_without_netmask_borrows_the_first_ipv4_prefix() {
    let entries = vec![
        entry("lo0", 1, inet(v4(127, 0, 0, 10), None)),
        entry("lo0", 1, inet6(1, None)),
        entry("lo0", 1, inet(v4(127, 0, 0, 1), Some(v4(255, 0, 0, 0)))),
        entry("lo0", 1, inet(v4(127, 0, 0, 2), Some(v4(255, 255, 0, 0)))),
    ];
    let list = list_interfaces(&entries).unwrap().0;
    assert_eq!(
        list[&1].ips,
        vec![
            IpRecord { ip: IpAddr::v4(127, 0, 0, 10), prefix_len: 8 },
            IpRecord { ip: IpAddr::V6(1), prefix_len: 8 },
            IpRecord { ip: IpAddr::v4(127, 0, 0, 1), prefix_len: 8 },
            IpRecord { ip: IpAddr::v4(127, 0, 0, 2), prefix_len: 16 },
        ]
    );
}

#[test]
fn an_ipv6_prefix_is_never_borrowed() {
    let entries = vec![
        entry("utun0", 4, inet6(0xfe80u128 << 112, Some(u128::MAX << 64))),
        entry("utun0", 4, inet(v4(10, 0, 0, 1), None)),
        entry("utun0", 4, inet6(2, None)),
    ];
    let list = list_interfaces(&entries).unwrap().0;
    assert_eq!(list[&4].ips, vec![IpRecord { ip: IpAddr::V6(0xfe80u128 << 112), prefix_len: 64 }]);
}

#[test]
fn an_interface_without_addresses_still_appears() {
    let entries = vec![entry("dummy0", 9, None), entry("tun0", 10, Some(RawAddress::Other))];
    let list = list_interfaces(&entries).unwrap().0;
    assert_eq!(list.len(), 2);
    assert_eq!(list[&9].name, "dummy0");
    assert!(list[&9].ips.is_empty());
    assert_eq!(list[&9].hw_addr, "00:00:00:00:00:00");
    assert_eq!(list[&10].name, "tun0");
    assert!(list[&10].ips.is_empty());
}

#[test]
fn the_last_link_address_with_bytes_wins() {
    let entries = vec![
        entry("eth0", 2, Some(RawAddress::Link(Some([1, 2, 3, 4, 5, 6])))),
        entry("eth0", 2, Some(RawAddress::Link(Some([0xaa, 0xbb, 0xcc, 0xdd, 0xee, 0xff])))),
        entry("eth0", 2, Some(RawAddress::Link(None))),
        entry("wlan0", 3, Some(RawAddress::Link(None))),
    ];
    let list = list_interfaces(&entries).unwrap().0;
    assert_eq!(list[&2].hw_addr, "AA:BB:CC:DD:EE:FF");
    assert_eq!(list[&3].hw_addr, "00:00:00:00:00:00");
}

#[test]
fn the_index_is_that_of_the_first_entry_of_the_name() {
    let entries = vec![
        entry("eth0", 2, None),
        entry("eth0", 7, inet(v4(10, 0, 0, 1), Some(v4(255, 255, 255, 0)))),
    ];
    let list = list_interfaces(&entries).unwrap().0;
    assert_eq!(list.len(), 1);
    assert_eq!(list[&2].index, 2);
    assert_eq!(list[&2].ips, vec![IpRecord { ip: IpAddr::v4(10, 0, 0, 1), prefix_len: 24 }]);
}

#[test]
fn of_two_names_under_one_index_the_later_stays() {
    let entries = vec![
        entry("eth0", 2, inet(v4(10, 0, 0, 1), Some(v4(255, 255, 255, 0)))),
        entry("eth0:1", 2, inet(v4(10, 0, 0, 2), Some(v4(255, 255, 255, 0)))),
        entry("eth0", 2, inet(v4(10, 0, 0, 3), Some(v4(255, 255, 255, 0)))),
    ];
    let list = list_interfaces(&entries).unwrap().0;
    assert_eq!(list.len(), 1);
    assert_eq!(list[&2].name, "eth0:1");
    assert_eq!(list[&2].ips, vec![IpRecord { ip: IpAddr::v4(10, 0, 0, 2), prefix_len: 24 }]);
}

#[test]
fn an_address_reported_twice_is_listed_once() {
    let entries = vec![
        entry("eth0", 2, inet(v4(10, 0, 0, 1), Some(v4(255, 255, 255, 0)))),
        entry("eth0", 2, inet(v4(10, 0, 0, 1), Some(v4(255, 255, 255, 0)))),
        entry("eth0", 2, inet(v4(10, 0, 0, 1), Some(v4(255, 255, 0, 0)))),
    ];
    let list = list_interfaces(&entries).unwrap().0;
    assert_eq!(
        list[&2].ips,
        vec![
            IpRecord { ip: IpAddr::v4(10, 0, 0, 1), prefix_len: 24 },
            IpRecord { ip: IpAddr::v4(10, 0, 0, 1), prefix_len: 16 },
        ]
    );
}

#[test]
fn an_entry_without_index_brings_no_interface() {
    let entries = vec![
        entry("ghost0", 0, inet(v4(10, 9, 9, 9), Some(v4(255, 255, 255, 0)))),
        entry("eth0", 2, inet(v4(10, 0, 0, 1), Some(v4(255, 255, 255, 0)))),
        entry("ghost0", 5, inet(v4(10, 9, 9, 8), Some(v4(255, 255, 255, 0)))),
    ];
    let list = list_interfaces(&entries).unwrap().0;
    assert_eq!(list.len(), 1);
    assert!(!list.contains_key(&0));
    assert!(!list.contains_key(&5));
    assert_eq!(list[&2].name, "eth0");
    assert!(list_interfaces(&vec![entry("ghost0", 0, None)]).unwrap().0.is_empty());
}

#[test]
fn every_listed_prefix_fits_its_family() {
    let entries = vec![
        entry("lo0", 1, inet6(1, None)),
        entry("lo0", 1, inet(v4(127, 0, 0, 1), Some(u32::MAX))),
        entry("lo0", 1, inet6(2, Some(u128::MAX))),
        entry("lo0", 1, inet(v4(127, 0, 0, 2), None)),
    ];
    let list = list_interfaces(&entries).unwrap().0;
    assert_eq!(
        list[&1].ips,
        vec![
            IpRecord { ip: IpAddr::V6(1), prefix_len: 32 },
            IpRecord { ip: IpAddr::v4(127, 0, 0, 1), prefix_len: 32 },
            IpRecord { ip: IpAddr::V6(2), prefix_len: 128 },
            IpRecord { ip: IpAddr::v4(127, 0, 0, 2), prefix_len: 32 },
        ]
    );
    for record in &list[&1].ips {
        assert!(record.has_prefix_in_range());
    }
}
