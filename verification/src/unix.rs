//! Building a snapshot from the address entries that `getifaddrs` reports:
//! one entry per address, many entries per interface.

use crate::addr::{records_missing_from, IpAddr, IpRecord};
use crate::diff::{prefixes_in_range, Snapshot};
use crate::error::Error;
use crate::interface::{Interface, InterfaceView};
use crate::list::List;
use crate::mac::{format_mac, mac_text, unknown_hw_addr};
use std::collections::HashMap;
use vstd::prelude::*;
use vstd::std_specs::bits::*;
use vstd::std_specs::hash::*;

verus! {

/// The address that one entry carries.
#[derive(Debug, Clone)]
#[allow(inconsistent_fields)]
pub enum RawAddress {
    /// A link-layer address, with its bytes where the system gives them.
    Link(Option<[u8; 6]>),
    /// An IPv4 address, with its netmask where the entry has an IPv4 one.
    Inet { ip: u32, netmask: Option<u32> },
    /// An IPv6 address, with its netmask where the entry has an IPv6 one.
    Inet6 { ip: u128, netmask: Option<u128> },
    /// An address of any other family.
    Other,
}

/// One entry of the system's address list.
#[derive(Debug, Clone)]
pub struct RawEntry {
    /// Name of the interface that the address belongs to.
    pub interface_name: String,
    /// Index of that interface.
    pub index: u32,
    /// The address, if the entry has one.
    pub address: Option<RawAddress>,
}

/// An address on its way into a snapshot: its prefix length may still be
/// missing.
pub struct CandidateIpRecord {
    pub ip: IpAddr,
    pub prefix_len: Option<u8>,
}

/// The number of leading one bits of a 128-bit netmask.
pub open spec fn u128_leading_ones(mask: u128) -> int {
    let high = (mask / 0x1_0000_0000_0000_0000) as u64;
    let low = (mask % 0x1_0000_0000_0000_0000) as u64;
    if u64_leading_ones(high) == 64 {
        64 + u64_leading_ones(low)
    } else {
        u64_leading_ones(high) as int
    }
}

/// The prefix length that an IPv4 netmask stands for: its leading one bits.
pub fn prefix_len_v4(netmask: u32) -> (len: u8)
    ensures
        len == u32_leading_ones(netmask),
        len <= 32,
{
    broadcast use axiom_u32_leading_ones;

    netmask.leading_ones() as u8
}

/// The prefix length that an IPv6 netmask stands for: its leading one bits.
pub fn prefix_len_v6(netmask: u128) -> (len: u8)
    ensures
        len == u128_leading_ones(netmask),
        len <= 128,
{
    broadcast use axiom_u64_leading_ones;

    let high: u64 = (netmask / 0x1_0000_0000_0000_0000) as u64;
    let low: u64 = (netmask % 0x1_0000_0000_0000_0000) as u64;
    let high_ones = high.leading_ones();
    if high_ones == 64 {
        (64 + low.leading_ones()) as u8
    } else {
        high_ones as u8
    }
}

/// The address and prefix that `address` contributes, if it is an IP address.
pub open spec fn candidate_of(address: Option<RawAddress>) -> Option<CandidateIpRecord> {
    match address {
        Some(RawAddress::Inet { ip, netmask }) => Some(
            CandidateIpRecord {
                ip: IpAddr::V4(ip),
                prefix_len: match netmask {
                    Some(mask) => Some(u32_leading_ones(mask) as u8),
                    None => None,
                },
            },
        ),
        Some(RawAddress::Inet6 { ip, netmask }) => Some(
            CandidateIpRecord {
                ip: IpAddr::V6(ip),
                prefix_len: match netmask {
                    Some(mask) => Some(u128_leading_ones(mask) as u8),
                    None => None,
                },
            },
        ),
        _ => None,
    }
}

/// Whether entry `i` is the first that names its interface.
pub open spec fn opens_interface(entries: Seq<RawEntry>, i: int) -> bool {
    forall|j: int| 0 <= j < i ==> (#[trigger] entries[j]).interface_name@ != entries[i].interface_name@
}

/// Whether entry `i` brings an interface into the snapshot: it is the first
/// that names its interface, and it carries an index. The system numbers
/// interfaces from 1, so that an index of 0 stands for no interface.
pub open spec fn lists_interface(entries: Seq<RawEntry>, i: int) -> bool {
    opens_interface(entries, i) && entries[i].index != 0
}

/// The bytes of the last link-layer address that carries any, among the
/// first `n` entries for the interface `name`.
pub open spec fn link_bytes(entries: Seq<RawEntry>, name: Seq<char>, n: int) -> Option<Seq<u8>>
    decreases n,
{
    if n <= 0 {
        None
    } else {
        let entry = entries[n - 1];
        match entry.address {
            Some(RawAddress::Link(Some(bytes))) if entry.interface_name@ == name => Some(bytes@),
            _ => link_bytes(entries, name, n - 1),
        }
    }
}

/// The IP addresses among the first `n` entries for the interface `name`,
/// in their order.
pub open spec fn candidate_ips(entries: Seq<RawEntry>, name: Seq<char>, n: int) -> Seq<
    CandidateIpRecord,
>
    decreases n,
{
    if n <= 0 {
        Seq::empty()
    } else {
        let rest = candidate_ips(entries, name, n - 1);
        let entry = entries[n - 1];
        if entry.interface_name@ == name && candidate_of(entry.address) is Some {
            rest.push(candidate_of(entry.address)->0)
        } else {
            rest
        }
    }
}

/// The prefix length of the first IPv4 address that has one.
pub open spec fn prefix_in_use(candidates: Seq<CandidateIpRecord>) -> Option<u8>
    decreases candidates.len(),
{
    if candidates.len() == 0 {
        None
    } else {
        match prefix_in_use(candidates.drop_last()) {
            Some(len) => Some(len),
            None => if candidates.last().ip is V4 {
                candidates.last().prefix_len
            } else {
                None
            },
        }
    }
}

/// The records that `candidates` give once every address without a prefix
/// length takes `fallback`; an address left without one is dropped.
pub open spec fn resolved_records(
    candidates: Seq<CandidateIpRecord>,
    fallback: Option<u8>,
) -> Seq<IpRecord>
    decreases candidates.len(),
{
    if candidates.len() == 0 {
        Seq::empty()
    } else {
        let rest = resolved_records(candidates.drop_last(), fallback);
        let last = candidates.last();
        match (last.prefix_len, fallback) {
            (Some(len), _) => rest.push(IpRecord { ip: last.ip, prefix_len: len }),
            (None, Some(len)) => rest.push(IpRecord { ip: last.ip, prefix_len: len }),
            (None, None) => rest,
        }
    }
}

/// The interface that entry `i` names, put together from every entry that
/// names it: the index that entry `i` carries; the last link-layer address
/// as its hardware address, or the all-zero one; and its IP addresses, where
/// an address without a netmask borrows the prefix length of the
/// interface's first IPv4 address that has one.
pub open spec fn interface_of(entries: Seq<RawEntry>, i: int) -> InterfaceView {
    let name = entries[i].interface_name@;
    let candidates = candidate_ips(entries, name, entries.len() as int);
    InterfaceView {
        index: entries[i].index,
        name,
        hw_addr: match link_bytes(entries, name, entries.len() as int) {
            Some(bytes) => mac_text(bytes),
            None => unknown_hw_addr(),
        },
        ips: resolved_records(candidates, prefix_in_use(candidates)).to_set(),
    }
}

/// The snapshot that the first `n` entries open: each interface first named
/// among them, with an index, stands under that index, a later interface
/// replacing an earlier one of the same index.
pub open spec fn snapshot_of(entries: Seq<RawEntry>, n: int) -> Snapshot
    decreases n,
{
    if n <= 0 {
        Map::empty()
    } else {
        let before = snapshot_of(entries, n - 1);
        if lists_interface(entries, n - 1) {
            before.insert(entries[n - 1].index, interface_of(entries, n - 1))
        } else {
            before
        }
    }
}

/// Whether an entry before entry `i` names the same interface.
fn named_before(entries: &Vec<RawEntry>, i: usize) -> (found: bool)
    requires
        i < entries.len(),
    ensures
        found == !opens_interface(entries@, i as int),
{
    let mut j: usize = 0;
    while j < i
        invariant
            j <= i,
            i < entries.len(),
            forall|k: int| 0 <= k < j ==> (#[trigger] entries@[k]).interface_name@ != entries@[i as int].interface_name@,
        decreases i - j,
    {
        if entries[j].interface_name == entries[i].interface_name {
            return true;
        }
        j += 1;
    }
    false
}

/// What `address` contributes to its interface's IP addresses.
fn candidate_from(address: &Option<RawAddress>) -> (candidate: Option<CandidateIpRecord>)
    ensures
        candidate == candidate_of(*address),
{
    match address {
        Some(RawAddress::Inet { ip, netmask }) => {
            let prefix_len = match netmask {
                Some(mask) => Some(prefix_len_v4(*mask)),
                None => None,
            };
            Some(CandidateIpRecord { ip: IpAddr::V4(*ip), prefix_len })
        },
        Some(RawAddress::Inet6 { ip, netmask }) => {
            let prefix_len = match netmask {
                Some(mask) => Some(prefix_len_v6(*mask)),
                None => None,
            };
            Some(CandidateIpRecord { ip: IpAddr::V6(*ip), prefix_len })
        },
        _ => None,
    }
}

/// The prefix length of the first IPv4 address among `candidates` that has one.
fn first_v4_prefix(candidates: &Vec<CandidateIpRecord>) -> (found: Option<u8>)
    ensures
        found == prefix_in_use(candidates@),
{
    let mut i: usize = 0;
    while i < candidates.len()
        invariant
            i <= candidates.len(),
            prefix_in_use(candidates@.take(i as int)) is None,
        decreases candidates.len() - i,
    {
        assert(candidates@.take(i + 1).drop_last() == candidates@.take(i as int));
        if candidates[i].ip.is_ipv4() {
            if let Some(len) = candidates[i].prefix_len {
                proof {
                    lemma_prefix_in_use_sticks(candidates@, i + 1);
                }
                return Some(len);
            }
        }
        i += 1;
    }
    assert(candidates@.take(i as int) == candidates@);
    None
}

/// Once a leading part of `candidates` has settled the prefix in use, the
/// rest does not change it.
proof fn lemma_prefix_in_use_sticks(candidates: Seq<CandidateIpRecord>, n: int)
    requires
        0 <= n <= candidates.len(),
        prefix_in_use(candidates.take(n)) is Some,
    ensures
        prefix_in_use(candidates) == prefix_in_use(candidates.take(n)),
    decreases candidates.len() - n,
{
    if n < candidates.len() {
        assert(candidates.take(n + 1).drop_last() == candidates.take(n));
        lemma_prefix_in_use_sticks(candidates, n + 1);
    } else {
        assert(candidates.take(n) == candidates);
    }
}

/// Gives every candidate without a prefix length the `fallback`, and drops
/// those that still have none.
fn resolve(candidates: &Vec<CandidateIpRecord>, fallback: Option<u8>) -> (records: Vec<IpRecord>)
    ensures
        records@ == resolved_records(candidates@, fallback),
{
    let mut records: Vec<IpRecord> = Vec::new();
    let mut i: usize = 0;
    while i < candidates.len()
        invariant
            i <= candidates.len(),
            records@ == resolved_records(candidates@.take(i as int), fallback),
        decreases candidates.len() - i,
    {
        assert(candidates@.take(i + 1).drop_last() == candidates@.take(i as int));
        let ip = candidates[i].ip;
        match (candidates[i].prefix_len, fallback) {
            (Some(len), _) => records.push(IpRecord { ip, prefix_len: len }),
            (None, Some(len)) => records.push(IpRecord { ip, prefix_len: len }),
            (None, None) => {},
        }
        i += 1;
    }
    assert(candidates@.take(i as int) == candidates@);
    records
}

/// Puts together the interface that entry `i` names.
fn gather(entries: &Vec<RawEntry>, i: usize) -> (gathered: Result<Interface, Error>)
    requires
        i < entries.len(),
    ensures
        gathered matches Ok(interface) && interface.wf() && interface@ == interface_of(
            entries@,
            i as int,
        ),
{
    let name = entries[i].interface_name.clone();
    let mut hw_addr: Option<String> = None;
    let mut candidates: Vec<CandidateIpRecord> = Vec::new();
    let mut j: usize = 0;
    while j < entries.len()
        invariant
            j <= entries.len(),
            match link_bytes(entries@, name@, j as int) {
                Some(bytes) => hw_addr matches Some(text) && text@ == mac_text(bytes),
                None => hw_addr is None,
            },
            candidates@ == candidate_ips(entries@, name@, j as int),
        decreases entries.len() - j,
    {
        let entry = &entries[j];
        if entry.interface_name == name {
            if let Some(RawAddress::Link(Some(bytes))) = &entry.address {
                hw_addr = Some(format_mac(bytes.as_slice())?);
            }
            if let Some(candidate) = candidate_from(&entry.address) {
                candidates.push(candidate);
            }
        }
        j += 1;
    }
    // alias IPs on Mac do not get their own prefix len
    let prefix = first_v4_prefix(&candidates);
    let resolved = resolve(&candidates, prefix);
    let ips = records_missing_from(&resolved, &Vec::new());
    // MAC suppressed on Android
    let hw_addr = match hw_addr {
        Some(text) => text,
        None => format_mac(&[0u8, 0u8, 0u8, 0u8, 0u8, 0u8])?,
    };
    let interface = Interface { index: entries[i].index, name, hw_addr, ips };
    assert(interface@ =~= interface_of(entries@, i as int)) by {
        assert(ips@.to_set() =~= resolved@.to_set());
    }
    Ok(interface)
}

/// Builds the snapshot from the system's address entries.
///
/// The entries of one interface are those that carry its name. An
/// interface without any recognized IP address still appears. No interface
/// stands under index 0, and every address listed has a prefix length
/// within what its family allows.
pub fn list_interfaces(entries: &Vec<RawEntry>) -> (listed: Result<List, Error>)
    ensures
        listed matches Ok(list) && list.wf() && list@ == snapshot_of(
            entries@,
            entries@.len() as int,
        ) && !list@.contains_key(0) && prefixes_in_range(list@),
{
    broadcast use group_hash_axioms;

    let mut ifs: HashMap<u32, Interface> = HashMap::new();
    let mut i: usize = 0;
    while i < entries.len()
        invariant
            i <= entries.len(),
            ifs@.map_values(|f: Interface| f@) == snapshot_of(entries@, i as int),
            forall|k: u32| #[trigger]
                ifs@.contains_key(k) ==> ifs@[k].index == k && ifs@[k].wf() && k != 0,
        decreases entries.len() - i,
    {
        if entries[i].index != 0 && !named_before(entries, i) {
            let interface = gather(entries, i)?;
            let ghost before = ifs@;
            ifs.insert(interface.index, interface);
            assert(ifs@.map_values(|f: Interface| f@) =~= before.map_values(|f: Interface| f@).insert(
                interface.index,
                interface@,
            ));
        }
        i += 1;
    }
    let list = List(ifs);
    proof {
        assert(!list@.contains_key(0));
        assert forall|k: u32, r: IpRecord|
            list@.contains_key(k) && #[trigger] list@[k].ips.contains(r) implies r.prefix_in_range() by {
            lemma_snapshot_of_entries(entries@, entries@.len() as int, k);
        }
    }
    Ok(list)
}

/// Whether a candidate that has a prefix length has one within what its
/// address family allows.
pub open spec fn candidate_in_range(candidate: CandidateIpRecord) -> bool {
    candidate.prefix_len matches Some(len) ==> len <= candidate.ip.max_prefix_len()
}

/// Every address that the entries contribute has, if any, a prefix length
/// within what its family allows.
proof fn lemma_candidates_in_range(entries: Seq<RawEntry>, name: Seq<char>, n: int)
    ensures
        forall|i: int|
            0 <= i < candidate_ips(entries, name, n).len() ==> candidate_in_range(
                #[trigger] candidate_ips(entries, name, n)[i],
            ),
    decreases n,
{
    broadcast use axiom_u32_leading_ones, axiom_u64_leading_ones;

    if n > 0 {
        lemma_candidates_in_range(entries, name, n - 1);
        let rest = candidate_ips(entries, name, n - 1);
        let all = candidate_ips(entries, name, n);
        assert forall|i: int| 0 <= i < all.len() implies candidate_in_range(#[trigger] all[i]) by {
            if i < rest.len() {
                assert(all[i] == rest[i]);
            } else {
                assert(all[i] == candidate_of(entries[n - 1].address)->0);
            }
        }
    }
}

/// The prefix in use, taken from an IPv4 address, is at most 32.
proof fn lemma_prefix_in_use_is_v4(candidates: Seq<CandidateIpRecord>)
    requires
        forall|i: int| 0 <= i < candidates.len() ==> candidate_in_range(#[trigger] candidates[i]),
    ensures
        prefix_in_use(candidates) matches Some(len) ==> len <= 32,
    decreases candidates.len(),
{
    if candidates.len() > 0 {
        assert forall|i: int| 0 <= i < candidates.drop_last().len() implies candidate_in_range(
            #[trigger] candidates.drop_last()[i],
        ) by {
            assert(candidates.drop_last()[i] == candidates[i]);
        }
        lemma_prefix_in_use_is_v4(candidates.drop_last());
        assert(candidate_in_range(candidates[candidates.len() - 1]));
    }
}

/// With a fallback of at most 32, every resolved record has a prefix length
/// within what its family allows.
proof fn lemma_resolved_in_range(candidates: Seq<CandidateIpRecord>, fallback: Option<u8>)
    requires
        forall|i: int| 0 <= i < candidates.len() ==> candidate_in_range(#[trigger] candidates[i]),
        fallback matches Some(len) ==> len <= 32,
    ensures
        forall|i: int|
            0 <= i < resolved_records(candidates, fallback).len() ==> (#[trigger] resolved_records(
                candidates,
                fallback,
            )[i]).prefix_in_range(),
    decreases candidates.len(),
{
    if candidates.len() > 0 {
        assert forall|i: int| 0 <= i < candidates.drop_last().len() implies candidate_in_range(
            #[trigger] candidates.drop_last()[i],
        ) by {
            assert(candidates.drop_last()[i] == candidates[i]);
        }
        lemma_resolved_in_range(candidates.drop_last(), fallback);
        assert(candidate_in_range(candidates[candidates.len() - 1]));
        let rest = resolved_records(candidates.drop_last(), fallback);
        let all = resolved_records(candidates, fallback);
        assert forall|i: int| 0 <= i < all.len() implies (#[trigger] all[i]).prefix_in_range() by {
            if i < rest.len() {
                assert(all[i] == rest[i]);
            }
        }
    }
}

/// In a snapshot built from address entries, every interface stands under
/// its own index, which is not 0 and is the index of one of the entries,
/// and every address has a prefix length within what its family allows: at
/// most 32 for IPv4, at most 128 for IPv6.
pub proof fn lemma_snapshot_of_entries(entries: Seq<RawEntry>, n: int, k: u32)
    requires
        0 <= n <= entries.len(),
        snapshot_of(entries, n).contains_key(k),
    ensures
        k != 0,
        snapshot_of(entries, n)[k].index == k,
        exists|i: int| 0 <= i < n && (#[trigger] entries[i]).index == k,
        forall|r: IpRecord| #[trigger]
            snapshot_of(entries, n)[k].ips.contains(r) ==> r.prefix_in_range(),
    decreases n,
{
    if n > 0 {
        if lists_interface(entries, n - 1) && entries[n - 1].index == k {
            let name = entries[n - 1].interface_name@;
            let candidates = candidate_ips(entries, name, entries.len() as int);
            lemma_candidates_in_range(entries, name, entries.len() as int);
            lemma_prefix_in_use_is_v4(candidates);
            lemma_resolved_in_range(candidates, prefix_in_use(candidates));
        } else {
            lemma_snapshot_of_entries(entries, n - 1, k);
        }
    }
}

/// No interface is filtered out: the index of every interface that the
/// entries name, index 0 apart, has an interface in the snapshot, whether
/// or not any of the interface's addresses is recognized.
pub proof fn lemma_every_interface_listed(entries: Seq<RawEntry>, n: int, i: int)
    requires
        0 <= i < n <= entries.len(),
        lists_interface(entries, i),
    ensures
        snapshot_of(entries, n).contains_key(entries[i].index),
    decreases n,
{
    if i < n - 1 {
        lemma_every_interface_listed(entries, n - 1, i);
    }
}

/// Whether entry `i` belongs to an interface that has its index to itself:
/// the entries that carry the interface's name are those that carry its
/// index, as it is wherever the system gives each interface one name and
/// one index.
pub open spec fn has_own_index(entries: Seq<RawEntry>, i: int) -> bool {
    forall|j: int|
        0 <= j < entries.len() ==> ((#[trigger] entries[j]).interface_name@
            == entries[i].interface_name@ <==> entries[j].index == entries[i].index)
}

/// The first entry that names the interface of entry `i`.
proof fn lemma_first_entry_of_name(entries: Seq<RawEntry>, i: int) -> (first: int)
    requires
        0 <= i < entries.len(),
    ensures
        0 <= first <= i,
        entries[first].interface_name@ == entries[i].interface_name@,
        opens_interface(entries, first),
    decreases i,
{
    if opens_interface(entries, i) {
        i
    } else {
        let j = choose|j: int|
            0 <= j < i && (#[trigger] entries[j]).interface_name@ == entries[i].interface_name@;
        lemma_first_entry_of_name(entries, j)
    }
}

/// An interface that has its index to itself stays in the snapshot as its
/// first entry brought it in.
proof fn lemma_own_index_keeps_interface(entries: Seq<RawEntry>, first: int, n: int)
    requires
        0 <= first < n <= entries.len(),
        lists_interface(entries, first),
        has_own_index(entries, first),
    ensures
        snapshot_of(entries, n).contains_key(entries[first].index),
        snapshot_of(entries, n)[entries[first].index] == interface_of(entries, first),
    decreases n,
{
    if first < n - 1 {
        lemma_own_index_keeps_interface(entries, first, n - 1);
        if lists_interface(entries, n - 1) && entries[n - 1].index == entries[first].index {
            assert(entries[n - 1].interface_name@ == entries[first].interface_name@);
            assert(entries[first].interface_name@ != entries[n - 1].interface_name@);
        }
    }
}

/// The address of entry `i` is among the candidates of its interface.
proof fn lemma_candidate_collected(entries: Seq<RawEntry>, i: int, n: int)
    requires
        0 <= i < n <= entries.len(),
        candidate_of(entries[i].address) is Some,
    ensures
        candidate_ips(entries, entries[i].interface_name@, n).contains(
            candidate_of(entries[i].address)->0,
        ),
    decreases n,
{
    let name = entries[i].interface_name@;
    let all = candidate_ips(entries, name, n);
    if i == n - 1 {
        assert(all[all.len() - 1] == candidate_of(entries[i].address)->0);
    } else {
        lemma_candidate_collected(entries, i, n - 1);
        let rest = candidate_ips(entries, name, n - 1);
        let k = choose|k: int| 0 <= k < rest.len() && rest[k] == candidate_of(entries[i].address)->0;
        assert(all[k] == rest[k]);
    }
}

/// A candidate that has a prefix length of its own is resolved with it.
proof fn lemma_own_prefix_is_kept(
    candidates: Seq<CandidateIpRecord>,
    fallback: Option<u8>,
    candidate: CandidateIpRecord,
)
    requires
        candidates.contains(candidate),
        candidate.prefix_len is Some,
    ensures
        resolved_records(candidates, fallback).contains(
            IpRecord { ip: candidate.ip, prefix_len: candidate.prefix_len->0 },
        ),
    decreases candidates.len(),
{
    let record = IpRecord { ip: candidate.ip, prefix_len: candidate.prefix_len->0 };
    let all = resolved_records(candidates, fallback);
    if candidates.last() == candidate {
        assert(all[all.len() - 1] == record);
    } else {
        let k = choose|k: int| 0 <= k < candidates.len() && candidates[k] == candidate;
        assert(candidates.drop_last()[k] == candidate);
        lemma_own_prefix_is_kept(candidates.drop_last(), fallback, candidate);
        let rest = resolved_records(candidates.drop_last(), fallback);
        let m = choose|m: int| 0 <= m < rest.len() && rest[m] == record;
        assert(all[m] == rest[m]);
    }
}

/// An IP address that the system reports with its netmask is listed: where
/// its interface has an index of its own, the snapshot holds an interface
/// under that index, which lists the address with the prefix length that
/// its netmask stands for.
pub proof fn lemma_address_is_listed(entries: Seq<RawEntry>, i: int)
    requires
        0 <= i < entries.len(),
        entries[i].index != 0,
        has_own_index(entries, i),
        candidate_of(entries[i].address) matches Some(candidate) && candidate.prefix_len is Some,
    ensures
        snapshot_of(entries, entries.len() as int).contains_key(entries[i].index),
        snapshot_of(entries, entries.len() as int)[entries[i].index].ips.contains(
            IpRecord {
                ip: candidate_of(entries[i].address)->0.ip,
                prefix_len: candidate_of(entries[i].address)->0.prefix_len->0,
            },
        ),
{
    let n = entries.len() as int;
    let name = entries[i].interface_name@;
    let candidate = candidate_of(entries[i].address)->0;
    let first = lemma_first_entry_of_name(entries, i);
    assert(entries[first].index == entries[i].index);
    assert(has_own_index(entries, first));
    lemma_own_index_keeps_interface(entries, first, n);
    lemma_candidate_collected(entries, i, n);
    let candidates = candidate_ips(entries, name, n);
    lemma_own_prefix_is_kept(candidates, prefix_in_use(candidates), candidate);
}

/// The netmask 255.0.0.0 stands for the prefix length 8.
pub proof fn lemma_class_a_netmask_is_eight()
    ensures
        u32_leading_ones(0xFF00_0000u32) == 8,
{
    let mask = 0xFF00_0000u32;
    axiom_u32_leading_ones(mask);
    let ones = u32_leading_ones(mask);
    let above: u32 = (32 - ones) as u32;
    assert(above <= 32 && (!0xFF00_0000u32) >> above == 0 ==> above >= 24) by (bit_vector);
    if ones < 32 {
        let at: u32 = (31 - ones) as u32;
        assert(at <= 31 && (0xFF00_0000u32 >> at) & 1u32 == 0u32 ==> at < 24) by (bit_vector);
    }
}

/// The loopback address is listed as 127.0.0.1/8: where the system reports
/// 127.0.0.1 with the netmask 255.0.0.0 on an interface that has an index
/// of its own, the snapshot is not empty and holds an interface whose
/// addresses include the record of 127.0.0.1 with prefix length 8.
pub proof fn lemma_loopback_is_listed(entries: Seq<RawEntry>, i: int)
    requires
        0 <= i < entries.len(),
        entries[i].index != 0,
        has_own_index(entries, i),
        entries[i].address == Some(
            RawAddress::Inet { ip: 0x7F00_0001u32, netmask: Some(0xFF00_0000u32) },
        ),
    ensures
        snapshot_of(entries, entries.len() as int).contains_key(entries[i].index),
        snapshot_of(entries, entries.len() as int)[entries[i].index].ips.contains(
            IpRecord { ip: IpAddr::V4(0x7F00_0001u32), prefix_len: 8 },
        ),
{
    lemma_class_a_netmask_is_eight();
    lemma_address_is_listed(entries, i);
}

} // verus!
