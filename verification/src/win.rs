//! The decisions around the Windows IP Helper calls: what a status code
//! means for the caller, and how the adapters that the system reports
//! become a snapshot.

use crate::addr::{records_in_range, IpRecord};
use crate::diff::{prefixes_in_range, Snapshot};
use crate::error::Error;
use crate::interface::{Interface, InterfaceView};
use crate::list::List;
use crate::mac::{format_hw_addr, hw_addr_text};
use std::collections::HashMap;
use vstd::prelude::*;
use vstd::std_specs::hash::*;
use windows::Win32::Foundation::{
    ERROR_ADDRESS_NOT_ASSOCIATED, ERROR_BUFFER_OVERFLOW, ERROR_INVALID_HANDLE,
    ERROR_INVALID_PARAMETER, ERROR_NOT_ENOUGH_MEMORY, ERROR_NO_DATA, ERROR_SUCCESS,
};
use windows::Win32::NetworkManagement::Ndis::IfOperStatusDown;

verus! {

/// The Win32 status codes that the library tells apart.
#[derive(Debug, Clone, Copy, PartialEq, Eq, Structural)]
pub enum Win32Status {
    Success,
    InvalidHandle,
    NotEnoughMemory,
    InvalidParameter,
    BufferOverflow,
    NoData,
    AddressNotAssociated,
    Other,
}

/// The status that the number `code` stands for.
pub open spec fn win32_status(code: u32) -> Win32Status {
    if code == 0 {
        Win32Status::Success
    } else if code == 6 {
        Win32Status::InvalidHandle
    } else if code == 8 {
        Win32Status::NotEnoughMemory
    } else if code == 87 {
        Win32Status::InvalidParameter
    } else if code == 111 {
        Win32Status::BufferOverflow
    } else if code == 232 {
        Win32Status::NoData
    } else if code == 1228 {
        Win32Status::AddressNotAssociated
    } else {
        Win32Status::Other
    }
}

/// `ERROR_SUCCESS` of the `windows` crate, which is also its `NO_ERROR`:
/// the number 0.
#[verifier::external_body]
fn error_success() -> (code: u32)
    ensures
        code == 0,
{
    ERROR_SUCCESS.0
}

/// `ERROR_INVALID_HANDLE` of the `windows` crate: the number 6.
#[verifier::external_body]
fn error_invalid_handle() -> (code: u32)
    ensures
        code == 6,
{
    ERROR_INVALID_HANDLE.0
}

/// `ERROR_NOT_ENOUGH_MEMORY` of the `windows` crate: the number 8.
#[verifier::external_body]
fn error_not_enough_memory() -> (code: u32)
    ensures
        code == 8,
{
    ERROR_NOT_ENOUGH_MEMORY.0
}

/// `ERROR_INVALID_PARAMETER` of the `windows` crate: the number 87.
#[verifier::external_body]
fn error_invalid_parameter() -> (code: u32)
    ensures
        code == 87,
{
    ERROR_INVALID_PARAMETER.0
}

/// `ERROR_BUFFER_OVERFLOW` of the `windows` crate: the number 111.
#[verifier::external_body]
fn error_buffer_overflow() -> (code: u32)
    ensures
        code == 111,
{
    ERROR_BUFFER_OVERFLOW.0
}

/// `ERROR_NO_DATA` of the `windows` crate: the number 232.
#[verifier::external_body]
fn error_no_data() -> (code: u32)
    ensures
        code == 232,
{
    ERROR_NO_DATA.0
}

/// `ERROR_ADDRESS_NOT_ASSOCIATED` of the `windows` crate: the number 1228.
#[verifier::external_body]
fn error_address_not_associated() -> (code: u32)
    ensures
        code == 1228,
{
    ERROR_ADDRESS_NOT_ASSOCIATED.0
}

/// `IfOperStatusDown` of the `windows` crate: the number 2.
#[verifier::external_body]
fn if_oper_status_down() -> (status: i32)
    ensures
        status == 2,
{
    IfOperStatusDown.0
}

/// Tells `code` apart.
fn status_of(code: u32) -> (status: Win32Status)
    ensures
        status == win32_status(code),
{
    if code == error_success() {
        Win32Status::Success
    } else if code == error_invalid_handle() {
        Win32Status::InvalidHandle
    } else if code == error_not_enough_memory() {
        Win32Status::NotEnoughMemory
    } else if code == error_invalid_parameter() {
        Win32Status::InvalidParameter
    } else if code == error_buffer_overflow() {
        Win32Status::BufferOverflow
    } else if code == error_no_data() {
        Win32Status::NoData
    } else if code == error_address_not_associated() {
        Win32Status::AddressNotAssociated
    } else {
        Win32Status::Other
    }
}

/// What the result of registering for address change notifications means:
/// success, or the error to hand to the caller.
pub open spec fn notify_outcome(code: u32) -> Result<(), Error> {
    match win32_status(code) {
        Win32Status::Success => Ok(()),
        Win32Status::InvalidHandle => Err(Error::InvalidHandle),
        Win32Status::InvalidParameter => Err(Error::InvalidParameter),
        Win32Status::NotEnoughMemory => Err(Error::NotEnoughMemory),
        _ => Err(Error::UnexpectedWindowsResult(code)),
    }
}

/// Judges the result of `NotifyUnicastIpAddressChange`.
pub fn check_notify_result(code: u32) -> (outcome: Result<(), Error>)
    ensures
        outcome == notify_outcome(code),
{
    match status_of(code) {
        Win32Status::Success => Ok(()),
        Win32Status::InvalidHandle => Err(Error::InvalidHandle),
        Win32Status::InvalidParameter => Err(Error::InvalidParameter),
        Win32Status::NotEnoughMemory => Err(Error::NotEnoughMemory),
        _ => Err(Error::UnexpectedWindowsResult(code)),
    }
}

/// What to do after one call for the adapter list.
#[derive(Debug, Clone, Copy, PartialEq, Eq, Structural)]
pub enum AdapterQuery {
    /// The buffer holds the adapters: read them.
    Ready,
    /// The buffer was too small: grow it to the size reported and call again.
    Retry,
    /// There are no adapters: the snapshot is empty.
    Empty,
}

/// What the result of asking for the adapter list means: how to go on, or
/// the error to hand to the caller.
pub open spec fn adapters_outcome(code: u32) -> Result<AdapterQuery, Error> {
    match win32_status(code) {
        Win32Status::Success => Ok(AdapterQuery::Ready),
        Win32Status::AddressNotAssociated => Err(Error::AddressNotAssociated),
        Win32Status::BufferOverflow => Ok(AdapterQuery::Retry),
        Win32Status::InvalidParameter => Err(Error::InvalidParameter),
        Win32Status::NotEnoughMemory => Err(Error::NotEnoughMemory),
        Win32Status::NoData => Ok(AdapterQuery::Empty),
        _ => Err(Error::UnexpectedWindowsResult(code)),
    }
}

/// Judges the result of `GetAdaptersAddresses`.
pub fn check_adapters_result(code: u32) -> (outcome: Result<AdapterQuery, Error>)
    ensures
        outcome == adapters_outcome(code),
{
    match status_of(code) {
        Win32Status::Success => Ok(AdapterQuery::Ready),
        Win32Status::AddressNotAssociated => Err(Error::AddressNotAssociated),
        Win32Status::BufferOverflow => Ok(AdapterQuery::Retry),
        Win32Status::InvalidParameter => Err(Error::InvalidParameter),
        Win32Status::NotEnoughMemory => Err(Error::NotEnoughMemory),
        Win32Status::NoData => Ok(AdapterQuery::Empty),
        _ => Err(Error::UnexpectedWindowsResult(code)),
    }
}

/// One adapter as the system reports it.
#[derive(Debug, Clone)]
pub struct Adapter {
    /// Operational status, as the system numbers it.
    pub oper_status: i32,
    /// Index of the adapter's IPv4 interface, 0 where it has none.
    pub ipv4_if_index: u32,
    /// Index of the adapter's IPv6 interface, 0 where it has none.
    pub ipv6_if_index: u32,
    /// The name shown to users.
    pub friendly_name: String,
    /// The bytes of the physical address, none where the adapter has none.
    pub physical_address: Vec<u8>,
    /// The unicast addresses, each with its on-link prefix length.
    pub unicast: Vec<IpRecord>,
}

impl Adapter {
    /// The index under which the adapter is listed: that of its IPv4
    /// interface, else that of its IPv6 interface, else none.
    pub open spec fn if_index(&self) -> Option<u32> {
        if self.ipv4_if_index != 0 {
            Some(self.ipv4_if_index)
        } else if self.ipv6_if_index != 0 {
            Some(self.ipv6_if_index)
        } else {
            None
        }
    }

    /// Whether the adapter appears in a snapshot: it is not down and has an
    /// index.
    pub open spec fn listed(&self) -> bool {
        self.oper_status != 2 && self.if_index() is Some
    }

    /// The interface that a listed adapter appears as. An adapter without
    /// a physical address shows the all-zero hardware address. A unicast
    /// address whose prefix length lies beyond what its family allows,
    /// which is how the system marks a prefix as not valid, is not listed.
    pub open spec fn interface(&self) -> InterfaceView {
        InterfaceView {
            index: self.if_index()->0,
            name: self.friendly_name@,
            hw_addr: hw_addr_text(self.physical_address@),
            ips: self.unicast@.to_set().filter(|r: IpRecord| r.prefix_in_range()),
        }
    }
}

/// The snapshot that the first `n` adapters give: each listed adapter
/// stands under its index, a later adapter replacing an earlier one of the
/// same index.
pub open spec fn snapshot_of(adapters: Seq<Adapter>, n: int) -> Snapshot
    decreases n,
{
    if n <= 0 {
        Map::empty()
    } else {
        let before = snapshot_of(adapters, n - 1);
        if adapters[n - 1].listed() {
            before.insert(adapters[n - 1].if_index()->0, adapters[n - 1].interface())
        } else {
            before
        }
    }
}

/// Builds the snapshot from the adapters that the system reports.
///
/// Adapters that are down are left out, and so are adapters without an
/// interface index. An adapter without any address still appears. No
/// interface stands under index 0, and every address listed has a prefix
/// length within what its family allows.
pub fn list_interfaces(adapters: &Vec<Adapter>) -> (listed: Result<List, Error>)
    ensures
        listed matches Ok(list) && list.wf() && list@ == snapshot_of(
            adapters@,
            adapters@.len() as int,
        ) && !list@.contains_key(0) && prefixes_in_range(list@),
{
    broadcast use group_hash_axioms;

    let mut ifs: HashMap<u32, Interface> = HashMap::new();
    let mut i: usize = 0;
    while i < adapters.len()
        invariant
            i <= adapters.len(),
            ifs@.map_values(|f: Interface| f@) == snapshot_of(adapters@, i as int),
            forall|k: u32| #[trigger]
                ifs@.contains_key(k) ==> ifs@[k].index == k && ifs@[k].wf() && k != 0,
            prefixes_in_range(ifs@.map_values(|f: Interface| f@)),
        decreases adapters.len() - i,
    {
        let adapter = &adapters[i];
        i += 1;
        if adapter.oper_status == if_oper_status_down() {
            continue;
        }
        let hw_addr = format_hw_addr(adapter.physical_address.as_slice())?;
        let ips = records_in_range(&adapter.unicast);
        let ifindex = if adapter.ipv4_if_index != 0 {
            adapter.ipv4_if_index
        } else if adapter.ipv6_if_index != 0 {
            adapter.ipv6_if_index
        } else {
            continue;
        };
        let interface = Interface {
            index: ifindex,
            name: adapter.friendly_name.clone(),
            hw_addr,
            ips,
        };
        assert(interface@ =~= adapter.interface());
        let ghost before = ifs@;
        let ghost views = before.map_values(|f: Interface| f@);
        ifs.insert(ifindex, interface);
        assert forall|k: u32, r: IpRecord|
            views.insert(ifindex, interface@).contains_key(k) && #[trigger] views.insert(
                ifindex,
                interface@,
            )[k].ips.contains(r) implies r.prefix_in_range() by {
            if k != ifindex {
                assert(views.contains_key(k) && views[k].ips.contains(r));
            }
        }
        assert(ifs@.map_values(|f: Interface| f@) =~= before.map_values(|f: Interface| f@).insert(
            ifindex,
            interface@,
        ));
    }
    let list = List(ifs);
    assert(!list@.contains_key(0));
    Ok(list)
}

/// A unicast address with a valid prefix length is listed: where no later
/// listed adapter takes the index of adapter `i`, the snapshot holds the
/// interface of adapter `i` under that index, with every such address of
/// the adapter among its addresses.
pub proof fn lemma_address_is_listed(adapters: Seq<Adapter>, i: int, n: int, record: IpRecord)
    requires
        0 <= i < n <= adapters.len(),
        adapters[i].listed(),
        adapters[i].unicast@.contains(record),
        record.prefix_in_range(),
        forall|j: int|
            i < j < adapters.len() && (#[trigger] adapters[j]).listed() ==> adapters[j].if_index()
                != adapters[i].if_index(),
    ensures
        snapshot_of(adapters, n).contains_key(adapters[i].if_index()->0),
        snapshot_of(adapters, n)[adapters[i].if_index()->0] == adapters[i].interface(),
        snapshot_of(adapters, n)[adapters[i].if_index()->0].ips.contains(record),
    decreases n,
{
    if i < n - 1 {
        lemma_address_is_listed(adapters, i, n - 1, record);
        assert(adapters[n - 1].listed() ==> adapters[n - 1].if_index() != adapters[i].if_index());
    }
}

} // verus!
