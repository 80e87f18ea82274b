//! One network interface at a point in time.

use crate::addr::{same_records, IpAddr, IpRecord};
use vstd::prelude::*;
use vstd::std_specs::cmp::PartialEqSpecImpl;

verus! {

/// Information about one network interface at a point in time.
#[derive(Debug, Clone)]
pub struct Interface {
    /// Index the operating system identifies this interface by.
    pub index: u32,
    /// Interface name.
    pub name: String,
    /// Hardware address, as upper-case hexadecimal byte pairs joined by colons.
    pub hw_addr: String,
    /// Associated IPs, each with its prefix length (netmask).
    pub ips: Vec<IpRecord>,
}

/// What an [`Interface`] stands for: its addresses form a set, so the order
/// in which `ips` lists them carries no meaning.
#[verifier::ext_equal]
pub struct InterfaceView {
    pub index: u32,
    pub name: Seq<char>,
    pub hw_addr: Seq<char>,
    pub ips: Set<IpRecord>,
}

impl View for Interface {
    type V = InterfaceView;

    open spec fn view(&self) -> InterfaceView {
        InterfaceView {
            index: self.index,
            name: self.name@,
            hw_addr: self.hw_addr@,
            ips: self.ips@.to_set(),
        }
    }
}

/// The IPv4 addresses among `records`, in their order.
pub open spec fn v4_addrs(records: Seq<IpRecord>) -> Seq<u32>
    decreases records.len(),
{
    if records.len() == 0 {
        Seq::empty()
    } else {
        let rest = v4_addrs(records.drop_last());
        match records.last().ip {
            IpAddr::V4(bits) => rest.push(bits),
            IpAddr::V6(_) => rest,
        }
    }
}

/// The IPv6 addresses among `records`, in their order.
pub open spec fn v6_addrs(records: Seq<IpRecord>) -> Seq<u128>
    decreases records.len(),
{
    if records.len() == 0 {
        Seq::empty()
    } else {
        let rest = v6_addrs(records.drop_last());
        match records.last().ip {
            IpAddr::V4(_) => rest,
            IpAddr::V6(bits) => rest.push(bits),
        }
    }
}

impl Interface {
    /// No address record is listed twice.
    pub open spec fn wf(&self) -> bool {
        self.ips@.no_duplicates()
    }

    /// Only the IPv4 addresses on this interface.
    pub fn ipv4_ips(&self) -> (addrs: Vec<u32>)
        ensures
            addrs@ == v4_addrs(self.ips@),
    {
        let mut addrs: Vec<u32> = Vec::new();
        let mut i: usize = 0;
        while i < self.ips.len()
            invariant
                i <= self.ips.len(),
                addrs@ == v4_addrs(self.ips@.take(i as int)),
            decreases self.ips.len() - i,
        {
            assert(self.ips@.take(i + 1).drop_last() == self.ips@.take(i as int));
            if let IpAddr::V4(bits) = self.ips[i].ip {
                addrs.push(bits);
            }
            i += 1;
        }
        assert(self.ips@.take(i as int) == self.ips@);
        addrs
    }

    /// Only the IPv6 addresses on this interface.
    pub fn ipv6_ips(&self) -> (addrs: Vec<u128>)
        ensures
            addrs@ == v6_addrs(self.ips@),
    {
        let mut addrs: Vec<u128> = Vec::new();
        let mut i: usize = 0;
        while i < self.ips.len()
            invariant
                i <= self.ips.len(),
                addrs@ == v6_addrs(self.ips@.take(i as int)),
            decreases self.ips.len() - i,
        {
            assert(self.ips@.take(i + 1).drop_last() == self.ips@.take(i as int));
            if let IpAddr::V6(bits) = self.ips[i].ip {
                addrs.push(bits);
            }
            i += 1;
        }
        assert(self.ips@.take(i as int) == self.ips@);
        addrs
    }
}

impl PartialEq for Interface {
    /// Index, name and hardware address agree, and the two list the same
    /// addresses in any order.
    fn eq(&self, other: &Interface) -> (same: bool) {
        let same = self.index == other.index && self.name == other.name && self.hw_addr
            == other.hw_addr && same_records(&self.ips, &other.ips);
        assert(same ==> self@ =~= other@);
        same
    }
}

impl PartialEqSpecImpl for Interface {
    open spec fn obeys_eq_spec() -> bool {
        true
    }

    open spec fn eq_spec(&self, other: &Interface) -> bool {
        self@ == other@
    }
}

impl Eq for Interface {

}

} // verus!
