//! IP addresses with their prefix lengths, and the set operations on
//! collections of them that interface comparison and diffing rest on.

use vstd::prelude::*;

verus! {

/// An IPv4 or IPv6 address, held as the big-endian integer of its bytes.
#[derive(Debug, Clone, Copy, PartialEq, Eq, Hash, Structural)]
pub enum IpAddr {
    V4(u32),
    V6(u128),
}

/// The integer whose big-endian bytes are `a`, `b`, `c`, `d`.
pub open spec fn v4_bits(a: u8, b: u8, c: u8, d: u8) -> int {
    a as int * 0x100_0000 + b as int * 0x1_0000 + c as int * 0x100 + d as int
}

impl IpAddr {
    /// The IPv4 address written `a.b.c.d`.
    pub fn v4(a: u8, b: u8, c: u8, d: u8) -> (ip: IpAddr)
        ensures
            ip == IpAddr::V4(v4_bits(a, b, c, d) as u32),
            v4_bits(a, b, c, d) <= u32::MAX,
    {
        let hi: u32 = (a as u32) * 0x100_0000 + (b as u32) * 0x1_0000;
        let lo: u32 = (c as u32) * 0x100 + (d as u32);
        IpAddr::V4(hi + lo)
    }

    pub open spec fn spec_is_ipv4(&self) -> bool {
        *self is V4
    }

    pub open spec fn spec_is_ipv6(&self) -> bool {
        *self is V6
    }

    #[verifier::when_used_as_spec(spec_is_ipv4)]
    pub fn is_ipv4(&self) -> (b: bool)
        ensures
            b == (*self is V4),
    {
        match self {
            IpAddr::V4(_) => true,
            IpAddr::V6(_) => false,
        }
    }

    #[verifier::when_used_as_spec(spec_is_ipv6)]
    pub fn is_ipv6(&self) -> (b: bool)
        ensures
            b == (*self is V6),
    {
        match self {
            IpAddr::V4(_) => false,
            IpAddr::V6(_) => true,
        }
    }

    /// The widest prefix an address of this family can carry.
    pub open spec fn max_prefix_len(&self) -> int {
        match *self {
            IpAddr::V4(_) => 32,
            IpAddr::V6(_) => 128,
        }
    }
}

/// An IP address paired with its prefix length (network mask).
///
/// Two records are equal when both fields are: the same address under two
/// prefix lengths gives two distinct records.
#[derive(Debug, Clone, Copy, PartialEq, Eq, Hash, Structural)]
pub struct IpRecord {
    pub ip: IpAddr,
    pub prefix_len: u8,
}

impl IpRecord {
    /// The prefix length lies within what the address family allows.
    pub open spec fn prefix_in_range(&self) -> bool {
        self.prefix_len <= self.ip.max_prefix_len()
    }

    /// Whether the prefix length lies within what the address family
    /// allows: at most 32 for IPv4, at most 128 for IPv6.
    pub fn has_prefix_in_range(&self) -> (fits: bool)
        ensures
            fits == self.prefix_in_range(),
    {
        match self.ip {
            IpAddr::V4(_) => self.prefix_len <= 32,
            IpAddr::V6(_) => self.prefix_len <= 128,
        }
    }
}

/// Whether `records` holds `record`.
pub fn contains_record(records: &Vec<IpRecord>, record: IpRecord) -> (found: bool)
    ensures
        found == records@.contains(record),
{
    let mut i: usize = 0;
    while i < records.len()
        invariant
            i <= records.len(),
            forall|j: int| 0 <= j < i ==> records@[j] != record,
        decreases records.len() - i,
    {
        if records[i] == record {
            return true;
        }
        i += 1;
    }
    false
}

/// Whether every record of `left` occurs in `right`.
pub fn records_within(left: &Vec<IpRecord>, right: &Vec<IpRecord>) -> (within: bool)
    ensures
        within == left@.to_set().subset_of(right@.to_set()),
{
    let mut i: usize = 0;
    while i < left.len()
        invariant
            i <= left.len(),
            forall|j: int| 0 <= j < i ==> right@.contains(left@[j]),
        decreases left.len() - i,
    {
        if !contains_record(right, left[i]) {
            assert(left@.to_set().contains(left@[i as int]));
            return false;
        }
        i += 1;
    }
    assert forall|r: IpRecord| left@.to_set().contains(r) implies right@.to_set().contains(r) by {
        let j = choose|j: int| 0 <= j < left@.len() && left@[j] == r;
        assert(right@.contains(left@[j]));
    }
    true
}

/// Whether `left` and `right` hold the same records, whatever their order
/// and however often each occurs.
pub fn same_records(left: &Vec<IpRecord>, right: &Vec<IpRecord>) -> (same: bool)
    ensures
        same == (left@.to_set() == right@.to_set()),
{
    let same = records_within(left, right) && records_within(right, left);
    assert(same ==> left@.to_set() =~= right@.to_set());
    same
}

/// The records of `left` that `right` lacks, each once, in the order of
/// their first occurrence in `left`.
pub fn records_missing_from(left: &Vec<IpRecord>, right: &Vec<IpRecord>) -> (missing: Vec<IpRecord>)
    ensures
        missing@.no_duplicates(),
        missing@.to_set() == left@.to_set().difference(right@.to_set()),
{
    let mut missing: Vec<IpRecord> = Vec::new();
    let mut i: usize = 0;
    while i < left.len()
        invariant
            i <= left.len(),
            missing@.no_duplicates(),
            forall|j: int|
                0 <= j < missing@.len() ==> left@.contains(#[trigger] missing@[j])
                    && !right@.contains(missing@[j]),
            forall|j: int|
                0 <= j < i && !right@.contains(left@[j]) ==> missing@.contains(#[trigger] left@[j]),
        decreases left.len() - i,
    {
        let record = left[i];
        if !contains_record(right, record) && !contains_record(&missing, record) {
            let ghost before = missing@;
            missing.push(record);
            assert forall|j: int| 0 <= j <= i && !right@.contains(left@[j]) implies missing@.contains(
                #[trigger] left@[j],
            ) by {
                if j < i {
                    let k = choose|k: int| 0 <= k < before.len() && before[k] == left@[j];
                    assert(missing@[k] == left@[j]);
                } else {
                    assert(missing@[before.len() as int] == left@[j]);
                }
            }
        }
        i += 1;
    }
    assert(missing@.to_set() =~= left@.to_set().difference(right@.to_set())) by {
        assert forall|r: IpRecord|
            left@.to_set().difference(right@.to_set()).contains(r) implies missing@.to_set().contains(
            r,
        ) by {
            let j = choose|j: int| 0 <= j < left@.len() && left@[j] == r;
            assert(missing@.contains(left@[j]));
        }
    }
    missing
}

/// The records of `records` whose prefix length lies within what their
/// address family allows, each once, in the order of their first occurrence.
pub fn records_in_range(records: &Vec<IpRecord>) -> (kept: Vec<IpRecord>)
    ensures
        kept@.no_duplicates(),
        kept@.to_set() == records@.to_set().filter(|r: IpRecord| r.prefix_in_range()),
{
    let mut kept: Vec<IpRecord> = Vec::new();
    let mut i: usize = 0;
    while i < records.len()
        invariant
            i <= records.len(),
            kept@.no_duplicates(),
            forall|j: int|
                0 <= j < kept@.len() ==> records@.contains(#[trigger] kept@[j])
                    && kept@[j].prefix_in_range(),
            forall|j: int|
                0 <= j < i && records@[j].prefix_in_range() ==> kept@.contains(
                    #[trigger] records@[j],
                ),
        decreases records.len() - i,
    {
        let record = records[i];
        if record.has_prefix_in_range() && !contains_record(&kept, record) {
            let ghost before = kept@;
            kept.push(record);
            assert forall|j: int| 0 <= j <= i && records@[j].prefix_in_range() implies kept@.contains(
                #[trigger] records@[j],
            ) by {
                if j < i {
                    let k = choose|k: int| 0 <= k < before.len() && before[k] == records@[j];
                    assert(kept@[k] == records@[j]);
                } else {
                    assert(kept@[before.len() as int] == records@[j]);
                }
            }
        }
        i += 1;
    }
    assert(kept@.to_set() =~= records@.to_set().filter(|r: IpRecord| r.prefix_in_range())) by {
        assert forall|r: IpRecord|
            records@.to_set().filter(|r: IpRecord| r.prefix_in_range()).contains(
                r,
            ) implies kept@.to_set().contains(r) by {
            let j = choose|j: int| 0 <= j < records@.len() && records@[j] == r;
            assert(kept@.contains(records@[j]));
        }
    }
    kept
}

} // verus!
