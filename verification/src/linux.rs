//! The decisions of the Linux watcher's worker, which sleeps in `poll` on a
//! netlink socket and on the pipe that the handle closes to stop it.

use crate::error::Error;
use crate::list::List;
use crate::watch::{notif, step, Update, WatchState};
use vstd::prelude::*;

verus! {

/// Netlink multicast group for link changes.
pub const RTMGRP_LINK: u32 = 0x01;

/// Netlink multicast group for IPv4 address changes.
pub const RTMGRP_IPV4_IFADDR: u32 = 0x10;

/// Netlink multicast group for IPv6 address changes.
pub const RTMGRP_IPV6_IFADDR: u32 = 0x20;

/// The size of the buffer that netlink messages are read into, unparsed.
pub const RECEIVE_BUFFER_LEN: usize = 4096;

/// The group mask that the watcher's netlink socket is bound to: link
/// changes and address changes of both families.
pub fn netlink_groups() -> (groups: u32)
    ensures
        groups == 0x31,
        groups == RTMGRP_LINK | RTMGRP_IPV4_IFADDR | RTMGRP_IPV6_IFADDR,
{
    assert(0x01u32 | 0x10u32 | 0x20u32 == 0x31u32) by (bit_vector);
    RTMGRP_LINK | RTMGRP_IPV4_IFADDR | RTMGRP_IPV6_IFADDR
}

/// Whether the worker reads from the netlink socket after `poll` returned
/// `revents` for it: it does on any event.
pub fn socket_ready(revents: i16) -> (ready: bool)
    ensures
        ready == (revents != 0),
{
    revents != 0
}

/// What the worker does once `poll` has returned and the socket, if ready,
/// has been read. `received` is `None` where the socket was not ready or
/// the read failed, and else the attempt to take a fresh snapshot.
///
/// The snapshot attempt is handled as any change notification is. The
/// worker then leaves its loop if `poll` reported anything for the pipe,
/// its closing included.
pub fn worker_iteration(
    state: &mut WatchState,
    received: Option<Result<List, Error>>,
    pipe_revents: i16,
) -> (decided: (Option<Update>, bool))
    ensures
        decided.1 == (pipe_revents != 0),
        !(received matches Some(Ok(_))) ==> decided.0 is None && final(state)@ == old(state)@,
        received matches Some(Ok(new_list)) ==> {
            &&& final(state)@ == step(old(state)@, new_list@).0
            &&& match decided.0 {
                Some(u) => step(old(state)@, new_list@).1 == Some(u@) && u.diff.wf(),
                None => step(old(state)@, new_list@).1 is None,
            }
        },
{
    let update = match received {
        Some(snapshot) => notif(state, snapshot),
        None => None,
    };
    (update, pipe_revents != 0)
}

} // verus!
