//! # netwatcher
//!
//! The verified core of a library that lists the network interfaces of a
//! host with their IP addresses and watches them for change: the data model
//! of a snapshot, the diff between two snapshots, the change detector that
//! decides when a watcher has something to report, and the rules by which
//! each platform's raw interface data becomes a snapshot.
//!
//! Nothing here talks to the operating system. Whoever does hands the raw
//! data in as plain values and gets plain values back.

pub mod addr;
pub mod android;
pub mod demo;
pub mod diff;
pub mod error;
pub mod interface;
pub mod linux;
pub mod list;
pub mod mac;
pub mod unix;
pub mod watch;
pub mod win;

pub use addr::{IpAddr, IpRecord};
pub use diff::{InterfaceDiff, UpdateDiff};
pub use error::Error;
pub use interface::Interface;
pub use list::List;
pub use watch::{Update, WatchState};
