//! The bookkeeping of the Android demo application: a watcher handle and a
//! callback into the user interface, each kept in a process-wide cell that
//! comes into being on first use.

use crate::error::Error;
use vstd::prelude::*;
use vstd::string::StringExecFns;

verus! {

/// A process-wide cell.
#[derive(Debug)]
pub enum Slot<T> {
    /// Nothing has used the cell yet.
    Uninitialised,
    /// The cell exists and holds nothing.
    Unset,
    /// The cell holds a value.
    Holding(T),
}

impl<T> Slot<T> {
    /// The value held, if any.
    pub open spec fn held(self) -> Option<T> {
        match self {
            Slot::Holding(value) => Some(value),
            _ => None,
        }
    }

    /// The cell after it has been emptied: a cell never used stays so.
    pub open spec fn cleared(self) -> Slot<T> {
        match self {
            Slot::Uninitialised => Slot::Uninitialised,
            _ => Slot::Unset,
        }
    }

    /// Empties the cell and hands out what it held.
    pub fn clear(&mut self) -> (value: Option<T>)
        ensures
            *final(self) == old(self).cleared(),
            value == old(self).held(),
    {
        let mut taken = Slot::Unset;
        std::mem::swap(self, &mut taken);
        match taken {
            Slot::Uninitialised => {
                *self = Slot::Uninitialised;
                None
            },
            Slot::Unset => None,
            Slot::Holding(value) => Some(value),
        }
    }
}

/// What to do about an update that is meant for the user interface.
#[derive(Debug)]
pub enum GuiNotice<'a, C> {
    /// Hand the text to this callback.
    Deliver(&'a C),
    /// Warn that the callback is unset.
    CallbackUnset,
    /// Warn that no callback was ever registered.
    CallbackUninitialised,
}

/// Takes in the attempt to start watching. A handle that was obtained is
/// stored, and the handle it replaces is handed back, to be dropped; a
/// failure leaves the cell as it was and is handed back, to be logged.
pub fn start_interface_watching<H>(watcher: &mut Slot<H>, started: Result<H, Error>) -> (outcome:
    Result<Option<H>, Error>)
    ensures
        match started {
            Ok(handle) => *final(watcher) == Slot::Holding(handle) && outcome == Ok::<
                Option<H>,
                Error,
            >(old(watcher).held()),
            Err(e) => *final(watcher) == *old(watcher) && outcome == Err::<Option<H>, Error>(e),
        },
{
    match started {
        Ok(handle) => {
            let replaced = watcher.clear();
            *watcher = Slot::Holding(handle);
            Ok(replaced)
        },
        Err(e) => Err(e),
    }
}

/// Stops watching: empties both cells and hands back what they held, the
/// handle first. The third part tells whether the handle's cell was in use,
/// the one case in which the stop is worth a log line.
pub fn stop_interface_watching<H, C>(watcher: &mut Slot<H>, gui_callback: &mut Slot<C>) -> (stopped: (
    Option<H>,
    Option<C>,
    bool,
))
    ensures
        *final(watcher) == old(watcher).cleared(),
        *final(gui_callback) == old(gui_callback).cleared(),
        stopped.0 == old(watcher).held(),
        stopped.1 == old(gui_callback).held(),
        stopped.2 == !(*old(watcher) is Uninitialised),
{
    let was_in_use = match watcher {
        Slot::Uninitialised => false,
        _ => true,
    };
    let handle = watcher.clear();
    let callback = gui_callback.clear();
    (handle, callback, was_in_use)
}

/// Decides what becomes of a text for the user interface: it goes to the
/// callback that the cell holds, or a warning says why it goes nowhere.
pub fn notify_java_gui<'a, C>(gui_callback: &'a Slot<C>) -> (notice: GuiNotice<'a, C>)
    ensures
        match *gui_callback {
            Slot::Holding(callback) => notice == GuiNotice::Deliver(&callback),
            Slot::Unset => notice is CallbackUnset,
            Slot::Uninitialised => notice is CallbackUninitialised,
        },
{
    match gui_callback {
        Slot::Holding(callback) => GuiNotice::Deliver(callback),
        Slot::Unset => GuiNotice::CallbackUnset,
        Slot::Uninitialised => GuiNotice::CallbackUninitialised,
    }
}

/// What the user interface shows of one interface: its name, and each of
/// its addresses as text.
#[derive(Debug, Clone)]
pub struct InterfaceLines {
    pub name: String,
    pub addresses: Vec<String>,
}

/// The lines for the first `n` of `addresses`: each indented by two spaces.
pub open spec fn address_lines(addresses: Seq<String>, n: int) -> Seq<char>
    decreases n,
{
    if n <= 0 {
        Seq::empty()
    } else {
        address_lines(addresses, n - 1) + "  "@ + addresses[n - 1]@ + "\n"@
    }
}

/// The paragraph for one interface: its name with a colon, then its
/// addresses or a line that says there are none, then an empty line.
pub open spec fn interface_paragraph(interface: InterfaceLines) -> Seq<char> {
    interface.name@ + ":\n"@ + (if interface.addresses@.len() == 0 {
        "  No IP addresses\n"@
    } else {
        address_lines(interface.addresses@, interface.addresses@.len() as int)
    }) + "\n"@
}

/// The paragraphs for the first `n` of `interfaces`.
pub open spec fn interface_paragraphs(interfaces: Seq<InterfaceLines>, n: int) -> Seq<char>
    decreases n,
{
    if n <= 0 {
        Seq::empty()
    } else {
        interface_paragraphs(interfaces, n - 1) + interface_paragraph(interfaces[n - 1])
    }
}

/// The text that the user interface shows for `interfaces`.
pub open spec fn interfaces_text(interfaces: Seq<InterfaceLines>) -> Seq<char> {
    if interfaces.len() == 0 {
        "No network interfaces found"@
    } else {
        interface_paragraphs(interfaces, interfaces.len() as int)
    }
}

/// Renders the interfaces for the user interface: one paragraph for each,
/// in their order, or a single line where there are none.
pub fn format_interfaces(interfaces: &Vec<InterfaceLines>) -> (result: String)
    ensures
        result@ == interfaces_text(interfaces@),
{
    let mut result = String::new();

    if interfaces.len() == 0 {
        result.append("No network interfaces found");
        assert(result@ =~= "No network interfaces found"@);
        return result;
    }
    let mut i: usize = 0;
    while i < interfaces.len()
        invariant
            i <= interfaces.len(),
            result@ == interface_paragraphs(interfaces@, i as int),
        decreases interfaces.len() - i,
    {
        let interface = &interfaces[i];
        let ghost before = result@;
        result.append(interface.name.as_str());
        result.append(":\n");

        if interface.addresses.len() == 0 {
            result.append("  No IP addresses\n");
        } else {
            let ghost head = result@;
            let mut j: usize = 0;
            while j < interface.addresses.len()
                invariant
                    j <= interface.addresses.len(),
                    result@ == head + address_lines(interface.addresses@, j as int),
                decreases interface.addresses.len() - j,
            {
                result.append("  ");
                result.append(interface.addresses[j].as_str());
                result.append("\n");
                j += 1;
            }
        }
        result.append("\n");
        assert(result@ =~= before + interface_paragraph(*interface));
        i += 1;
    }
    result
}

} // verus!
