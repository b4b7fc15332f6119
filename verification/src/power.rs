//! Power-source detection over observed sysfs entries, and the count of
//! compositor idle inhibitors.

use vstd::prelude::*;
use crate::text;

verus! {

/// One power-supply directory as the daemon read it: its name and the
/// contents of its `type` and `online` files, when readable.
#[derive(Debug)]
pub struct PowerSupplyEntry {
    pub name: String,
    pub type_content: Option<String>,
    pub online_content: Option<String>,
}

/// Whether an entry's `online` file reports `1`.
pub open spec fn entry_online(e: PowerSupplyEntry) -> bool {
    match e.online_content {
        Some(c) => text::trim_of(c@) == "1"@,
        None => false,
    }
}

/// Whether an entry is a mains supply by its `type` file.
pub open spec fn entry_is_mains(e: PowerSupplyEntry) -> bool {
    match e.type_content {
        Some(c) => text::trim_of(c@) == "Mains"@,
        None => false,
    }
}

/// Whether an entry carries one of the legacy adapter names.
pub open spec fn entry_has_legacy_name(e: PowerSupplyEntry) -> bool {
    ||| "AC"@.is_prefix_of(e.name@)
    ||| "ADP"@.is_prefix_of(e.name@)
    ||| "ACAD"@.is_prefix_of(e.name@)
    ||| "AC0"@.is_prefix_of(e.name@)
    ||| "ADP0"@.is_prefix_of(e.name@)
}

/// Whether one entry proves the machine is on mains power.
pub open spec fn entry_on_ac(e: PowerSupplyEntry) -> bool {
    (entry_is_mains(e) || entry_has_legacy_name(e)) && entry_online(e)
}

/// Decide whether the machine runs on mains power: some supply is a
/// mains adapter (by type, or by a legacy name) and online.
pub fn is_on_ac_power(entries: &Vec<PowerSupplyEntry>) -> (r: bool)
    ensures
        r == exists|i: int| 0 <= i < entries@.len() && entry_on_ac(#[trigger] entries@[i]),
{
    let mut i: usize = 0;
    while i < entries.len()
        invariant
            0 <= i <= entries@.len(),
            forall|k: int| 0 <= k < i ==> !entry_on_ac(#[trigger] entries@[k]),
        decreases entries@.len() - i,
    {
        let e = &entries[i];
        let is_mains = match &e.type_content {
            Some(c) => text::str_eq(text::trim_str(c.as_str()), "Mains"),
            None => false,
        };
        let legacy = text::has_prefix(e.name.as_str(), "AC") || text::has_prefix(
            e.name.as_str(),
            "ADP",
        ) || text::has_prefix(e.name.as_str(), "ACAD") || text::has_prefix(
            e.name.as_str(),
            "AC0",
        ) || text::has_prefix(e.name.as_str(), "ADP0");
        if is_mains || legacy {
            let online = match &e.online_content {
                Some(c) => text::str_eq(text::trim_str(c.as_str()), "1"),
                None => false,
            };
            if online {
                assert(entry_on_ac(entries@[i as int]));
                return true;
            }
        }
        i = i + 1;
    }
    false
}

/// The compositor's idle-inhibit bookkeeping: how many inhibitors are
/// held, and whether the configuration respects them.
#[derive(Clone, Copy, Debug, PartialEq, Eq, Structural)]
pub struct WaylandInhibitors {
    pub active_inhibitors: u32,
    pub respect_inhibitors: bool,
}

impl WaylandInhibitors {
    pub fn new(respect_inhibitors: bool) -> (r: WaylandInhibitors)
        ensures
            r.active_inhibitors == 0,
            r.respect_inhibitors == respect_inhibitors,
    {
        WaylandInhibitors { active_inhibitors: 0, respect_inhibitors }
    }

    /// Count one inhibitor in.
    pub fn inhibitor_created(&mut self)
        ensures
            final(self).active_inhibitors == if old(self).active_inhibitors < u32::MAX {
                old(self).active_inhibitors + 1
            } else {
                old(self).active_inhibitors as int
            },
            final(self).respect_inhibitors == old(self).respect_inhibitors,
    {
        if self.active_inhibitors < u32::MAX {
            self.active_inhibitors = self.active_inhibitors + 1;
        }
    }

    /// Count one inhibitor out; the count never goes below zero.
    pub fn inhibitor_removed(&mut self)
        ensures
            final(self).active_inhibitors == if old(self).active_inhibitors > 0 {
                old(self).active_inhibitors - 1
            } else {
                0int
            },
            final(self).respect_inhibitors == old(self).respect_inhibitors,
    {
        if self.active_inhibitors > 0 {
            self.active_inhibitors = self.active_inhibitors - 1;
        }
    }

    /// Whether the compositor's inhibitors gate the scheduler.
    pub fn is_inhibited(&self) -> (r: bool)
        ensures
            r == (self.respect_inhibitors && self.active_inhibitors > 0),
    {
        self.respect_inhibitors && self.active_inhibitors > 0
    }
}

} // verus!
