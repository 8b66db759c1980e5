//! Descriptions of discovered game-controller input devices.  The
//! polling of the controllers themselves is operating-system work and
//! stays outside the library; what comes in are the discovered facts.

use crate::text::dec_rep;
use crate::text::u64_to_string;
use vstd::prelude::*;
use vstd::string::StringExecFns;

verus! {

/// Information about a discovered input device.
pub struct DeviceInfo {
    pub id: u32,
    pub name: String,
    pub num_axes: u32,
    pub num_buttons: u32,
}

impl DeviceInfo {
    /// The human-readable description of the device:
    /// `"{name} ({num_axes} axes, {num_buttons} buttons)"`.
    pub open spec fn display_spec(&self) -> Seq<char> {
        self.name@ + " ("@ + dec_rep(self.num_axes as nat) + " axes, "@ + dec_rep(
            self.num_buttons as nat,
        ) + " buttons)"@
    }

    /// Convert device info to a human-readable string.
    pub fn to_display_string(&self) -> (s: String)
        ensures
            s@ == self.display_spec(),
    {
        let mut s = self.name.clone();
        s.append(" (");
        let axes = u64_to_string(self.num_axes as u64);
        s.append(axes.as_str());
        s.append(" axes, ");
        let buttons = u64_to_string(self.num_buttons as u64);
        s.append(buttons.as_str());
        s.append(" buttons)");
        s
    }
}

} // verus!
