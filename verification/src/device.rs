//! The devices that the detector runs on.

use crate::text::same_text;
use vstd::prelude::*;

verus! {

/// The devices that are supported, by their internal names.
#[derive(Clone, Copy, Debug, PartialEq, Eq, Structural)]
pub enum Device {
    Orbic,
    Tplink,
    Tmobile,
    Wingtech,
    Pinephone,
    Uz801,
    Moxee,
}

impl Device {
    /// The name of the device as configurations spell it: in lower case.
    pub open spec fn spec_name(self) -> Seq<char> {
        match self {
            Device::Orbic => "orbic"@,
            Device::Tplink => "tplink"@,
            Device::Tmobile => "tmobile"@,
            Device::Wingtech => "wingtech"@,
            Device::Pinephone => "pinephone"@,
            Device::Uz801 => "uz801"@,
            Device::Moxee => "moxee"@,
        }
    }

    /// The name of the device as configurations spell it.
    pub fn name(self) -> (name: &'static str)
        ensures
            name@ == self.spec_name(),
    {
        match self {
            Device::Orbic => "orbic",
            Device::Tplink => "tplink",
            Device::Tmobile => "tmobile",
            Device::Wingtech => "wingtech",
            Device::Pinephone => "pinephone",
            Device::Uz801 => "uz801",
            Device::Moxee => "moxee",
        }
    }

    /// Whether the device can join a Wi-Fi network as a client.
    pub open spec fn spec_is_wifi_capable(self) -> bool {
        self is Orbic || self is Moxee
    }

    /// Says whether the device can join a Wi-Fi network as a client.
    pub fn is_wifi_capable(self) -> (b: bool)
        ensures
            b == self.spec_is_wifi_capable(),
    {
        match self {
            Device::Orbic | Device::Moxee => true,
            _ => false,
        }
    }
}

/// Whether a device name is that of a device that can join a Wi-Fi network
/// as a client.
pub open spec fn is_wifi_capable_name(name: Seq<char>) -> bool {
    name == "orbic"@ || name == "moxee"@
}

/// Says whether a device name is that of a device that can join a Wi-Fi
/// network as a client.
pub fn wifi_capable_name(name: &str) -> (b: bool)
    ensures
        b == is_wifi_capable_name(name@),
{
    same_text(name, "orbic") || same_text(name, "moxee")
}

} // verus!
