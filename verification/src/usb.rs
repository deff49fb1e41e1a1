//! Identity of the touchpad on the USB bus and of its vendor-specific interface.
use vstd::prelude::*;

verus! {

/// Vendor id (shared pid.codes / V-USB id).
pub const USB_VID: u16 = 0x16c0;

/// Product id.
pub const USB_PID: u16 = 0x27dd;

/// Interface class of the reporting interfaces: vendor specific.
pub const VENDOR_CLASS: u8 = 0xff;

/// Interface subclass and protocol of the reporting interfaces: none.
pub const NO_DETAIL: u8 = 0;

} // verus!
