//! Sans-I/O protocol engine for Sony audio devices that speak a framed binary
//! protocol over an RFCOMM channel.
//!
//! The crate consumes bytes handed to it and produces bytes to be written; it
//! owns neither a socket nor a clock.

pub mod error;
pub mod facade;
pub mod device;
pub mod device_session;
pub mod frame;
pub mod intake;
pub mod laws;
pub mod status;
pub mod v1;

use vstd::prelude::*;

verus! {

/// The service on which a device listens for this protocol, as the number
/// that its UUID 96CC203E-5068-46AD-B32D-E316F5E069BA stands for.
pub const SERVICE_UUID: u128 = 0x96CC203E_5068_46AD_B32D_E316F5E069BA;

} // verus!
