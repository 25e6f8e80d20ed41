//! The packet model and the payload catalogue of protocol version 1.

pub mod anc;
pub mod battery;
pub mod catalogue;
pub mod packet;
pub mod payload;

pub use anc::{AncMode, AncPayload, GetAnc};
pub use battery::{BatteryState, BatteryType};
pub use catalogue::PayloadCommand1;
pub use packet::{Packet, PacketContent};
pub use payload::Payload;
