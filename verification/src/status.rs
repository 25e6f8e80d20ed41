//! What is known of a device from the packets it has sent.

use crate::v1::anc::{AncMode, AncPayload};
use crate::v1::battery::BatteryState;
use crate::v1::catalogue::PayloadCommand1;
use crate::v1::packet::{Packet, PacketContent};
use vstd::prelude::*;

verus! {

/// The charge of the device itself: one level, or left and right.
#[derive(Debug, PartialEq, Eq, Clone, Copy)]
pub enum UiDeviceBattery {
    Single(u8),
    Dual((u8, u8)),
}

/// The settings and charge that a device last reported.
#[derive(Debug, PartialEq, Eq, Clone, Copy)]
pub struct DeviceStatus {
    pub anc_mode: Option<AncPayload>,
    pub battery_device: Option<UiDeviceBattery>,
    pub battery_case: Option<u8>,
}

/// The ambient level that goes with switching ambient sound on.
pub const AMBIENT_LEVEL: u8 = 17;

impl DeviceStatus {
    /// The status of a device that has reported nothing yet.
    pub open spec fn unknown() -> DeviceStatus {
        DeviceStatus { anc_mode: None, battery_device: None, battery_case: None }
    }

    /// The status after `state` was reported.
    pub open spec fn with_battery(self, state: BatteryState) -> DeviceStatus {
        match state {
            BatteryState::Single { level, .. } => DeviceStatus {
                battery_device: Some(UiDeviceBattery::Single(level)),
                ..self
            },
            BatteryState::Case { level, .. } => DeviceStatus { battery_case: Some(level), ..self },
            BatteryState::Dual { level_left, level_right, .. } => DeviceStatus {
                battery_device: Some(UiDeviceBattery::Dual((level_left, level_right))),
                ..self
            },
        }
    }

    /// The status after `packet` arrived: a reply or a notification of the
    /// ambient sound control settings or of a battery replaces what was
    /// known of it; any other packet changes nothing.
    pub open spec fn updated(self, packet: Packet) -> DeviceStatus {
        match packet.content {
            PacketContent::Command1(PayloadCommand1::AmbientSoundControlRet(p)) => DeviceStatus {
                anc_mode: Some(p),
                ..self
            },
            PacketContent::Command1(PayloadCommand1::AmbientSoundControlNotify(p)) => DeviceStatus {
                anc_mode: Some(p),
                ..self
            },
            PacketContent::Command1(PayloadCommand1::BatteryLevelReply(b)) => self.with_battery(b),
            PacketContent::Command1(PayloadCommand1::BatteryLevelNotify(b)) => self.with_battery(
                b,
            ),
            _ => self,
        }
    }

    /// The settings to ask for when the user steps to the next mode: from
    /// off to ambient sound, to noise cancelling, to wind reduction and back
    /// to off; noise cancelling where nothing is known yet.
    pub open spec fn spec_next_anc_mode(self) -> AncPayload {
        match self.anc_mode {
            Some(current) => match current.anc_mode {
                AncMode::Off => AncPayload {
                    anc_mode: AncMode::AmbiantMode,
                    focus_on_voice: false,
                    ambiant_level: AMBIENT_LEVEL,
                },
                AncMode::AmbiantMode => AncPayload {
                    anc_mode: AncMode::On,
                    focus_on_voice: false,
                    ambiant_level: 0,
                },
                AncMode::On => AncPayload {
                    anc_mode: AncMode::Wind,
                    focus_on_voice: false,
                    ambiant_level: 0,
                },
                AncMode::Wind => AncPayload {
                    anc_mode: AncMode::Off,
                    focus_on_voice: false,
                    ambiant_level: 0,
                },
            },
            None => AncPayload { anc_mode: AncMode::On, focus_on_voice: false, ambiant_level: 0 },
        }
    }

    /// How many battery levels there are to show.
    pub open spec fn spec_gauge_count(self) -> nat {
        let device: nat = match self.battery_device {
            Some(UiDeviceBattery::Single(_)) => 1,
            Some(UiDeviceBattery::Dual(_)) => 2,
            None => 0,
        };
        let case: nat = if self.battery_case is Some {
            1
        } else {
            0
        };
        device + case
    }

    /// The status of a device that has reported nothing yet.
    pub fn new() -> (r: Self)
        ensures
            r == DeviceStatus::unknown(),
    {
        DeviceStatus { anc_mode: None, battery_device: None, battery_case: None }
    }

    /// Takes note of what `packet` reports.
    pub fn handle_stream_event(&mut self, packet: Packet)
        ensures
            *final(self) == old(self).updated(packet),
    {
        match packet.content {
            PacketContent::Command1(c) => match c {
                PayloadCommand1::AmbientSoundControlRet(n)
                | PayloadCommand1::AmbientSoundControlNotify(n) => {
                    self.anc_mode = Some(n);
                },
                PayloadCommand1::BatteryLevelReply(b) | PayloadCommand1::BatteryLevelNotify(b) => {
                    match b {
                        BatteryState::Single { level, is_charging: _ } => {
                            self.battery_device = Some(UiDeviceBattery::Single(level));
                        },
                        BatteryState::Case { level, is_charging: _ } => {
                            self.battery_case = Some(level);
                        },
                        BatteryState::Dual {
                            level_left,
                            is_left_charging: _,
                            level_right,
                            is_right_charging: _,
                        } => {
                            self.battery_device = Some(
                                UiDeviceBattery::Dual((level_left, level_right)),
                            );
                        },
                    }
                },
                _ => (),
            },
            _ => (),
        }
    }

    /// The settings to ask for when the user steps to the next mode.
    #[verifier::when_used_as_spec(spec_next_anc_mode)]
    pub fn next_anc_mode(self) -> (r: AncPayload)
        ensures
            r == self.spec_next_anc_mode(),
    {
        match self.anc_mode {
            Some(current) => match current.anc_mode {
                AncMode::Off => AncPayload {
                    anc_mode: AncMode::AmbiantMode,
                    focus_on_voice: false,
                    ambiant_level: AMBIENT_LEVEL,
                },
                AncMode::AmbiantMode => AncPayload {
                    anc_mode: AncMode::On,
                    focus_on_voice: false,
                    ambiant_level: 0,
                },
                AncMode::On => AncPayload {
                    anc_mode: AncMode::Wind,
                    focus_on_voice: false,
                    ambiant_level: 0,
                },
                AncMode::Wind => AncPayload {
                    anc_mode: AncMode::Off,
                    focus_on_voice: false,
                    ambiant_level: 0,
                },
            },
            None => AncPayload { anc_mode: AncMode::On, focus_on_voice: false, ambiant_level: 0 },
        }
    }

    /// How many battery levels there are to show.
    pub fn gauge_count(&self) -> (r: usize)
        ensures
            r == self.spec_gauge_count(),
    {
        let device: usize = match self.battery_device {
            Some(UiDeviceBattery::Single(_)) => 1,
            Some(UiDeviceBattery::Dual(_)) => 2,
            None => 0,
        };
        if self.battery_case.is_some() {
            device + 1
        } else {
            device
        }
    }
}

} // verus!
