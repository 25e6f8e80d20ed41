//! Battery queries and reports.

use crate::error::Error;
use crate::v1::payload::{flag_byte, put, Payload};
use vstd::prelude::*;
use vstd::std_specs::convert::TryFromSpecImpl;

verus! {

/// Which battery a query or a report is about.
#[derive(Debug, PartialEq, Eq, Clone, Copy)]
pub enum BatteryType {
    Single,
    Dual,
    Case,
}

impl BatteryType {
    /// The byte that stands for the type on the wire.
    pub open spec fn spec_code(self) -> u8 {
        match self {
            BatteryType::Single => 0,
            BatteryType::Dual => 1,
            BatteryType::Case => 2,
        }
    }

    /// The byte that stands for the type on the wire.
    #[verifier::when_used_as_spec(spec_code)]
    pub fn code(self) -> (r: u8)
        ensures
            r == self.spec_code(),
    {
        match self {
            BatteryType::Single => 0,
            BatteryType::Dual => 1,
            BatteryType::Case => 2,
        }
    }
}

impl TryFrom<u8> for BatteryType {
    type Error = Error;

    fn try_from(value: u8) -> (r: Result<Self, Error>) {
        match value {
            0 => Ok(BatteryType::Single),
            1 => Ok(BatteryType::Dual),
            2 => Ok(BatteryType::Case),
            value => Err(Error::InvalidValueForEnum { what: "battery type", value }),
        }
    }
}

/// The battery type that the byte `value` stands for.
pub open spec fn parse_battery_type(value: u8) -> Result<BatteryType, Error> {
    match value {
        0 => Ok(BatteryType::Single),
        1 => Ok(BatteryType::Dual),
        2 => Ok(BatteryType::Case),
        value => Err(Error::InvalidValueForEnum { what: "battery type", value }),
    }
}

impl TryFromSpecImpl<u8> for BatteryType {
    open spec fn obeys_try_from_spec() -> bool {
        true
    }

    open spec fn try_from_spec(value: u8) -> Result<Self, Error> {
        parse_battery_type(value)
    }
}

/// The charge of a device's battery or batteries.
#[derive(Debug, PartialEq, Eq, Clone, Copy)]
pub enum BatteryState {
    Single { level: u8, is_charging: bool },
    Case { level: u8, is_charging: bool },
    Dual { level_left: u8, is_left_charging: bool, level_right: u8, is_right_charging: bool },
}

/// The report that `value` holds: a type byte, then a level and a charging
/// flag for each battery.
///
/// A dual report whose left level is zero stands for the right battery alone,
/// and one whose right level is zero for the left battery alone: a device
/// reports an absent earbud as level zero.
pub open spec fn parse_battery_state(value: Seq<u8>) -> Result<BatteryState, Error> {
    if value.len() == 0 {
        Err(Error::MissingBytes)
    } else {
        match parse_battery_type(value[0]) {
            Err(e) => Err(e),
            Ok(BatteryType::Single) => if value.len() < 3 {
                Err(Error::MissingBytes)
            } else {
                Ok(BatteryState::Single { level: value[1], is_charging: value[2] == 1 })
            },
            Ok(BatteryType::Case) => if value.len() < 3 {
                Err(Error::MissingBytes)
            } else {
                Ok(BatteryState::Case { level: value[1], is_charging: value[2] == 1 })
            },
            Ok(BatteryType::Dual) => if value.len() < 5 {
                Err(Error::MissingBytes)
            } else if value[1] == 0 {
                Ok(BatteryState::Single { level: value[3], is_charging: value[4] == 1 })
            } else if value[3] == 0 {
                Ok(BatteryState::Single { level: value[1], is_charging: value[2] == 1 })
            } else {
                Ok(
                    BatteryState::Dual {
                        level_left: value[1],
                        is_left_charging: value[2] == 1,
                        level_right: value[3],
                        is_right_charging: value[4] == 1,
                    },
                )
            },
        }
    }
}

impl BatteryState {
    /// The type byte that a report of this state starts with.
    pub open spec fn battery_type(self) -> BatteryType {
        match self {
            BatteryState::Single { .. } => BatteryType::Single,
            BatteryState::Case { .. } => BatteryType::Case,
            BatteryState::Dual { .. } => BatteryType::Dual,
        }
    }

    /// The report that stands for the state: five bytes for two batteries,
    /// three otherwise.
    pub open spec fn bytes(self) -> Seq<u8> {
        match self {
            BatteryState::Single { level, is_charging } => seq![0u8, level, flag_byte(is_charging)],
            BatteryState::Case { level, is_charging } => seq![2u8, level, flag_byte(is_charging)],
            BatteryState::Dual { level_left, is_left_charging, level_right, is_right_charging } => seq![
                1u8,
                level_left,
                flag_byte(is_left_charging),
                level_right,
                flag_byte(is_right_charging),
            ],
        }
    }

    /// Whether reading the report of this state gives the state back: a dual
    /// state with a level of zero reads as a single battery.
    pub open spec fn survives_round_trip(self) -> bool {
        match self {
            BatteryState::Dual { level_left, level_right, .. } => level_left != 0 && level_right
                != 0,
            _ => true,
        }
    }

    /// Appends the report of the state to `out`.
    pub fn append_to(&self, out: &mut Vec<u8>)
        ensures
            final(out)@ == old(out)@ + self.bytes(),
    {
        match self {
            BatteryState::Single { level, is_charging } => {
                out.push(0);
                out.push(*level);
                out.push(if *is_charging { 1 } else { 0 });
            },
            BatteryState::Case { level, is_charging } => {
                out.push(2);
                out.push(*level);
                out.push(if *is_charging { 1 } else { 0 });
            },
            BatteryState::Dual { level_left, is_left_charging, level_right, is_right_charging } => {
                out.push(1);
                out.push(*level_left);
                out.push(if *is_left_charging { 1 } else { 0 });
                out.push(*level_right);
                out.push(if *is_right_charging { 1 } else { 0 });
            },
        }
        assert(out@ =~= old(out)@ + self.bytes());
    }
}

impl<'a> TryFrom<&'a [u8]> for BatteryState {
    type Error = Error;

    fn try_from(value: &'a [u8]) -> (r: Result<Self, Error>) {
        if value.len() == 0 {
            return Err(Error::MissingBytes);
        }
        let battery_type = match BatteryType::try_from(value[0]) {
            Ok(t) => t,
            Err(e) => { return Err(e); },
        };
        match battery_type {
            BatteryType::Single => {
                if value.len() < 3 {
                    return Err(Error::MissingBytes);
                }
                Ok(BatteryState::Single { level: value[1], is_charging: value[2] == 1 })
            },
            BatteryType::Case => {
                if value.len() < 3 {
                    return Err(Error::MissingBytes);
                }
                Ok(BatteryState::Case { level: value[1], is_charging: value[2] == 1 })
            },
            BatteryType::Dual => {
                if value.len() < 5 {
                    return Err(Error::MissingBytes);
                }
                if value[1] == 0 {
                    Ok(BatteryState::Single { level: value[3], is_charging: value[4] == 1 })
                } else if value[3] == 0 {
                    Ok(BatteryState::Single { level: value[1], is_charging: value[2] == 1 })
                } else {
                    Ok(
                        BatteryState::Dual {
                            level_left: value[1],
                            is_left_charging: value[2] == 1,
                            level_right: value[3],
                            is_right_charging: value[4] == 1,
                        },
                    )
                }
            },
        }
    }
}

impl<'a> TryFromSpecImpl<&'a [u8]> for BatteryState {
    open spec fn obeys_try_from_spec() -> bool {
        true
    }

    open spec fn try_from_spec(value: &'a [u8]) -> Result<Self, Error> {
        parse_battery_state(value@)
    }
}

impl Payload for BatteryState {
    open spec fn encoding(&self) -> Result<Seq<u8>, Error> {
        Ok(self.bytes())
    }

    proof fn encoding_is_short(&self) {
    }

    fn write_into(&self, buf: &mut [u8]) -> (r: Result<u32, Error>) {
        let mut bytes: Vec<u8> = Vec::new();
        self.append_to(&mut bytes);
        assert(bytes@ =~= self.bytes());
        put(buf, &bytes)
    }
}

/// Reading the report of a state gives the state back, unless it is a dual
/// state with a level of zero.
pub proof fn lemma_battery_round_trip(state: BatteryState)
    requires
        state.survives_round_trip(),
    ensures
        parse_battery_state(state.bytes()) == Ok::<BatteryState, Error>(state),
{
}

/// A dual report whose left level is zero reads as the right battery alone.
pub proof fn lemma_dual_without_left_is_single_right(value: Seq<u8>)
    requires
        value.len() >= 5,
        value[0] == BatteryType::Dual.spec_code(),
        value[1] == 0,
    ensures
        parse_battery_state(value) == Ok::<BatteryState, Error>(
            BatteryState::Single { level: value[3], is_charging: value[4] == 1 },
        ),
{
}

} // verus!
