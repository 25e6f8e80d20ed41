//! Ambient sound control: noise cancelling, ambient sound and wind reduction.

use crate::error::Error;
use crate::v1::payload::{flag_byte, put, Payload};
use vstd::prelude::*;
use vstd::std_specs::convert::TryFromSpecImpl;

verus! {

/// What the device does with outside sound.
#[derive(Debug, PartialEq, Eq, Clone, Copy)]
pub enum AncMode {
    Off,
    AmbiantMode,
    On,
    Wind,
}

/// The ambient sound control settings of a device.
#[derive(Debug, PartialEq, Eq, Clone, Copy)]
pub struct AncPayload {
    pub anc_mode: AncMode,
    pub focus_on_voice: bool,
    pub ambiant_level: u8,
}

/// The body of the query for the ambient sound control settings.
#[derive(Debug)]
pub struct GetAnc;

/// The feature byte that every ambient sound control body starts with.
pub const ANC_FEATURE: u8 = 0x02;

/// Number of bytes in the wire form of the settings.
pub const ANC_PAYLOAD_LEN: usize = 7;

/// The mode that the bytes 1 to 3 of the settings select, or the byte that is
/// out of pattern.
pub open spec fn parse_anc_mode(b1: u8, b2: u8, b3: u8) -> Result<AncMode, Error> {
    if b1 == 0x00 {
        Ok(AncMode::Off)
    } else if b1 != 0x01 {
        Err(Error::InvalidValueForEnum { what: "anc state", value: b1 })
    } else if b2 == 0x00 {
        if b3 == 0x00 {
            Ok(AncMode::AmbiantMode)
        } else if b3 == 0x01 {
            Ok(AncMode::On)
        } else {
            Err(Error::InvalidValueForEnum { what: "anc mode", value: b3 })
        }
    } else if b2 == 0x02 {
        if b3 == 0x00 {
            Ok(AncMode::AmbiantMode)
        } else if b3 == 0x01 {
            Ok(AncMode::Wind)
        } else if b3 == 0x02 {
            Ok(AncMode::On)
        } else {
            Err(Error::InvalidValueForEnum { what: "anc mode", value: b3 })
        }
    } else {
        Err(Error::InvalidValueForEnum { what: "anc mode set", value: b2 })
    }
}

/// The settings that `value` holds: the mode in bytes 1 to 3, the voice focus
/// flag in byte 5 and the ambient level in byte 6.
pub open spec fn parse_anc(value: Seq<u8>) -> Result<AncPayload, Error> {
    if value.len() < ANC_PAYLOAD_LEN {
        Err(Error::MissingBytes)
    } else {
        match parse_anc_mode(value[1], value[2], value[3]) {
            Err(e) => Err(e),
            Ok(mode) => Ok(
                AncPayload {
                    anc_mode: mode,
                    focus_on_voice: value[5] == 0x01,
                    ambiant_level: value[6],
                },
            ),
        }
    }
}

impl AncPayload {
    /// The seven bytes that stand for the settings.
    pub open spec fn bytes(self) -> Seq<u8> {
        seq![
            ANC_FEATURE,
            if self.anc_mode == AncMode::Off { 0x00u8 } else { 0x11u8 },
            0x02u8,
            match self.anc_mode {
                AncMode::Off | AncMode::AmbiantMode => 0x00u8,
                AncMode::On => 0x02u8,
                AncMode::Wind => 0x01u8,
            },
            0x01u8,
            flag_byte(self.focus_on_voice),
            match self.anc_mode {
                AncMode::Off | AncMode::AmbiantMode => self.ambiant_level,
                AncMode::On | AncMode::Wind => 0x01u8,
            },
        ]
    }

    /// Whether reading the wire form of the settings gives them back. The
    /// wire form of every mode but `Off` carries the state byte 0x11, which
    /// reading does not accept.
    pub open spec fn survives_round_trip(self) -> bool {
        self.anc_mode == AncMode::Off
    }

    /// Appends the wire form of the settings to `out`.
    pub fn append_to(&self, out: &mut Vec<u8>)
        ensures
            final(out)@ == old(out)@ + self.bytes(),
    {
        out.push(ANC_FEATURE);
        out.push(
            match self.anc_mode {
                AncMode::Off => 0x00,
                _ => 0x11,
            },
        );
        out.push(0x02);
        out.push(
            match self.anc_mode {
                AncMode::Off | AncMode::AmbiantMode => 0x00,
                AncMode::On => 0x02,
                AncMode::Wind => 0x01,
            },
        );
        out.push(0x01);
        out.push(if self.focus_on_voice { 0x01 } else { 0x00 });
        out.push(
            match self.anc_mode {
                AncMode::Off | AncMode::AmbiantMode => self.ambiant_level,
                AncMode::On | AncMode::Wind => 0x01,
            },
        );
        assert(out@ =~= old(out)@ + self.bytes());
    }
}

impl<'a> TryFrom<&'a [u8]> for AncPayload {
    type Error = Error;

    fn try_from(value: &'a [u8]) -> (r: Result<Self, Error>) {
        if value.len() < ANC_PAYLOAD_LEN {
            return Err(Error::MissingBytes);
        }
        let b1 = value[1];
        let b2 = value[2];
        let b3 = value[3];
        let mode = if b1 == 0x00 {
            AncMode::Off
        } else if b1 != 0x01 {
            return Err(Error::InvalidValueForEnum { what: "anc state", value: b1 });
        } else if b2 == 0x00 {
            if b3 == 0x00 {
                AncMode::AmbiantMode
            } else if b3 == 0x01 {
                AncMode::On
            } else {
                return Err(Error::InvalidValueForEnum { what: "anc mode", value: b3 });
            }
        } else if b2 == 0x02 {
            if b3 == 0x00 {
                AncMode::AmbiantMode
            } else if b3 == 0x01 {
                AncMode::Wind
            } else if b3 == 0x02 {
                AncMode::On
            } else {
                return Err(Error::InvalidValueForEnum { what: "anc mode", value: b3 });
            }
        } else {
            return Err(Error::InvalidValueForEnum { what: "anc mode set", value: b2 });
        };
        Ok(AncPayload { anc_mode: mode, focus_on_voice: value[5] == 0x01, ambiant_level: value[6] })
    }
}

impl<'a> TryFromSpecImpl<&'a [u8]> for AncPayload {
    open spec fn obeys_try_from_spec() -> bool {
        true
    }

    open spec fn try_from_spec(value: &'a [u8]) -> Result<Self, Error> {
        parse_anc(value@)
    }
}

impl Payload for AncPayload {
    open spec fn encoding(&self) -> Result<Seq<u8>, Error> {
        Ok(self.bytes())
    }

    proof fn encoding_is_short(&self) {
    }

    fn write_into(&self, buf: &mut [u8]) -> (r: Result<u32, Error>) {
        let mut bytes: Vec<u8> = Vec::new();
        self.append_to(&mut bytes);
        assert(bytes@ =~= self.bytes());
        put(buf, &bytes)
    }
}

impl Payload for GetAnc {
    open spec fn encoding(&self) -> Result<Seq<u8>, Error> {
        Ok(seq![ANC_FEATURE])
    }

    proof fn encoding_is_short(&self) {
    }

    fn write_into(&self, buf: &mut [u8]) -> (r: Result<u32, Error>) {
        let mut bytes: Vec<u8> = Vec::new();
        bytes.push(ANC_FEATURE);
        assert(bytes@ =~= seq![ANC_FEATURE]);
        put(buf, &bytes)
    }
}

/// Reading the wire form of settings whose mode is `Off` gives them back.
pub proof fn lemma_anc_round_trip(p: AncPayload)
    requires
        p.survives_round_trip(),
    ensures
        parse_anc(p.bytes()) == Ok::<AncPayload, Error>(p),
{
}

/// The wire form of settings with any mode but `Off` is refused on reading.
pub proof fn lemma_anc_active_mode_is_refused(p: AncPayload)
    requires
        p.anc_mode != AncMode::Off,
    ensures
        parse_anc(p.bytes()) == Err::<AncPayload, Error>(
            Error::InvalidValueForEnum { what: "anc state", value: 0x11 },
        ),
{
}

} // verus!
