//! The catalogue of commands that a `Command1` packet can carry.
//!
//! The first byte of a body is the command code. A few commands have a body
//! codec; the others are recognised by their code alone, and both reading and
//! writing them report `NotImplemented`.

use crate::error::Error;
use crate::v1::anc::{parse_anc, AncPayload, ANC_FEATURE};
use crate::v1::battery::{parse_battery_state, parse_battery_type, BatteryState, BatteryType};
use crate::v1::payload::{put, Payload};
use vstd::prelude::*;
use vstd::std_specs::convert::TryFromSpecImpl;

verus! {

/// One command of the primary command family.
#[derive(Debug, PartialEq, Eq, Clone, Copy)]
pub enum PayloadCommand1 {
    InitRequest,
    InitReply([u8; 3]),

    FwVersionRequest,
    FwVersionReply,

    Init2Request,
    Init2Reply,

    BatteryLevelRequest(BatteryType),
    BatteryLevelReply(BatteryState),
    BatteryLevelNotify(BatteryState),

    AudioCodecRequest,
    AudioCodecReply,
    AudioCodecNotify,

    PowerOff,

    SoundPositionOrModeGet,
    SoundPositionOrModeRet,
    SoundPositionOrModeSet,
    SoundPositionOrModeNotify,

    EqualizerGet,
    EqualizerRet,
    EqualizerSet,
    EqualizerNotify,

    AmbientSoundControlGet,
    AmbientSoundControlRet(AncPayload),
    AmbientSoundControlSet(AncPayload),
    AmbientSoundControlNotify(AncPayload),

    VolumeGet,
    VolumeRet,
    VolumeSet,
    VolumeNotify,

    NoiseCancellingOptimizerStart,
    NoiseCancellingOptimizerStatus,

    NoiseCancellingOptimizerStateGet,
    NoiseCancellingOptimizerStateRet,
    NoiseCancellingOptimizerStateNotify,

    TouchSensorGet,
    TouchSensorRet,
    TouchSensorSet,
    TouchSensorNotify,

    AudioUpsamplingGet,
    AudioUpsamplingRet,
    AudioUpsamplingSet,
    AudioUpsamplingNotify,

    AutomaticPowerOffButtonModeGet,
    AutomaticPowerOffButtonModeRet,
    AutomaticPowerOffButtonModeSet,
    AutomaticPowerOffButtonModeNotify,

    SpeakToChatConfigGet,
    SpeakToChatConfigRet,
    SpeakToChatConfigSet,
    SpeakToChatConfigNotify,

    JsonGet,
    JsonRet,

    SomethingGet,
    SomethingRet,
}

/// The name under which reading reports a command that is recognised by its
/// code but has no body codec, or `None` for every other code.
pub open spec fn envelope_name(code: u8) -> Option<&'static str> {
    match code {
        0x04 => Some("Self::FwVersionRequest"),
        0x05 => Some("Self::FwVersionReply"),
        0x06 => Some("Self::Init2Request"),
        0x07 => Some("Self::Init2Reply"),
        0x18 => Some("Self::AudioCodecRequest"),
        0x19 => Some("Self::AudioCodecReply"),
        0x1b => Some("Self::AudioCodecNotify"),
        0x22 => Some("Self::PowerOff"),
        0x46 => Some("Self::SoundPositionOrModeGet"),
        0x47 => Some("Self::SoundPositionOrModeRet"),
        0x48 => Some("Self::SoundPositionOrModeSet"),
        0x49 => Some("Self::SoundPositionOrModeNotify"),
        0x56 => Some("Self::EqualizerGet"),
        0x57 => Some("Self::EqualizerRet"),
        0x58 => Some("Self::EqualizerSet"),
        0x59 => Some("Self::EqualizerNotify"),
        0xa6 => Some("Self::VolumeGet"),
        0xa7 => Some("Self::VolumeRet"),
        0xa8 => Some("Self::VolumeSet"),
        0xa9 => Some("Self::VolumeNotify"),
        0x84 => Some("Self::NoiseCancellingOptimizerStart"),
        0x85 => Some("Self::NoiseCancellingOptimizerStatus"),
        0x86 => Some("Self::NoiseCancellingOptimizerStateGet"),
        0x87 => Some("Self::NoiseCancellingOptimizerStateRet"),
        0x89 => Some("Self::NoiseCancellingOptimizerStateNotify"),
        0xd6 => Some("Self::TouchSensorGet"),
        0xd7 => Some("Self::TouchSensorRet"),
        0xd8 => Some("Self::TouchSensorSet"),
        0xd9 => Some("Self::TouchSensorNotify"),
        0xe6 => Some("Self::AudioUpsamplingGet"),
        0xe7 => Some("Self::AudioUpsamplingRet"),
        0xe8 => Some("Self::AudioUpsamplingSet"),
        0xe9 => Some("Self::AudioUpsamplingNotify"),
        0xf6 => Some("Self::AutomaticPowerOffButtonModeGet"),
        0xf7 => Some("Self::AutomaticPowerOffButtonModeRet"),
        0xf8 => Some("Self::AutomaticPowerOffButtonModeSet"),
        0xf9 => Some("Self::AutomaticPowerOffButtonModeNotify"),
        0xfa => Some("Self::SpeakToChatConfigGet"),
        0xfb => Some("Self::SpeakToChatConfigRet"),
        0xfc => Some("Self::SpeakToChatConfigSet"),
        0xfd => Some("Self::SpeakToChatConfigNotify"),
        0xc4 => Some("Self::JsonGet"),
        0xc9 => Some("Self::JsonRet"),
        0x90 => Some("Self::SomethingGet"),
        0x91 => Some("Self::SomethingRet"),
        _ => None,
    }
}

/// The name under which reading reports a command that is recognised by its
/// code but has no body codec, or `None` for every other code.
pub fn envelope_name_of(code: u8) -> (r: Option<&'static str>)
    ensures
        r == envelope_name(code),
{
    match code {
        0x04 => Some("Self::FwVersionRequest"),
        0x05 => Some("Self::FwVersionReply"),
        0x06 => Some("Self::Init2Request"),
        0x07 => Some("Self::Init2Reply"),
        0x18 => Some("Self::AudioCodecRequest"),
        0x19 => Some("Self::AudioCodecReply"),
        0x1b => Some("Self::AudioCodecNotify"),
        0x22 => Some("Self::PowerOff"),
        0x46 => Some("Self::SoundPositionOrModeGet"),
        0x47 => Some("Self::SoundPositionOrModeRet"),
        0x48 => Some("Self::SoundPositionOrModeSet"),
        0x49 => Some("Self::SoundPositionOrModeNotify"),
        0x56 => Some("Self::EqualizerGet"),
        0x57 => Some("Self::EqualizerRet"),
        0x58 => Some("Self::EqualizerSet"),
        0x59 => Some("Self::EqualizerNotify"),
        0xa6 => Some("Self::VolumeGet"),
        0xa7 => Some("Self::VolumeRet"),
        0xa8 => Some("Self::VolumeSet"),
        0xa9 => Some("Self::VolumeNotify"),
        0x84 => Some("Self::NoiseCancellingOptimizerStart"),
        0x85 => Some("Self::NoiseCancellingOptimizerStatus"),
        0x86 => Some("Self::NoiseCancellingOptimizerStateGet"),
        0x87 => Some("Self::NoiseCancellingOptimizerStateRet"),
        0x89 => Some("Self::NoiseCancellingOptimizerStateNotify"),
        0xd6 => Some("Self::TouchSensorGet"),
        0xd7 => Some("Self::TouchSensorRet"),
        0xd8 => Some("Self::TouchSensorSet"),
        0xd9 => Some("Self::TouchSensorNotify"),
        0xe6 => Some("Self::AudioUpsamplingGet"),
        0xe7 => Some("Self::AudioUpsamplingRet"),
        0xe8 => Some("Self::AudioUpsamplingSet"),
        0xe9 => Some("Self::AudioUpsamplingNotify"),
        0xf6 => Some("Self::AutomaticPowerOffButtonModeGet"),
        0xf7 => Some("Self::AutomaticPowerOffButtonModeRet"),
        0xf8 => Some("Self::AutomaticPowerOffButtonModeSet"),
        0xf9 => Some("Self::AutomaticPowerOffButtonModeNotify"),
        0xfa => Some("Self::SpeakToChatConfigGet"),
        0xfb => Some("Self::SpeakToChatConfigRet"),
        0xfc => Some("Self::SpeakToChatConfigSet"),
        0xfd => Some("Self::SpeakToChatConfigNotify"),
        0xc4 => Some("Self::JsonGet"),
        0xc9 => Some("Self::JsonRet"),
        0x90 => Some("Self::SomethingGet"),
        0x91 => Some("Self::SomethingRet"),
        _ => None,
    }
}

/// The name under which writing reports a command without a body codec: its
/// code in hexadecimal.
pub open spec fn code_name(code: u8) -> &'static str {
    match code {
        0x04 => "0x04",
        0x05 => "0x05",
        0x06 => "0x06",
        0x07 => "0x07",
        0x18 => "0x18",
        0x19 => "0x19",
        0x1b => "0x1b",
        0x22 => "0x22",
        0x46 => "0x46",
        0x47 => "0x47",
        0x48 => "0x48",
        0x49 => "0x49",
        0x56 => "0x56",
        0x57 => "0x57",
        0x58 => "0x58",
        0x59 => "0x59",
        0xa6 => "0xa6",
        0xa7 => "0xa7",
        0xa8 => "0xa8",
        0xa9 => "0xa9",
        0x84 => "0x84",
        0x85 => "0x85",
        0x86 => "0x86",
        0x87 => "0x87",
        0x89 => "0x89",
        0xd6 => "0xd6",
        0xd7 => "0xd7",
        0xd8 => "0xd8",
        0xd9 => "0xd9",
        0xe6 => "0xe6",
        0xe7 => "0xe7",
        0xe8 => "0xe8",
        0xe9 => "0xe9",
        0xf6 => "0xf6",
        0xf7 => "0xf7",
        0xf8 => "0xf8",
        0xf9 => "0xf9",
        0xfa => "0xfa",
        0xfb => "0xfb",
        0xfc => "0xfc",
        0xfd => "0xfd",
        0xc4 => "0xc4",
        0xc9 => "0xc9",
        0x90 => "0x90",
        0x91 => "0x91",
        _ => "",
    }
}

/// The name under which writing reports a command without a body codec: its
/// code in hexadecimal.
pub fn code_name_of(code: u8) -> (r: &'static str)
    ensures
        r == code_name(code),
{
    match code {
        0x04 => "0x04",
        0x05 => "0x05",
        0x06 => "0x06",
        0x07 => "0x07",
        0x18 => "0x18",
        0x19 => "0x19",
        0x1b => "0x1b",
        0x22 => "0x22",
        0x46 => "0x46",
        0x47 => "0x47",
        0x48 => "0x48",
        0x49 => "0x49",
        0x56 => "0x56",
        0x57 => "0x57",
        0x58 => "0x58",
        0x59 => "0x59",
        0xa6 => "0xa6",
        0xa7 => "0xa7",
        0xa8 => "0xa8",
        0xa9 => "0xa9",
        0x84 => "0x84",
        0x85 => "0x85",
        0x86 => "0x86",
        0x87 => "0x87",
        0x89 => "0x89",
        0xd6 => "0xd6",
        0xd7 => "0xd7",
        0xd8 => "0xd8",
        0xd9 => "0xd9",
        0xe6 => "0xe6",
        0xe7 => "0xe7",
        0xe8 => "0xe8",
        0xe9 => "0xe9",
        0xf6 => "0xf6",
        0xf7 => "0xf7",
        0xf8 => "0xf8",
        0xf9 => "0xf9",
        0xfa => "0xfa",
        0xfb => "0xfb",
        0xfc => "0xfc",
        0xfd => "0xfd",
        0xc4 => "0xc4",
        0xc9 => "0xc9",
        0x90 => "0x90",
        0x91 => "0x91",
        _ => "",
    }
}

impl PayloadCommand1 {
    /// The command code: the first byte of the body.
    pub open spec fn spec_code(self) -> u8 {
        match self {
            PayloadCommand1::InitRequest => 0x00,
            PayloadCommand1::InitReply(_) => 0x01,
            PayloadCommand1::FwVersionRequest => 0x04,
            PayloadCommand1::FwVersionReply => 0x05,
            PayloadCommand1::Init2Request => 0x06,
            PayloadCommand1::Init2Reply => 0x07,
            PayloadCommand1::BatteryLevelRequest(_) => 0x10,
            PayloadCommand1::BatteryLevelReply(_) => 0x11,
            PayloadCommand1::BatteryLevelNotify(_) => 0x13,
            PayloadCommand1::AudioCodecRequest => 0x18,
            PayloadCommand1::AudioCodecReply => 0x19,
            PayloadCommand1::AudioCodecNotify => 0x1b,
            PayloadCommand1::PowerOff => 0x22,
            PayloadCommand1::SoundPositionOrModeGet => 0x46,
            PayloadCommand1::SoundPositionOrModeRet => 0x47,
            PayloadCommand1::SoundPositionOrModeSet => 0x48,
            PayloadCommand1::SoundPositionOrModeNotify => 0x49,
            PayloadCommand1::EqualizerGet => 0x56,
            PayloadCommand1::EqualizerRet => 0x57,
            PayloadCommand1::EqualizerSet => 0x58,
            PayloadCommand1::EqualizerNotify => 0x59,
            PayloadCommand1::AmbientSoundControlGet => 0x66,
            PayloadCommand1::AmbientSoundControlRet(_) => 0x67,
            PayloadCommand1::AmbientSoundControlSet(_) => 0x68,
            PayloadCommand1::AmbientSoundControlNotify(_) => 0x69,
            PayloadCommand1::VolumeGet => 0xa6,
            PayloadCommand1::VolumeRet => 0xa7,
            PayloadCommand1::VolumeSet => 0xa8,
            PayloadCommand1::VolumeNotify => 0xa9,
            PayloadCommand1::NoiseCancellingOptimizerStart => 0x84,
            PayloadCommand1::NoiseCancellingOptimizerStatus => 0x85,
            PayloadCommand1::NoiseCancellingOptimizerStateGet => 0x86,
            PayloadCommand1::NoiseCancellingOptimizerStateRet => 0x87,
            PayloadCommand1::NoiseCancellingOptimizerStateNotify => 0x89,
            PayloadCommand1::TouchSensorGet => 0xd6,
            PayloadCommand1::TouchSensorRet => 0xd7,
            PayloadCommand1::TouchSensorSet => 0xd8,
            PayloadCommand1::TouchSensorNotify => 0xd9,
            PayloadCommand1::AudioUpsamplingGet => 0xe6,
            PayloadCommand1::AudioUpsamplingRet => 0xe7,
            PayloadCommand1::AudioUpsamplingSet => 0xe8,
            PayloadCommand1::AudioUpsamplingNotify => 0xe9,
            PayloadCommand1::AutomaticPowerOffButtonModeGet => 0xf6,
            PayloadCommand1::AutomaticPowerOffButtonModeRet => 0xf7,
            PayloadCommand1::AutomaticPowerOffButtonModeSet => 0xf8,
            PayloadCommand1::AutomaticPowerOffButtonModeNotify => 0xf9,
            PayloadCommand1::SpeakToChatConfigGet => 0xfa,
            PayloadCommand1::SpeakToChatConfigRet => 0xfb,
            PayloadCommand1::SpeakToChatConfigSet => 0xfc,
            PayloadCommand1::SpeakToChatConfigNotify => 0xfd,
            PayloadCommand1::JsonGet => 0xc4,
            PayloadCommand1::JsonRet => 0xc9,
            PayloadCommand1::SomethingGet => 0x90,
            PayloadCommand1::SomethingRet => 0x91,
        }
    }

    /// The command code: the first byte of the body.
    #[verifier::when_used_as_spec(spec_code)]
    pub fn code(self) -> (r: u8)
        ensures
            r == self.spec_code(),
    {
        match self {
            PayloadCommand1::InitRequest => 0x00,
            PayloadCommand1::InitReply(_) => 0x01,
            PayloadCommand1::FwVersionRequest => 0x04,
            PayloadCommand1::FwVersionReply => 0x05,
            PayloadCommand1::Init2Request => 0x06,
            PayloadCommand1::Init2Reply => 0x07,
            PayloadCommand1::BatteryLevelRequest(_) => 0x10,
            PayloadCommand1::BatteryLevelReply(_) => 0x11,
            PayloadCommand1::BatteryLevelNotify(_) => 0x13,
            PayloadCommand1::AudioCodecRequest => 0x18,
            PayloadCommand1::AudioCodecReply => 0x19,
            PayloadCommand1::AudioCodecNotify => 0x1b,
            PayloadCommand1::PowerOff => 0x22,
            PayloadCommand1::SoundPositionOrModeGet => 0x46,
            PayloadCommand1::SoundPositionOrModeRet => 0x47,
            PayloadCommand1::SoundPositionOrModeSet => 0x48,
            PayloadCommand1::SoundPositionOrModeNotify => 0x49,
            PayloadCommand1::EqualizerGet => 0x56,
            PayloadCommand1::EqualizerRet => 0x57,
            PayloadCommand1::EqualizerSet => 0x58,
            PayloadCommand1::EqualizerNotify => 0x59,
            PayloadCommand1::AmbientSoundControlGet => 0x66,
            PayloadCommand1::AmbientSoundControlRet(_) => 0x67,
            PayloadCommand1::AmbientSoundControlSet(_) => 0x68,
            PayloadCommand1::AmbientSoundControlNotify(_) => 0x69,
            PayloadCommand1::VolumeGet => 0xa6,
            PayloadCommand1::VolumeRet => 0xa7,
            PayloadCommand1::VolumeSet => 0xa8,
            PayloadCommand1::VolumeNotify => 0xa9,
            PayloadCommand1::NoiseCancellingOptimizerStart => 0x84,
            PayloadCommand1::NoiseCancellingOptimizerStatus => 0x85,
            PayloadCommand1::NoiseCancellingOptimizerStateGet => 0x86,
            PayloadCommand1::NoiseCancellingOptimizerStateRet => 0x87,
            PayloadCommand1::NoiseCancellingOptimizerStateNotify => 0x89,
            PayloadCommand1::TouchSensorGet => 0xd6,
            PayloadCommand1::TouchSensorRet => 0xd7,
            PayloadCommand1::TouchSensorSet => 0xd8,
            PayloadCommand1::TouchSensorNotify => 0xd9,
            PayloadCommand1::AudioUpsamplingGet => 0xe6,
            PayloadCommand1::AudioUpsamplingRet => 0xe7,
            PayloadCommand1::AudioUpsamplingSet => 0xe8,
            PayloadCommand1::AudioUpsamplingNotify => 0xe9,
            PayloadCommand1::AutomaticPowerOffButtonModeGet => 0xf6,
            PayloadCommand1::AutomaticPowerOffButtonModeRet => 0xf7,
            PayloadCommand1::AutomaticPowerOffButtonModeSet => 0xf8,
            PayloadCommand1::AutomaticPowerOffButtonModeNotify => 0xf9,
            PayloadCommand1::SpeakToChatConfigGet => 0xfa,
            PayloadCommand1::SpeakToChatConfigRet => 0xfb,
            PayloadCommand1::SpeakToChatConfigSet => 0xfc,
            PayloadCommand1::SpeakToChatConfigNotify => 0xfd,
            PayloadCommand1::JsonGet => 0xc4,
            PayloadCommand1::JsonRet => 0xc9,
            PayloadCommand1::SomethingGet => 0x90,
            PayloadCommand1::SomethingRet => 0x91,
        }
    }

    /// The body that stands for the command, or `NotImplemented` with the
    /// command's code where the command has no body codec.
    pub open spec fn bytes(self) -> Result<Seq<u8>, Error> {
        match self {
            PayloadCommand1::InitRequest => Ok(seq![0x00u8, 0x00u8]),
            PayloadCommand1::InitReply(id) => Ok(seq![0x01u8, id[0], id[1], id[2]]),
            PayloadCommand1::BatteryLevelRequest(t) => Ok(seq![0x10u8, t.spec_code()]),
            PayloadCommand1::BatteryLevelReply(s) => Ok(seq![0x11u8] + s.bytes()),
            PayloadCommand1::BatteryLevelNotify(s) => Ok(seq![0x13u8] + s.bytes()),
            PayloadCommand1::AmbientSoundControlGet => Ok(seq![0x66u8, ANC_FEATURE]),
            PayloadCommand1::AmbientSoundControlRet(p) => Ok(seq![0x67u8] + p.bytes()),
            PayloadCommand1::AmbientSoundControlSet(p) => Ok(seq![0x68u8] + p.bytes()),
            PayloadCommand1::AmbientSoundControlNotify(p) => Ok(seq![0x69u8] + p.bytes()),
            _ => Err(Error::NotImplemented(code_name(self.spec_code()))),
        }
    }

    /// Whether reading the body of the command gives the command back.
    pub open spec fn survives_round_trip(self) -> bool {
        match self {
            PayloadCommand1::InitRequest => true,
            PayloadCommand1::InitReply(_) => true,
            PayloadCommand1::BatteryLevelRequest(_) => true,
            PayloadCommand1::BatteryLevelReply(s) => s.survives_round_trip(),
            PayloadCommand1::BatteryLevelNotify(s) => s.survives_round_trip(),
            PayloadCommand1::AmbientSoundControlGet => true,
            PayloadCommand1::AmbientSoundControlRet(p) => p.survives_round_trip(),
            PayloadCommand1::AmbientSoundControlSet(p) => p.survives_round_trip(),
            PayloadCommand1::AmbientSoundControlNotify(p) => p.survives_round_trip(),
            _ => false,
        }
    }

    /// The body that stands for the command, as a vector.
    pub fn to_bytes(&self) -> (r: Result<Vec<u8>, Error>)
        ensures
            match self.bytes() {
                Ok(bytes) => r matches Ok(v) && v@ == bytes,
                Err(e) => r matches Err(f) && f == e,
            },
            r matches Ok(v) ==> 2 <= v@.len() <= 8,
    {
        let mut out: Vec<u8> = Vec::new();
        match self {
            PayloadCommand1::InitRequest => {
                out.push(0x00);
                out.push(0x00);
                assert(out@ =~= seq![0x00u8, 0x00u8]);
            },
            PayloadCommand1::InitReply(id) => {
                out.push(0x01);
                out.push(id[0]);
                out.push(id[1]);
                out.push(id[2]);
                assert(out@ =~= seq![0x01u8, id[0], id[1], id[2]]);
            },
            PayloadCommand1::BatteryLevelRequest(t) => {
                out.push(0x10);
                out.push(t.code());
                assert(out@ =~= seq![0x10u8, t.spec_code()]);
            },
            PayloadCommand1::BatteryLevelReply(s) => {
                out.push(0x11);
                s.append_to(&mut out);
                assert(out@ =~= seq![0x11u8] + s.bytes());
            },
            PayloadCommand1::BatteryLevelNotify(s) => {
                out.push(0x13);
                s.append_to(&mut out);
                assert(out@ =~= seq![0x13u8] + s.bytes());
            },
            PayloadCommand1::AmbientSoundControlGet => {
                out.push(0x66);
                out.push(ANC_FEATURE);
                assert(out@ =~= seq![0x66u8, ANC_FEATURE]);
            },
            PayloadCommand1::AmbientSoundControlRet(p) => {
                out.push(0x67);
                p.append_to(&mut out);
                assert(out@ =~= seq![0x67u8] + p.bytes());
            },
            PayloadCommand1::AmbientSoundControlSet(p) => {
                out.push(0x68);
                p.append_to(&mut out);
                assert(out@ =~= seq![0x68u8] + p.bytes());
            },
            PayloadCommand1::AmbientSoundControlNotify(p) => {
                out.push(0x69);
                p.append_to(&mut out);
                assert(out@ =~= seq![0x69u8] + p.bytes());
            },
            _ => {
                return Err(Error::NotImplemented(code_name_of(self.code())));
            },
        }
        Ok(out)
    }
}

/// The command that the body `value` holds.
///
/// An empty body, or one that ends before the fields of its command, is
/// `MissingBytes`. A code that is recognised but has no body codec is
/// `NotImplemented`; any other code without an entry is `UnknownPayloadType`.
pub open spec fn parse_payload(value: Seq<u8>) -> Result<PayloadCommand1, Error> {
    if value.len() == 0 {
        Err(Error::MissingBytes)
    } else if value[0] == 0x00 {
        Ok(PayloadCommand1::InitRequest)
    } else if value[0] == 0x01 {
        if value.len() > 3 {
            Ok(PayloadCommand1::InitReply([value[1], value[2], value[3]]))
        } else {
            Err(Error::MissingBytes)
        }
    } else if value[0] == 0x10 {
        if value.len() < 2 {
            Err(Error::MissingBytes)
        } else {
            match parse_battery_type(value[1]) {
                Ok(t) => Ok(PayloadCommand1::BatteryLevelRequest(t)),
                Err(e) => Err(e),
            }
        }
    } else if value[0] == 0x11 {
        match parse_battery_state(value.skip(1)) {
            Ok(s) => Ok(PayloadCommand1::BatteryLevelReply(s)),
            Err(e) => Err(e),
        }
    } else if value[0] == 0x13 {
        match parse_battery_state(value.skip(1)) {
            Ok(s) => Ok(PayloadCommand1::BatteryLevelNotify(s)),
            Err(e) => Err(e),
        }
    } else if value[0] == 0x66 {
        Ok(PayloadCommand1::AmbientSoundControlGet)
    } else if value[0] == 0x67 {
        match parse_anc(value.skip(1)) {
            Ok(p) => Ok(PayloadCommand1::AmbientSoundControlRet(p)),
            Err(e) => Err(e),
        }
    } else if value[0] == 0x68 {
        match parse_anc(value.skip(1)) {
            Ok(p) => Ok(PayloadCommand1::AmbientSoundControlSet(p)),
            Err(e) => Err(e),
        }
    } else if value[0] == 0x69 {
        match parse_anc(value.skip(1)) {
            Ok(p) => Ok(PayloadCommand1::AmbientSoundControlNotify(p)),
            Err(e) => Err(e),
        }
    } else {
        match envelope_name(value[0]) {
            Some(name) => Err(Error::NotImplemented(name)),
            None => Err(Error::UnknownPayloadType(value[0])),
        }
    }
}

impl<'a> TryFrom<&'a [u8]> for PayloadCommand1 {
    type Error = Error;

    fn try_from(value: &'a [u8]) -> (r: Result<Self, Error>) {
        if value.len() == 0 {
            return Err(Error::MissingBytes);
        }
        let code = value[0];
        let rest = vstd::slice::slice_subrange(value, 1, value.len());
        assert(rest@ =~= value@.skip(1));
        match code {
            0x00 => Ok(PayloadCommand1::InitRequest),
            0x01 => {
                if value.len() > 3 {
                    Ok(PayloadCommand1::InitReply([value[1], value[2], value[3]]))
                } else {
                    Err(Error::MissingBytes)
                }
            },
            0x10 => {
                if value.len() < 2 {
                    Err(Error::MissingBytes)
                } else {
                    match BatteryType::try_from(value[1]) {
                        Ok(t) => Ok(PayloadCommand1::BatteryLevelRequest(t)),
                        Err(e) => Err(e),
                    }
                }
            },
            0x11 => match BatteryState::try_from(rest) {
                Ok(s) => Ok(PayloadCommand1::BatteryLevelReply(s)),
                Err(e) => Err(e),
            },
            0x13 => match BatteryState::try_from(rest) {
                Ok(s) => Ok(PayloadCommand1::BatteryLevelNotify(s)),
                Err(e) => Err(e),
            },
            0x66 => Ok(PayloadCommand1::AmbientSoundControlGet),
            0x67 => match AncPayload::try_from(rest) {
                Ok(p) => Ok(PayloadCommand1::AmbientSoundControlRet(p)),
                Err(e) => Err(e),
            },
            0x68 => match AncPayload::try_from(rest) {
                Ok(p) => Ok(PayloadCommand1::AmbientSoundControlSet(p)),
                Err(e) => Err(e),
            },
            0x69 => match AncPayload::try_from(rest) {
                Ok(p) => Ok(PayloadCommand1::AmbientSoundControlNotify(p)),
                Err(e) => Err(e),
            },
            code => match envelope_name_of(code) {
                Some(name) => Err(Error::NotImplemented(name)),
                None => Err(Error::UnknownPayloadType(code)),
            },
        }
    }
}

impl<'a> TryFromSpecImpl<&'a [u8]> for PayloadCommand1 {
    open spec fn obeys_try_from_spec() -> bool {
        true
    }

    open spec fn try_from_spec(value: &'a [u8]) -> Result<Self, Error> {
        parse_payload(value@)
    }
}

impl Payload for PayloadCommand1 {
    open spec fn encoding(&self) -> Result<Seq<u8>, Error> {
        self.bytes()
    }

    proof fn encoding_is_short(&self) {
    }

    fn write_into(&self, buf: &mut [u8]) -> (r: Result<u32, Error>) {
        match self.to_bytes() {
            Ok(bytes) => put(buf, &bytes),
            Err(e) => Err(e),
        }
    }
}

/// The body of a command starts with the command's code.
pub proof fn lemma_body_starts_with_code(p: PayloadCommand1)
    requires
        p.bytes() is Ok,
    ensures
        p.bytes().unwrap().len() >= 2,
        p.bytes().unwrap().len() <= 8,
        p.bytes().unwrap()[0] == p.spec_code(),
{
}

/// Reading the body of a command gives the command back, for every command
/// that has a body codec and whose sub-payload survives the round trip.
pub proof fn lemma_payload_round_trip(p: PayloadCommand1)
    requires
        p.survives_round_trip(),
    ensures
        p.bytes() is Ok,
        parse_payload(p.bytes().unwrap()) == Ok::<PayloadCommand1, Error>(p),
{
    match p {
        PayloadCommand1::InitReply(id) => {
            let body = p.bytes().unwrap();
            let back: [u8; 3] = [body[1], body[2], body[3]];
            assert(back@ =~= id@);
            assert(back == id);
        },
        PayloadCommand1::BatteryLevelReply(s) => {
            assert((seq![0x11u8] + s.bytes()).skip(1) =~= s.bytes());
        },
        PayloadCommand1::BatteryLevelNotify(s) => {
            assert((seq![0x13u8] + s.bytes()).skip(1) =~= s.bytes());
        },
        PayloadCommand1::AmbientSoundControlRet(a) => {
            assert((seq![0x67u8] + a.bytes()).skip(1) =~= a.bytes());
        },
        PayloadCommand1::AmbientSoundControlSet(a) => {
            assert((seq![0x68u8] + a.bytes()).skip(1) =~= a.bytes());
        },
        PayloadCommand1::AmbientSoundControlNotify(a) => {
            assert((seq![0x69u8] + a.bytes()).skip(1) =~= a.bytes());
        },
        _ => {},
    }
}

} // verus!
