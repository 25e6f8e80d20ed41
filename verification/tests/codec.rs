use sony_protocol::error::{Error, TryFromPacketError};
use sony_protocol::frame::{compute_checksum, copy_onto, escape_onto};
use sony_protocol::v1::{
    AncMode, AncPayload, BatteryState, BatteryType, GetAnc, Packet, PacketContent, Payload,
    PayloadCommand1,
};

fn anc(mode: AncMode, focus: bool, level: u8) -> AncPayload {
    AncPayload { anc_mode: mode, focus_on_voice: focus, ambiant_level: level }
}

fn sequenced(seqnum: u8, error: Error) -> TryFromPacketError {
    TryFromPacketError::SequencedError { seqnum, error }
}

#[test]
fn battery_type_from_byte() {
    assert_eq!(BatteryType::try_from(0u8), Ok(BatteryType::Single));
    assert_eq!(BatteryType::try_from(1u8), Ok(BatteryType::Dual));
    assert_eq!(BatteryType::try_from(2u8), Ok(BatteryType::Case));
    assert_eq!(
        BatteryType::try_from(3u8),
        Err(Error::InvalidValueForEnum { what: "battery type", value: 3 })
    );
    assert_eq!(BatteryType::Single.code(), 0);
    assert_eq!(BatteryType::Dual.code(), 1);
    assert_eq!(BatteryType::Case.code(), 2);
}

#[test]
fn battery_state_from_bytes() {
    assert_eq!(
        BatteryState::try_from(&[0u8, 70, 1][..]),
        Ok(BatteryState::Single { level: 70, is_charging: true })
    );
    assert_eq!(
        BatteryState::try_from(&[2u8, 100, 0][..]),
        Ok(BatteryState::Case { level: 100, is_charging: false })
    );
    assert_eq!(
        BatteryState::try_from(&[1u8, 30, 0, 40, 1][..]),
        Ok(BatteryState::Dual {
            level_left: 30,
            is_left_charging: false,
            level_right: 40,
            is_right_charging: true
        })
    );
    assert_eq!(
        BatteryState::try_from(&[2u8, 100, 2][..]),
        Ok(BatteryState::Case { level: 100, is_charging: false })
    );
}

#[test]
fn battery_state_rejects_short_and_unknown_reports() {
    assert_eq!(BatteryState::try_from(&[][..]), Err(Error::MissingBytes));
    assert_eq!(BatteryState::try_from(&[0u8, 70][..]), Err(Error::MissingBytes));
    assert_eq!(BatteryState::try_from(&[2u8][..]), Err(Error::MissingBytes));
    assert_eq!(BatteryState::try_from(&[1u8, 30, 0, 40][..]), Err(Error::MissingBytes));
    assert_eq!(
        BatteryState::try_from(&[9u8, 30, 0, 40, 1][..]),
        Err(Error::InvalidValueForEnum { what: "battery type", value: 9 })
    );
}

#[test]
fn battery_state_is_written_as_three_or_five_bytes() {
    let mut buf = [0xaau8; 8];
    let single = BatteryState::Single { level: 55, is_charging: true };
    assert_eq!(single.write_into(&mut buf), Ok(3));
    assert_eq!(buf, [0, 55, 1, 0xaa, 0xaa, 0xaa, 0xaa, 0xaa]);
    let case = BatteryState::Case { level: 9, is_charging: false };
    assert_eq!(case.write_into(&mut buf), Ok(3));
    assert_eq!(buf, [2, 9, 0, 0xaa, 0xaa, 0xaa, 0xaa, 0xaa]);
    let dual = BatteryState::Dual {
        level_left: 10,
        is_left_charging: true,
        level_right: 20,
        is_right_charging: false,
    };
    assert_eq!(dual.write_into(&mut buf), Ok(5));
    assert_eq!(buf, [1, 10, 1, 20, 0, 0xaa, 0xaa, 0xaa]);
}

#[test]
fn short_buffer_is_left_alone() {
    let mut buf = [0xaau8; 4];
    let dual = BatteryState::Dual {
        level_left: 10,
        is_left_charging: true,
        level_right: 20,
        is_right_charging: false,
    };
    assert_eq!(dual.write_into(&mut buf), Err(Error::MissingBytes));
    assert_eq!(buf, [0xaa; 4]);
    assert_eq!(anc(AncMode::Off, false, 0).write_into(&mut buf), Err(Error::MissingBytes));
    assert_eq!(buf, [0xaa; 4]);
    let packet = Packet::new(0, PacketContent::Ack);
    assert_eq!(packet.write_into(&mut buf), Err(Error::MissingBytes));
    assert_eq!(buf, [0xaa; 4]);
    let mut none: [u8; 0] = [];
    assert_eq!(GetAnc.write_into(&mut none), Err(Error::MissingBytes));
}

#[test]
fn anc_settings_are_written_as_seven_bytes() {
    let mut buf = [0xaau8; 8];
    assert_eq!(anc(AncMode::Off, false, 9).write_into(&mut buf), Ok(7));
    assert_eq!(buf, [0x02, 0x00, 0x02, 0x00, 0x01, 0x00, 0x09, 0xaa]);
    assert_eq!(anc(AncMode::AmbiantMode, true, 17).write_into(&mut buf), Ok(7));
    assert_eq!(buf, [0x02, 0x11, 0x02, 0x00, 0x01, 0x01, 0x11, 0xaa]);
    assert_eq!(anc(AncMode::On, false, 0).write_into(&mut buf), Ok(7));
    assert_eq!(buf, [0x02, 0x11, 0x02, 0x02, 0x01, 0x00, 0x01, 0xaa]);
    assert_eq!(anc(AncMode::Wind, true, 200).write_into(&mut buf), Ok(7));
    assert_eq!(buf, [0x02, 0x11, 0x02, 0x01, 0x01, 0x01, 0x01, 0xaa]);
    assert_eq!(GetAnc.write_into(&mut buf), Ok(1));
    assert_eq!(buf[0], 0x02);
}

#[test]
fn anc_settings_from_bytes() {
    assert_eq!(
        AncPayload::try_from(&[2u8, 0, 2, 0, 1, 1, 12][..]),
        Ok(anc(AncMode::Off, true, 12))
    );
    assert_eq!(
        AncPayload::try_from(&[2u8, 0, 9, 9, 1, 0, 12][..]),
        Ok(anc(AncMode::Off, false, 12))
    );
    assert_eq!(
        AncPayload::try_from(&[2u8, 1, 0, 0, 1, 0, 5][..]),
        Ok(anc(AncMode::AmbiantMode, false, 5))
    );
    assert_eq!(
        AncPayload::try_from(&[2u8, 1, 0, 1, 1, 0, 5][..]),
        Ok(anc(AncMode::On, false, 5))
    );
    assert_eq!(
        AncPayload::try_from(&[2u8, 1, 2, 0, 1, 1, 5][..]),
        Ok(anc(AncMode::AmbiantMode, true, 5))
    );
    assert_eq!(
        AncPayload::try_from(&[2u8, 1, 2, 1, 1, 0, 5][..]),
        Ok(anc(AncMode::Wind, false, 5))
    );
    assert_eq!(
        AncPayload::try_from(&[2u8, 1, 2, 2, 1, 0, 5, 77][..]),
        Ok(anc(AncMode::On, false, 5))
    );
}

#[test]
fn anc_settings_out_of_pattern() {
    assert_eq!(AncPayload::try_from(&[2u8, 1, 2, 2, 1, 0][..]), Err(Error::MissingBytes));
    assert_eq!(
        AncPayload::try_from(&[2u8, 2, 2, 2, 1, 0, 5][..]),
        Err(Error::InvalidValueForEnum { what: "anc state", value: 2 })
    );
    assert_eq!(
        AncPayload::try_from(&[2u8, 1, 1, 0, 1, 0, 5][..]),
        Err(Error::InvalidValueForEnum { what: "anc mode set", value: 1 })
    );
    assert_eq!(
        AncPayload::try_from(&[2u8, 1, 0, 2, 1, 0, 5][..]),
        Err(Error::InvalidValueForEnum { what: "anc mode", value: 2 })
    );
    assert_eq!(
        AncPayload::try_from(&[2u8, 1, 2, 3, 1, 0, 5][..]),
        Err(Error::InvalidValueForEnum { what: "anc mode", value: 3 })
    );
}

#[test]
fn anc_settings_round_trip_only_when_off() {
    let mut buf = [0u8; 7];
    let off = anc(AncMode::Off, true, 31);
    assert_eq!(off.write_into(&mut buf), Ok(7));
    assert_eq!(AncPayload::try_from(&buf[..]), Ok(off));
    let on = anc(AncMode::On, false, 0);
    assert_eq!(on.write_into(&mut buf), Ok(7));
    assert_eq!(
        AncPayload::try_from(&buf[..]),
        Err(Error::InvalidValueForEnum { what: "anc state", value: 0x11 })
    );
}

#[test]
fn command_bodies_are_written() {
    let mut buf = [0xaau8; 9];
    assert_eq!(PayloadCommand1::InitRequest.write_into(&mut buf), Ok(2));
    assert_eq!(&buf[..3], &[0x00, 0x00, 0xaa]);
    assert_eq!(PayloadCommand1::InitReply([7, 8, 9]).write_into(&mut buf), Ok(4));
    assert_eq!(&buf[..5], &[0x01, 7, 8, 9, 0xaa]);
    assert_eq!(PayloadCommand1::BatteryLevelRequest(BatteryType::Case).write_into(&mut buf), Ok(2));
    assert_eq!(&buf[..2], &[0x10, 0x02]);
    let state = BatteryState::Single { level: 80, is_charging: false };
    assert_eq!(PayloadCommand1::BatteryLevelReply(state).write_into(&mut buf), Ok(4));
    assert_eq!(&buf[..4], &[0x11, 0, 80, 0]);
    assert_eq!(PayloadCommand1::BatteryLevelNotify(state).write_into(&mut buf), Ok(4));
    assert_eq!(&buf[..4], &[0x13, 0, 80, 0]);
    assert_eq!(PayloadCommand1::AmbientSoundControlGet.write_into(&mut buf), Ok(2));
    assert_eq!(&buf[..2], &[0x66, 0x02]);
    let settings = anc(AncMode::Wind, false, 0);
    assert_eq!(PayloadCommand1::AmbientSoundControlRet(settings).write_into(&mut buf), Ok(8));
    assert_eq!(&buf[..9], &[0x67, 0x02, 0x11, 0x02, 0x01, 0x01, 0x00, 0x01, 0xaa]);
    assert_eq!(PayloadCommand1::AmbientSoundControlSet(settings).write_into(&mut buf), Ok(8));
    assert_eq!(buf[0], 0x68);
    assert_eq!(PayloadCommand1::AmbientSoundControlNotify(settings).write_into(&mut buf), Ok(8));
    assert_eq!(buf[0], 0x69);
}

#[test]
fn commands_without_codec_are_not_implemented() {
    let mut buf = [0xaau8; 9];
    assert_eq!(
        PayloadCommand1::FwVersionRequest.write_into(&mut buf),
        Err(Error::NotImplemented("0x04"))
    );
    assert_eq!(PayloadCommand1::PowerOff.write_into(&mut buf), Err(Error::NotImplemented("0x22")));
    assert_eq!(
        PayloadCommand1::SpeakToChatConfigNotify.write_into(&mut buf),
        Err(Error::NotImplemented("0xfd"))
    );
    assert_eq!(buf, [0xaa; 9]);
    assert_eq!(
        PayloadCommand1::try_from(&[0x04u8, 1, 2][..]),
        Err(Error::NotImplemented("Self::FwVersionRequest"))
    );
    assert_eq!(
        PayloadCommand1::try_from(&[0xc9u8][..]),
        Err(Error::NotImplemented("Self::JsonRet"))
    );
    assert_eq!(
        PayloadCommand1::try_from(&[0x89u8][..]),
        Err(Error::NotImplemented("Self::NoiseCancellingOptimizerStateNotify"))
    );
    assert_eq!(PayloadCommand1::JsonRet.code(), 0xc9);
    assert_eq!(PayloadCommand1::SomethingGet.code(), 0x90);
    assert_eq!(PayloadCommand1::VolumeSet.code(), 0xa8);
}

#[test]
fn command_bodies_are_read() {
    assert_eq!(PayloadCommand1::try_from(&[0x00u8][..]), Ok(PayloadCommand1::InitRequest));
    assert_eq!(
        PayloadCommand1::try_from(&[0x01u8, 4, 5, 6][..]),
        Ok(PayloadCommand1::InitReply([4, 5, 6]))
    );
    assert_eq!(
        PayloadCommand1::try_from(&[0x10u8, 1][..]),
        Ok(PayloadCommand1::BatteryLevelRequest(BatteryType::Dual))
    );
    assert_eq!(
        PayloadCommand1::try_from(&[0x13u8, 2, 44, 1][..]),
        Ok(PayloadCommand1::BatteryLevelNotify(BatteryState::Case { level: 44, is_charging: true }))
    );
    assert_eq!(
        PayloadCommand1::try_from(&[0x66u8][..]),
        Ok(PayloadCommand1::AmbientSoundControlGet)
    );
    assert_eq!(
        PayloadCommand1::try_from(&[0x67u8, 2, 0, 2, 0, 1, 0, 3][..]),
        Ok(PayloadCommand1::AmbientSoundControlRet(anc(AncMode::Off, false, 3)))
    );
    assert_eq!(
        PayloadCommand1::try_from(&[0x69u8, 2, 1, 2, 1, 1, 1, 3][..]),
        Ok(PayloadCommand1::AmbientSoundControlNotify(anc(AncMode::Wind, true, 3)))
    );
}

#[test]
fn command_bodies_with_faults() {
    assert_eq!(PayloadCommand1::try_from(&[][..]), Err(Error::MissingBytes));
    assert_eq!(PayloadCommand1::try_from(&[0x01u8, 4, 5][..]), Err(Error::MissingBytes));
    assert_eq!(PayloadCommand1::try_from(&[0x10u8][..]), Err(Error::MissingBytes));
    assert_eq!(PayloadCommand1::try_from(&[0x11u8][..]), Err(Error::MissingBytes));
    assert_eq!(PayloadCommand1::try_from(&[0x68u8, 2, 0][..]), Err(Error::MissingBytes));
    assert_eq!(PayloadCommand1::try_from(&[0x02u8][..]), Err(Error::UnknownPayloadType(0x02)));
    assert_eq!(PayloadCommand1::try_from(&[0xffu8, 1][..]), Err(Error::UnknownPayloadType(0xff)));
    assert_eq!(
        PayloadCommand1::try_from(&[0x10u8, 7][..]),
        Err(Error::InvalidValueForEnum { what: "battery type", value: 7 })
    );
}

#[test]
fn packet_is_written_before_escaping() {
    let mut buf = [0xaau8; 20];
    let packet = Packet::new(0x3c, PacketContent::Command1(PayloadCommand1::InitRequest));
    assert_eq!(packet.write_into(&mut buf), Ok(11));
    assert_eq!(
        &buf[..12],
        &[0x3e, 0x0c, 0x3c, 0x00, 0x00, 0x00, 0x02, 0x00, 0x00, 0x4a, 0x3c, 0xaa]
    );
    let ack = Packet::new(1, PacketContent::Ack);
    assert_eq!(ack.write_into(&mut buf), Ok(9));
    assert_eq!(&buf[..9], &[0x3e, 0x01, 0x01, 0x00, 0x00, 0x00, 0x00, 0x02, 0x3c]);
    assert_eq!(
        Packet::new(0, PacketContent::Command2).write_into(&mut buf),
        Err(Error::NotImplemented("Command2"))
    );
    assert_eq!(
        Packet::new(0, PacketContent::Command1(PayloadCommand1::EqualizerGet)).write_into(&mut buf),
        Err(Error::NotImplemented("0x56"))
    );
}

#[test]
fn packet_accessors() {
    let packet = Packet::new(5, PacketContent::Ack);
    assert_eq!(packet.seqnum(), 5);
    assert!(packet.is_ack());
    assert_eq!(packet.content.kind(), 0x01);
    let command = Packet::new(6, PacketContent::Command1(PayloadCommand1::InitRequest));
    assert!(!command.is_ack());
    assert_eq!(command.content.kind(), 0x0c);
    assert!(!Packet::new(0, PacketContent::Command2).is_ack());
    assert_eq!(PacketContent::Command2.kind(), 0x0e);
}

#[test]
fn frames_are_read() {
    assert_eq!(
        Packet::try_from(&[0x3eu8, 0x01, 0x07, 0, 0, 0, 0, 0x08, 0x3c][..]),
        Ok(Packet::new(7, PacketContent::Ack))
    );
    assert_eq!(
        Packet::try_from(&[0x3eu8, 0x01, 0x07][..]),
        Ok(Packet::new(7, PacketContent::Ack))
    );
    assert_eq!(
        Packet::try_from(&[0x3eu8, 0x0e, 0x01, 0, 0, 0, 1, 0x55, 0x65, 0x3c][..]),
        Ok(Packet::new(1, PacketContent::Command2))
    );
    assert_eq!(
        Packet::try_from(&[0x3eu8, 0x0c, 0x01, 0, 0, 0, 2, 0x10, 0x02, 0x21, 0x3c][..]),
        Ok(Packet::new(
            1,
            PacketContent::Command1(PayloadCommand1::BatteryLevelRequest(BatteryType::Case))
        ))
    );
    assert_eq!(
        Packet::try_from(&[0x3eu8, 0x0c, 0x01, 0, 0, 0, 2, 0x10, 0x02, 0xff, 0x3c][..]),
        Ok(Packet::new(
            1,
            PacketContent::Command1(PayloadCommand1::BatteryLevelRequest(BatteryType::Case))
        ))
    );
}

#[test]
fn frames_with_faults() {
    assert_eq!(
        Packet::try_from(&[0x3eu8, 0x0c][..]),
        Err(TryFromPacketError::ProtocolError(Error::MissingBytes))
    );
    assert_eq!(
        Packet::try_from(&[][..]),
        Err(TryFromPacketError::ProtocolError(Error::MissingBytes))
    );
    assert_eq!(
        Packet::try_from(&[0x3eu8, 0x0d, 0x09, 0, 0, 0, 0, 0x16, 0x3c][..]),
        Err(sequenced(9, Error::UnknownPacket("unknown kind")))
    );
    assert_eq!(
        Packet::try_from(&[0x3eu8, 0x0c, 0x02, 0, 0, 0][..]),
        Err(sequenced(2, Error::MissingBytes))
    );
    assert_eq!(
        Packet::try_from(&[0x3eu8, 0x0c, 0x02, 0, 0, 0, 5, 0x10, 0x02, 0x21, 0x3c][..]),
        Err(sequenced(2, Error::MissingBytes))
    );
    assert_eq!(
        Packet::try_from(&[0x3eu8, 0x0c, 0x02, 0xff, 0xff, 0xff, 0xff, 0x10, 0x02][..]),
        Err(sequenced(2, Error::MissingBytes))
    );
    assert_eq!(
        Packet::try_from(&[0x3eu8, 0x0c, 0x02, 0, 0, 0, 0, 0x0e, 0x3c][..]),
        Err(sequenced(2, Error::MissingBytes))
    );
    assert_eq!(
        Packet::try_from(&[0x3eu8, 0x0c, 0x02, 0, 0, 0, 1, 0x03, 0x12, 0x3c][..]),
        Err(sequenced(2, Error::UnknownPayloadType(3)))
    );
    assert_eq!(
        Packet::try_from(&[0x3eu8, 0x0c, 0x02, 0, 0, 0, 1, 0x22, 0x31, 0x3c][..]),
        Err(sequenced(2, Error::NotImplemented("Self::PowerOff")))
    );
    assert_eq!(
        Packet::try_from(&[0x3eu8, 0x0c, 0x02, 0, 0, 0, 2, 0x10, 0x09, 0x29, 0x3c][..]),
        Err(sequenced(2, Error::InvalidValueForEnum { what: "battery type", value: 9 }))
    );
}

#[test]
fn parse_errors_give_their_parts() {
    let with = sequenced(4, Error::MissingBytes);
    assert_eq!(with.seqnum(), Some(4));
    assert_eq!(with.error(), Error::MissingBytes);
    let without = TryFromPacketError::from(Error::PacketPending);
    assert_eq!(without, TryFromPacketError::ProtocolError(Error::PacketPending));
    assert_eq!(without.seqnum(), None);
    assert_eq!(without.error(), Error::PacketPending);
}

#[test]
fn frames_round_trip() {
    let contents = [
        PacketContent::Ack,
        PacketContent::Command1(PayloadCommand1::InitRequest),
        PacketContent::Command1(PayloadCommand1::InitReply([0x3c, 0x3d, 0x3e])),
        PacketContent::Command1(PayloadCommand1::BatteryLevelRequest(BatteryType::Single)),
        PacketContent::Command1(PayloadCommand1::BatteryLevelReply(BatteryState::Dual {
            level_left: 1,
            is_left_charging: false,
            level_right: 100,
            is_right_charging: true,
        })),
        PacketContent::Command1(PayloadCommand1::BatteryLevelNotify(BatteryState::Case {
            level: 0,
            is_charging: true,
        })),
        PacketContent::Command1(PayloadCommand1::AmbientSoundControlGet),
        PacketContent::Command1(PayloadCommand1::AmbientSoundControlNotify(anc(
            AncMode::Off,
            true,
            0x3c,
        ))),
    ];
    for content in contents {
        for seqnum in [0u8, 1, 0x3c, 0xff] {
            let packet = Packet::new(seqnum, content);
            let frame = packet.to_frame().unwrap();
            assert_eq!(Packet::try_from(&frame[..]), Ok(packet));
            let mut buf = [0u8; 32];
            assert_eq!(packet.write_into(&mut buf), Ok(frame.len()));
            assert_eq!(&buf[..frame.len()], &frame[..]);
        }
    }
}

#[test]
fn wire_frames_hold_no_bare_sentinel() {
    let packet = Packet::new(
        0x3e,
        PacketContent::Command1(PayloadCommand1::InitReply([0x3c, 0x3d, 0x29])),
    );
    let wire = packet.to_wire().unwrap();
    assert_eq!(
        wire,
        vec![
            0x3e, 0x0c, 0x3d, 0x2e, 0x00, 0x00, 0x00, 0x04, 0x01, 0x3d, 0x2c, 0x3d, 0x2d, 0x29,
            0xf1, 0x3c
        ]
    );
    assert_eq!(wire[0], 0x3e);
    assert_eq!(wire[wire.len() - 1], 0x3c);
    let middle = &wire[1..wire.len() - 1];
    assert!(middle.iter().all(|b| *b != 0x3e && *b != 0x3c));
    for (i, b) in middle.iter().enumerate() {
        if *b == 0x3d {
            assert!([0x2c, 0x2d, 0x2e].contains(&middle[i + 1]));
        }
    }
    let frame = packet.to_frame().unwrap();
    let covered = &frame[1..frame.len() - 2];
    assert_eq!(frame[frame.len() - 2], compute_checksum(covered));
}

#[test]
fn checksum_wraps() {
    assert_eq!(compute_checksum(&[]), 0);
    assert_eq!(compute_checksum(&[0xff, 0x02]), 0x01);
    assert_eq!(compute_checksum(&[0x0c, 0x01, 0, 0, 0, 0x04, 0x01, 0x00, 0x70, 0x00]), 0x82);
    assert_eq!(compute_checksum(&[0x80; 4]), 0x00);
}

#[test]
fn sentinels_are_escaped() {
    let mut out = vec![0x99u8];
    escape_onto(&mut out, &[0x3c, 0x3d, 0x3e, 0x41, 0x2c]);
    assert_eq!(out, vec![0x99, 0x3d, 0x2c, 0x3d, 0x2d, 0x3d, 0x2e, 0x41, 0x2c]);
    copy_onto(&mut out, &[0x3c, 0x01]);
    assert_eq!(out, vec![0x99, 0x3d, 0x2c, 0x3d, 0x2d, 0x3d, 0x2e, 0x41, 0x2c, 0x3c, 0x01]);
}

#[test]
fn errors_describe_themselves() {
    assert_eq!(Error::UnknownPacket("x").message(), "unknown packet (type = \"x\")");
    assert_eq!(Error::PacketPending.message(), "already in sending state");
    assert_eq!(
        Error::InvalidValueForEnum { what: "battery type", value: 0x0a }.message(),
        "invalid value for battery type : 0a"
    );
    assert_eq!(Error::UnknownPayloadType(0xf3).message(), "unknown payload type : f3");
    assert_eq!(Error::MissingBytes.message(), "missing data to parse packet");
    assert_eq!(Error::NotImplemented("0x04").message(), "0x04 is not implemented");
}

#[test]
fn service_uuid() {
    assert_eq!(
        format!("{:032X}", sony_protocol::SERVICE_UUID),
        "96CC203E506846ADB32DE316F5E069BA"
    );
}
