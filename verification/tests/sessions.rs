use sony_protocol::device::{Device, State};
use sony_protocol::device_session::DeviceSession;
use sony_protocol::error::{Error, TryFromPacketError};
use sony_protocol::facade::{Action, Facade};
use sony_protocol::status::{DeviceStatus, UiDeviceBattery};
use sony_protocol::v1::{
    AncMode, AncPayload, BatteryState, BatteryType, Packet, PacketContent, PayloadCommand1,
};

const INIT_REQUEST: PacketContent = PacketContent::Command1(PayloadCommand1::InitRequest);

fn transmitted(facade: &mut Facade, now: u64) -> Vec<u8> {
    match facade.next_action(now) {
        Ok(Action::Transmit(bytes)) => bytes.to_vec(),
        other => panic!("expected bytes to transmit, got {:?}", other),
    }
}

#[test]
fn fresh_session_waits() {
    let mut device = Device::default();
    assert!(matches!(device.poll(0), Ok(State::WaitingPacket(None))));
    assert!(matches!(device.poll(u64::MAX), Ok(State::WaitingPacket(None))));
    assert_eq!(device.received_packet(&[]), 0);
    assert!(matches!(device.poll(3), Ok(State::WaitingPacket(None))));
}

#[test]
fn refused_send_leaves_nothing_outstanding() {
    let mut device = Device::default();
    assert_eq!(device.send_packet(PacketContent::Command2), Err(Error::NotImplemented("Command2")));
    assert_eq!(
        device.send_packet(PacketContent::Command1(PayloadCommand1::VolumeGet)),
        Err(Error::NotImplemented("0xa6"))
    );
    assert!(matches!(device.poll(0), Ok(State::WaitingPacket(None))));
    assert_eq!(device.send_packet(INIT_REQUEST), Ok(()));
}

#[test]
fn queued_acknowledgement_carries_the_complement() {
    let mut device = Device::default();
    assert_eq!(device.send_packet(PacketContent::Ack), Ok(()));
    match device.poll(0) {
        Ok(State::SendPacket(bytes)) => {
            assert_eq!(bytes, &[0x3e, 0x01, 0x01, 0x00, 0x00, 0x00, 0x00, 0x02, 0x3c])
        }
        other => panic!("unexpected {:?}", other),
    }
}

#[test]
fn deadline_stops_at_the_end_of_time() {
    let mut device = Device::default();
    device.send_packet(INIT_REQUEST).unwrap();
    assert!(matches!(device.poll(u64::MAX - 10), Ok(State::SendPacket(_))));
    assert!(matches!(device.poll(u64::MAX), Ok(State::WaitingPacket(Some(u64::MAX)))));
}

#[test]
fn clock_that_steps_back_waits() {
    let mut device = Device::default();
    device.send_packet(INIT_REQUEST).unwrap();
    assert!(matches!(device.poll(5000), Ok(State::SendPacket(_))));
    assert!(matches!(device.poll(100), Ok(State::WaitingPacket(Some(6000)))));
    assert!(matches!(device.poll(6000), Ok(State::WaitingPacket(Some(6000)))));
    assert!(matches!(device.poll(6001), Ok(State::SendPacket(_))));
}

#[test]
fn acknowledgement_is_written_behind_the_outstanding_command() {
    let mut device = Device::default();
    device.send_packet(INIT_REQUEST).unwrap();
    let request = match device.poll(0) {
        Ok(State::SendPacket(bytes)) => bytes.to_vec(),
        other => panic!("unexpected {:?}", other),
    };
    let notify = [0x3e, 0x0c, 0x00, 0, 0, 0, 0x04, 0x13, 0x00, 0x32, 0x00, 0x55, 0x3c];
    assert_eq!(device.received_packet(&notify), notify.len());
    match device.poll(10) {
        Ok(State::SendPacket(bytes)) => {
            assert_eq!(bytes, &[0x3e, 0x01, 0x01, 0, 0, 0, 0, 0x02, 0x3c])
        }
        other => panic!("unexpected {:?}", other),
    }
    match device.poll(20) {
        Ok(State::ReceivedPacket(packet)) => assert_eq!(
            packet,
            Packet::new(
                0,
                PacketContent::Command1(PayloadCommand1::BatteryLevelNotify(
                    BatteryState::Single { level: 0x32, is_charging: false }
                ))
            )
        ),
        other => panic!("unexpected {:?}", other),
    }
    assert!(matches!(device.poll(30), Ok(State::WaitingPacket(Some(1000)))));
    match device.poll(1001) {
        Ok(State::SendPacket(bytes)) => assert_eq!(bytes, &request[..]),
        other => panic!("unexpected {:?}", other),
    }
}

#[test]
fn stray_acknowledgement_does_not_move_the_sequence() {
    let mut device = Device::default();
    let ack = [0x3e, 0x01, 0x01, 0, 0, 0, 0, 0x02, 0x3c];
    device.received_packet(&ack);
    assert!(matches!(
        device.poll(0),
        Ok(State::ReceivedPacket(Packet { seqnum: 1, content: PacketContent::Ack }))
    ));
    device.send_packet(INIT_REQUEST).unwrap();
    match device.poll(0) {
        Ok(State::SendPacket(bytes)) => assert_eq!(bytes[2], 0),
        other => panic!("unexpected {:?}", other),
    }
}

#[test]
fn several_frames_in_one_intake() {
    let mut device = Device::default();
    let mut bytes = vec![0x3e, 0x01, 0x00, 0, 0, 0, 0, 0x01, 0x3c];
    bytes.extend_from_slice(&[0x3e, 0x0c, 0x01, 0, 0, 0, 0x01, 0x66, 0x74, 0x3c]);
    bytes.extend_from_slice(&[0x3e, 0x0e, 0x00]);
    assert_eq!(device.received_packet(&bytes), bytes.len());
    assert!(matches!(
        device.poll(0),
        Ok(State::ReceivedPacket(Packet { seqnum: 0, content: PacketContent::Ack }))
    ));
    assert!(matches!(device.poll(0), Ok(State::SendPacket(_))));
    assert!(matches!(
        device.poll(0),
        Ok(State::ReceivedPacket(Packet {
            seqnum: 1,
            content: PacketContent::Command1(PayloadCommand1::AmbientSoundControlGet)
        }))
    ));
    assert!(matches!(device.poll(0), Ok(State::WaitingPacket(None))));
    assert_eq!(device.received_packet(&[0, 0, 0, 0, 0x0e, 0x3c]), 6);
    assert!(matches!(device.poll(0), Ok(State::SendPacket(_))));
    assert!(matches!(
        device.poll(0),
        Ok(State::ReceivedPacket(Packet { seqnum: 0, content: PacketContent::Command2 }))
    ));
}

#[test]
fn buffer_starts_over_once_it_runs_empty() {
    let mut device = Device::default();
    let mut frame = vec![0x55u8; 1022];
    frame.push(0x3c);
    assert_eq!(device.received_packet(&frame), 1023);
    assert_eq!(device.received_packet(&[0x01]), 0);
    assert!(device.poll(0).is_ok());
    assert_eq!(device.received_packet(&[0x01, 0x02]), 2);
}

#[test]
fn escape_byte_needs_no_room_but_its_partner_does() {
    let mut device = Device::default();
    let mut flood = vec![0x55u8; 1022];
    flood.push(0x3d);
    flood.push(0x2c);
    flood.push(0x3c);
    assert_eq!(device.received_packet(&flood), 1024);
    assert_eq!(device.received_packet(&[0x3c]), 0);
}

#[test]
fn session_without_buffers_encodes() {
    let mut session = DeviceSession::new();
    let mut buf = [0xaau8; 32];
    assert_eq!(session.encode_packet(&mut buf, INIT_REQUEST, None), Ok(11));
    assert_eq!(&buf[..12], &[0x3e, 0x0c, 0, 0, 0, 0, 2, 0, 0, 0x0e, 0x3c, 0xaa]);
    assert_eq!(session.encode_packet(&mut buf, INIT_REQUEST, None), Err(Error::PacketPending));
    assert_eq!(session.encode_packet(&mut buf, PacketContent::Ack, Some(0)), Ok(9));
    assert_eq!(&buf[..9], &[0x3e, 0x01, 0x01, 0, 0, 0, 0, 0x02, 0x3c]);
    assert_eq!(session.encode_packet(&mut buf, PacketContent::Ack, None), Ok(9));
    assert_eq!(buf[2], 0x01);
}

#[test]
fn session_without_buffers_escapes_and_checks_room() {
    let mut session = DeviceSession::new();
    let mut small = [0xaau8; 10];
    assert_eq!(session.encode_packet(&mut small, INIT_REQUEST, None), Err(Error::MissingBytes));
    assert_eq!(small, [0xaa; 10]);
    let mut buf = [0xaau8; 32];
    assert_eq!(
        session.encode_packet(&mut buf, PacketContent::Command2, None),
        Err(Error::NotImplemented("Command2"))
    );
    assert_eq!(session.encode_packet(&mut buf, INIT_REQUEST, Some(0x3c)), Ok(12));
    assert_eq!(&buf[..12], &[0x3e, 0x0c, 0x3d, 0x2c, 0, 0, 0, 2, 0, 0, 0x4a, 0x3c]);
    assert_eq!(session.encode_packet(&mut buf, INIT_REQUEST, None), Err(Error::PacketPending));
}

#[test]
fn session_without_buffers_parses() {
    let mut session = DeviceSession::new();
    let mut buf = [0u8; 32];
    session.encode_packet(&mut buf, INIT_REQUEST, None).unwrap();
    let mut wire = vec![0x3e, 0x01, 0x01, 0, 0, 0, 0, 0x02, 0x3c];
    wire.extend_from_slice(&[0x3e, 0x0c, 0x01, 0, 0, 0, 4, 0x01, 0x3d, 0x2c, 2, 3, 0x53, 0x3c, 0x3e]);
    let (taken, packet) = session.parse_packet(&wire);
    assert_eq!(taken, 9);
    assert_eq!(packet, Ok(Packet::new(1, PacketContent::Ack)));
    let (taken, packet) = session.parse_packet(&wire[9..]);
    assert_eq!(taken, 14);
    assert_eq!(
        packet,
        Ok(Packet::new(1, PacketContent::Command1(PayloadCommand1::InitReply([0x3c, 2, 3]))))
    );
    let (taken, packet) = session.parse_packet(&wire[23..]);
    assert_eq!(taken, 1);
    assert_eq!(packet, Err(TryFromPacketError::ProtocolError(Error::MissingBytes)));
    assert_eq!(session.encode_packet(&mut buf, INIT_REQUEST, None), Ok(11));
    assert_eq!(buf[2], 1);
}

#[test]
fn session_without_buffers_reports_unreadable_frames() {
    let mut session = DeviceSession::new();
    let (taken, packet) = session.parse_packet(&[0x3e, 0x3c, 0x00]);
    assert_eq!(taken, 2);
    assert_eq!(packet, Err(TryFromPacketError::ProtocolError(Error::MissingBytes)));
    let (taken, packet) = session.parse_packet(&[0x3e, 0x0c, 0x05, 0, 0, 0, 1, 0x02, 0x14, 0x3c]);
    assert_eq!(taken, 10);
    assert_eq!(
        packet,
        Err(TryFromPacketError::SequencedError { seqnum: 5, error: Error::UnknownPayloadType(2) })
    );
    let (taken, packet) = session.parse_packet(&[]);
    assert_eq!(taken, 0);
    assert_eq!(packet, Err(TryFromPacketError::ProtocolError(Error::MissingBytes)));
}

#[test]
fn loop_actions_follow_the_session() {
    let mut facade = Facade::new();
    assert!(facade.accepts_send());
    assert!(matches!(facade.next_action(50), Ok(Action::Sleep(10_050))));
    assert!(matches!(facade.next_action(u64::MAX - 1), Ok(Action::Sleep(u64::MAX))));
    assert_eq!(facade.submit(INIT_REQUEST), Ok(()));
    assert!(!facade.accepts_send());
    assert_eq!(facade.submit(INIT_REQUEST), Err(Error::PacketPending));
    assert_eq!(
        transmitted(&mut facade, 100),
        vec![0x3e, 0x0c, 0, 0, 0, 0, 2, 0, 0, 0x0e, 0x3c]
    );
    assert!(matches!(facade.next_action(200), Ok(Action::Sleep(1100))));
    let ack = [0x3e, 0x01, 0x01, 0, 0, 0, 0, 0x02, 0x3c];
    assert_eq!(facade.feed(&ack), ack.len());
    assert!(matches!(facade.next_action(300), Ok(Action::CompleteSend)));
    assert!(facade.accepts_send());
    assert!(matches!(facade.next_action(400), Ok(Action::Sleep(10_400))));
}

#[test]
fn loop_broadcasts_and_discards() {
    let mut facade = Facade::new();
    let ack = [0x3e, 0x01, 0x01, 0, 0, 0, 0, 0x02, 0x3c];
    facade.feed(&ack);
    assert!(matches!(facade.next_action(0), Ok(Action::Discard)));
    let reply = [0x3e, 0x0c, 0x01, 0, 0, 0, 0x04, 0x01, 0x00, 0x70, 0x00, 0x82, 0x3c];
    facade.feed(&reply);
    assert_eq!(transmitted(&mut facade, 0), vec![0x3e, 0x01, 0, 0, 0, 0, 0, 0x01, 0x3c]);
    assert!(matches!(
        facade.next_action(0),
        Ok(Action::Broadcast(Packet {
            seqnum: 1,
            content: PacketContent::Command1(PayloadCommand1::InitReply([0, 0x70, 0]))
        }))
    ));
    facade.feed(&[0x3c]);
    assert!(matches!(
        facade.next_action(0),
        Err(TryFromPacketError::ProtocolError(Error::MissingBytes))
    ));
}

#[test]
fn status_follows_reports() {
    let mut status = DeviceStatus::new();
    assert_eq!(
        status,
        DeviceStatus { anc_mode: None, battery_device: None, battery_case: None }
    );
    assert_eq!(status.gauge_count(), 0);
    let settings = AncPayload { anc_mode: AncMode::Wind, focus_on_voice: true, ambiant_level: 3 };
    let command = |c| Packet::new(0, PacketContent::Command1(c));
    status.handle_stream_event(command(PayloadCommand1::AmbientSoundControlRet(settings)));
    assert_eq!(status.anc_mode, Some(settings));
    status.handle_stream_event(command(PayloadCommand1::AmbientSoundControlSet(AncPayload {
        anc_mode: AncMode::Off,
        focus_on_voice: false,
        ambiant_level: 0,
    })));
    assert_eq!(status.anc_mode, Some(settings));
    status.handle_stream_event(command(PayloadCommand1::BatteryLevelReply(BatteryState::Single {
        level: 60,
        is_charging: true,
    })));
    assert_eq!(status.battery_device, Some(UiDeviceBattery::Single(60)));
    assert_eq!(status.gauge_count(), 1);
    status.handle_stream_event(command(PayloadCommand1::BatteryLevelNotify(BatteryState::Dual {
        level_left: 10,
        is_left_charging: false,
        level_right: 20,
        is_right_charging: false,
    })));
    assert_eq!(status.battery_device, Some(UiDeviceBattery::Dual((10, 20))));
    status.handle_stream_event(command(PayloadCommand1::BatteryLevelReply(BatteryState::Case {
        level: 90,
        is_charging: false,
    })));
    assert_eq!(status.battery_case, Some(90));
    assert_eq!(status.gauge_count(), 3);
    let before = status;
    status.handle_stream_event(Packet::new(1, PacketContent::Ack));
    status.handle_stream_event(Packet::new(1, PacketContent::Command2));
    status.handle_stream_event(command(PayloadCommand1::BatteryLevelRequest(BatteryType::Dual)));
    assert_eq!(status, before);
}

#[test]
fn next_mode_cycles() {
    let mut status = DeviceStatus::new();
    let next = status.next_anc_mode();
    assert_eq!(
        next,
        AncPayload { anc_mode: AncMode::On, focus_on_voice: false, ambiant_level: 0 }
    );
    let mut seen = Vec::new();
    status.anc_mode = Some(AncPayload {
        anc_mode: AncMode::Off,
        focus_on_voice: true,
        ambiant_level: 9,
    });
    for _ in 0..4 {
        let next = status.next_anc_mode();
        assert!(!next.focus_on_voice);
        seen.push((next.anc_mode, next.ambiant_level));
        status.anc_mode = Some(next);
    }
    assert_eq!(
        seen,
        vec![(AncMode::AmbiantMode, 17), (AncMode::On, 0), (AncMode::Wind, 0), (AncMode::Off, 0)]
    );
}
