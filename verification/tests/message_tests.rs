use swordfish_comm::swordfish_concentrated_message::SwordFishConcentratedMessageBufferBuilder;
use swordfish_comm::SwordFishMessageError;
use swordfish_comm::SwordFishMessageTrait;
use swordfish_comm::PingMessage;
use swordfish_comm::SwordFishConcentratedMessage;
use swordfish_comm::swordfish_messages::Ping;
use swordfish_comm::swordfish_messages::VersionData;

#[test]
fn to_from() {
    let input_version_data = VersionData::default();
    let input_concentrated_data = input_version_data.to_concentrated(0);
    let bytes = input_concentrated_data.clone().into_bytes();
    let mut concentrated_message_builder = SwordFishConcentratedMessageBufferBuilder::new();
    let output_concenrated_msg = concentrated_message_builder.append_buffer(&bytes).unwrap();
    assert_eq!(input_concentrated_data, output_concenrated_msg);
    let output_version_data = VersionData::from_concentrated(&output_concenrated_msg).unwrap();
    assert_eq!(input_version_data, output_version_data);
}

#[test]
fn ping_round_trip_wire_bytes() {
    // a zero-length ping under counter 7: 9 header bytes plus the checksum
    let ping = Ping::default();
    let frame = ping.to_concentrated(7);
    assert_eq!(frame.opcode, 0);
    assert_eq!(frame.length, 0);
    assert_eq!(frame.counter, 7);
    let bytes = frame.into_bytes();
    assert_eq!(bytes.len(), 10);
    assert_eq!(
        bytes,
        vec![0xde, 0xad, 0xbe, 0xef, 0x07, 0x00, 0x00, 0x00, 0x00, 0x3f]
    );
    let mut builder = SwordFishConcentratedMessageBufferBuilder::new();
    let decoded = builder.append_buffer(&bytes).unwrap();
    assert_eq!(decoded.opcode, 0);
    assert_eq!(decoded.length, 0);
    assert_eq!(decoded.counter, 7);
    let decoded_ping = Ping::from_concentrated(&decoded);
    assert!(decoded_ping.is_ok());
}

#[test]
fn version_data_round_trip() {
    // the full identity record survives encode, wire serialization and decode
    let uuid: Vec<u8> = vec![0, 1, 2, 3, 4, 5, 6, 7];
    let record = VersionData::new(1, 2, 0x11223344, &uuid);
    let frame = record.to_concentrated(0);
    assert_eq!(frame.length, 14);
    assert_eq!(frame.checksum, 17);
    let bytes = frame.clone().into_bytes();
    assert_eq!(bytes.len(), 24);
    let mut builder = SwordFishConcentratedMessageBufferBuilder::new();
    let decoded_frame = builder.append_buffer(&bytes).unwrap();
    assert_eq!(frame, decoded_frame);
    let decoded = VersionData::from_concentrated(&decoded_frame).unwrap();
    assert_eq!(decoded.get_version(), 1);
    assert_eq!(decoded.get_subversion(), 2);
    assert_eq!(decoded.get_mcu_type(), 0x11223344);
    assert_eq!(decoded.get_uuid(), uuid);
    assert_eq!(record, decoded);
}

#[test]
fn version_data_round_trip_counter_preserved() {
    let record = VersionData::new(9, 8, 0xdeadbeef, &[0xaa; 8]);
    let frame = record.to_concentrated(0x1234);
    assert_eq!(frame.counter, 0x1234);
    let decoded = VersionData::from_concentrated(&frame).unwrap();
    assert_eq!(record, decoded);
}

#[test]
fn from_concentrated_wrong_opcode() {
    let ping_frame = Ping::default().to_concentrated(3);
    let err = VersionData::from_concentrated(&ping_frame).unwrap_err();
    assert_eq!(err, SwordFishMessageError::WrongOpcode { expected: 2, got: 0 });
}

#[test]
fn from_concentrated_wrong_length() {
    // opcode 2 but a payload of the wrong size
    let frame = SwordFishConcentratedMessage::new(0, 2, &[1, 2, 3]);
    let err = VersionData::from_concentrated(&frame).unwrap_err();
    assert_eq!(
        err,
        SwordFishMessageError::WrongLength { expected_length: 14, got_length: 3 }
    );
}

#[test]
fn ping_decode_rejects_payload() {
    let frame = SwordFishConcentratedMessage::new(0, 0, &[1]);
    let err = PingMessage::from_concentrated(&frame).unwrap_err();
    assert_eq!(err, SwordFishMessageError::WrongLength { expected_length: 0, got_length: 1 });
}

#[test]
fn version_data_getters_setters() {
    let mut record = VersionData::default();
    assert_eq!(record.get_version(), 0);
    assert_eq!(record.get_subversion(), 0);
    assert_eq!(record.get_mcu_type(), 0);
    assert_eq!(record.get_uuid(), vec![0u8; 8]);
    record.set_version(5);
    record.set_subversion(6);
    record.set_mcu_type(0xcafe);
    record.set_uuid(&[9, 9, 9]);
    assert_eq!(record.get_version(), 5);
    assert_eq!(record.get_subversion(), 6);
    assert_eq!(record.get_mcu_type(), 0xcafe);
    // a short identifier is zero-padded to eight bytes
    assert_eq!(record.get_uuid(), vec![9, 9, 9, 0, 0, 0, 0, 0]);
    // a long identifier is truncated to eight bytes
    record.set_uuid(&[1, 2, 3, 4, 5, 6, 7, 8, 9, 10]);
    assert_eq!(record.get_uuid(), vec![1, 2, 3, 4, 5, 6, 7, 8]);
}

#[test]
fn message_type_constants() {
    assert_eq!(Ping::opcode(), 0);
    assert_eq!(VersionData::opcode(), 2);
    assert_eq!(Ping::get_payload_length(), 0);
    assert_eq!(VersionData::get_payload_length(), 14);
}
