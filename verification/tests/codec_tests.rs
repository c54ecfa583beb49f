use swordfish_comm::swordfish_concentrated_message::SwordFishConcentratedMessageBufferBuilder;
use swordfish_comm::SwordFishConcentratedMessage;

fn fresh_builder() -> SwordFishConcentratedMessageBufferBuilder {
    SwordFishConcentratedMessageBufferBuilder::new()
}

#[test]
fn encode_produces_exact_wire_layout() {
    let frame = SwordFishConcentratedMessage::new(0x0201, 7, &[0x10, 0x20]);
    assert_eq!(frame.sync_word, 0xefbeadde);
    assert_eq!(frame.counter, 0x0201);
    assert_eq!(frame.opcode, 7);
    assert_eq!(frame.length, 2);
    let bytes = frame.into_bytes();
    // sync word, counter, opcode, length, payload, checksum: 9 + 2 + 1 bytes
    assert_eq!(bytes.len(), 12);
    assert_eq!(&bytes[0..4], &[0xde, 0xad, 0xbe, 0xef]);
    assert_eq!(&bytes[4..6], &[0x01, 0x02]);
    assert_eq!(bytes[6], 7);
    assert_eq!(&bytes[7..9], &[0x02, 0x00]);
    assert_eq!(&bytes[9..11], &[0x10, 0x20]);
    // checksum: de+ad+be+ef + 01+02 + 07 + 02+00 + 10+20 modulo 256
    let expected: u8 = [0xdeu64, 0xad, 0xbe, 0xef, 0x01, 0x02, 0x07, 0x02, 0x00, 0x10, 0x20]
        .iter()
        .sum::<u64>() as u8;
    assert_eq!(bytes[11], expected);
}

#[test]
fn try_new_rejects_overlong_payload() {
    // 245 bytes is the largest payload the wire format carries
    let just_fits = vec![0u8; 245];
    assert!(SwordFishConcentratedMessage::try_new(0, 1, &just_fits).is_some());
    let too_long = vec![0u8; 246];
    assert!(SwordFishConcentratedMessage::try_new(0, 1, &too_long).is_none());
}

#[test]
fn decoder_round_trips_a_frame() {
    let frame = SwordFishConcentratedMessage::new(42, 0, &[]);
    let bytes = frame.clone().into_bytes();
    let mut builder = fresh_builder();
    let decoded = builder.append_buffer(&bytes).unwrap();
    assert_eq!(frame, decoded);
}

#[test]
fn decoder_resynchronizes_past_garbage() {
    // garbage without the sync pattern, then a valid frame, in one chunk
    let frame = SwordFishConcentratedMessage::new(3, 2, &[5, 6, 7]);
    let bytes = frame.clone().into_bytes();
    let mut fed: Vec<u8> = vec![0x00, 0xff, 0x17, 0xde, 0xde, 0x99];
    fed.extend_from_slice(&bytes);
    let mut builder = fresh_builder();
    let decoded = builder.append_buffer(&fed).unwrap();
    assert_eq!(frame, decoded);
}

#[test]
fn decoder_assembles_across_chunks() {
    // garbage and the frame arrive in three pieces; nothing spurious comes
    // out early and the frame comes out whole
    let frame = SwordFishConcentratedMessage::new(7, 2, &[1, 2, 3, 4]);
    let bytes = frame.clone().into_bytes();
    let mut builder = fresh_builder();
    assert!(builder.append_buffer(&[0x11, 0x22, 0x33]).is_none());
    assert!(builder.append_buffer(&bytes[0..6]).is_none());
    let decoded = builder.append_buffer(&bytes[6..]).unwrap();
    assert_eq!(frame, decoded);
}

#[test]
fn decoder_yields_consecutive_frames() {
    let first = SwordFishConcentratedMessage::new(1, 0, &[]);
    let second = SwordFishConcentratedMessage::new(2, 2, &[9]);
    let mut fed = first.clone().into_bytes();
    fed.extend_from_slice(&second.clone().into_bytes());
    let mut builder = fresh_builder();
    let one = builder.append_buffer(&fed).unwrap();
    assert_eq!(first, one);
    let two = builder.append_buffer(&[]).unwrap();
    assert_eq!(second, two);
    assert!(builder.append_buffer(&[]).is_none());
}

#[test]
fn single_byte_corruption_is_rejected() {
    // flipping any one byte of a valid serialized frame makes the decoder
    // reject it
    let frame = SwordFishConcentratedMessage::new(0x1234, 2, &[0, 1, 2, 3, 4, 5, 6, 7]);
    let bytes = frame.into_bytes();
    for i in 0..bytes.len() {
        let mut corrupted = bytes.clone();
        corrupted[i] ^= 0x5a;
        let mut builder = fresh_builder();
        assert!(
            builder.append_buffer(&corrupted).is_none(),
            "corrupting byte {} went unnoticed",
            i
        );
    }
}

#[test]
fn overlong_declared_length_is_not_decoded() {
    // a sync word followed by a length declaration beyond the maximum is
    // treated as corrupt: nothing comes out
    let fed: Vec<u8> = vec![0xde, 0xad, 0xbe, 0xef, 0x00, 0x00, 0x01, 0x2c, 0x01];
    let mut builder = fresh_builder();
    assert!(builder.append_buffer(&fed).is_none());
}

#[test]
fn incomplete_frame_waits_for_the_rest() {
    let frame = SwordFishConcentratedMessage::new(5, 0, &[]);
    let bytes = frame.clone().into_bytes();
    let mut builder = fresh_builder();
    assert!(builder.append_buffer(&bytes[0..9]).is_none());
    let decoded = builder.append_buffer(&bytes[9..]).unwrap();
    assert_eq!(frame, decoded);
}

#[test]
fn decoder_evicts_old_garbage_and_recovers() {
    // two full frame sizes of sync-free garbage trigger the eviction of the
    // oldest frame-size worth; a later valid frame still comes out
    let mut builder = fresh_builder();
    let garbage = vec![0x42u8; 510];
    assert!(builder.append_buffer(&garbage).is_none());
    let frame = SwordFishConcentratedMessage::new(1, 2, &[1, 2, 3]);
    let bytes = frame.clone().into_bytes();
    let decoded = builder.append_buffer(&bytes).unwrap();
    assert_eq!(frame, decoded);
}

#[test]
fn default_frame_is_empty() {
    let frame = SwordFishConcentratedMessage::default();
    assert_eq!(frame.sync_word, 0);
    assert_eq!(frame.counter, 0);
    assert_eq!(frame.opcode, 0);
    assert_eq!(frame.length, 0);
    assert_eq!(frame.checksum, 0);
    assert_eq!(frame.payload.len(), 0);
}
