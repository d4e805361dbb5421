use steel_recipes::protocol::{
    batch_len, ConnectionProtocol, PacketError, PendingWrite, RawPacket, WriteProgress, MAX_PACKET_DATA_SIZE,
    MAX_PACKET_SIZE,
};

#[test]
fn raw_packet_payload_skips_the_prefix() {
    let packet = RawPacket::new(7, vec![1, 2, 3]);
    assert_eq!(packet.id, 7);
    assert_eq!(packet.payload(), &[1, 2, 3]);

    let framed = RawPacket::from_buffer(3, vec![9, 9, 4, 5], 2);
    assert_eq!(framed.id, 3);
    assert_eq!(framed.payload(), &[4, 5]);

    let empty = RawPacket::from_buffer(0, vec![1, 2], 2);
    assert!(empty.payload().is_empty());
}

#[test]
fn protocol_constants_and_values() {
    assert_eq!(MAX_PACKET_SIZE, 2_097_152);
    assert_eq!(MAX_PACKET_DATA_SIZE, 8_388_608);
    assert_ne!(ConnectionProtocol::Handshake, ConnectionProtocol::Play);
    let error = PacketError::TooLong(5);
    assert!(matches!(error, PacketError::TooLong(5)));
}

#[test]
fn pending_write_tracks_partial_writes() {
    assert_eq!(batch_len(10), 10);
    assert_eq!(batch_len(5000), 4096);
    let mut pending = PendingWrite::new();
    assert!(!pending.has_waiting());
    pending.start_batch(vec![1, 2, 3, 4, 5]);
    assert!(pending.has_waiting());
    assert_eq!(pending.record_written(0), WriteProgress::Stalled);
    assert_eq!(pending.unwritten(), &[1, 2, 3, 4, 5]);
    assert_eq!(pending.record_written(2), WriteProgress::Partial);
    assert_eq!(pending.unwritten(), &[3, 4, 5]);
    assert_eq!(pending.record_written(7), WriteProgress::Complete);
    assert!(!pending.has_waiting());
    assert!(pending.unwritten().is_empty());
}
