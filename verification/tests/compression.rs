use mc_bot::Buf;
use mc_bot::PacketCompressor;
use mc_bot::ProtoError;

#[test]
fn passthrough_below_threshold() {
    let payload = vec![10u8, 20, 30, 40];
    let wrapped = PacketCompressor::process_write(Buf::from_vec(payload.clone()), 4);
    assert_eq!(wrapped.buffer, vec![0u8, 10, 20, 30, 40]);
    let length = wrapped.buffer.len() as u32;
    let mut incoming = Buf::from_vec(wrapped.buffer);
    let unwrapped = PacketCompressor::process_read(&mut incoming, length).expect("must unwrap");
    assert!(unwrapped.is_none(), "must report \"not compressed\"");
    assert_eq!(incoming.get_reader_index(), 1, "only the marker is consumed");
    let start = incoming.get_reader_index();
    assert_eq!(incoming.copy_range(start, incoming.len()), payload);
}

#[test]
fn round_trip_above_threshold() {
    let payload: Vec<u8> = (0..200u32).map(|i| (i % 16) as u8).collect();
    let wrapped = PacketCompressor::process_write(Buf::from_vec(payload.clone()), 10);
    // the decompressed size goes first: 200 is a two-byte encoding
    assert_eq!(&wrapped.buffer[..2], &[0xC8, 0x01]);
    // the body must actually be compressed, not handed back unchanged
    assert_ne!(&wrapped.buffer[2..], &payload[..]);
    let length = wrapped.buffer.len() as u32;
    let mut incoming = Buf::from_vec(wrapped.buffer);
    let unwrapped = PacketCompressor::process_read(&mut incoming, length)
        .expect("a wrapped body must unwrap")
        .expect("an over-threshold body must be compressed");
    assert_eq!(unwrapped.buffer, payload);
    assert_eq!(
        incoming.get_reader_index(),
        length as usize,
        "the whole body is consumed"
    );
}

#[test]
fn round_trip_single_byte_zero_threshold() {
    let wrapped = PacketCompressor::process_write(Buf::from_vec(vec![0x07]), 0);
    assert_eq!(wrapped.buffer[0], 0x01, "decompressed size goes first");
    let length = wrapped.buffer.len() as u32;
    let mut incoming = Buf::from_vec(wrapped.buffer);
    let unwrapped = PacketCompressor::process_read(&mut incoming, length)
        .expect("must unwrap")
        .expect("an over-threshold body is compressed");
    assert_eq!(unwrapped.buffer, vec![0x07]);
}

#[test]
fn corrupt_stream_reported() {
    // declared decompressed size 5, then bytes that are no zlib stream
    let mut incoming = Buf::from_vec(vec![0x05, 0xAB, 0xCD, 0xEF, 0x01]);
    assert!(matches!(
        PacketCompressor::process_read(&mut incoming, 5),
        Err(ProtoError::CompressionError)
    ));
    assert_eq!(incoming.get_reader_index(), 0, "nothing may be consumed");
}

#[test]
fn unfinished_size_prefix_reported() {
    let mut incoming = Buf::from_vec(vec![0x80]);
    assert!(matches!(
        PacketCompressor::process_read(&mut incoming, 1),
        Err(ProtoError::BufferUnderflow)
    ));
}
