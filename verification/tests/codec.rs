use mc_bot::Buf;
use mc_bot::PacketFramer;
use mc_bot::ProtoError;

fn round_trip(v: u32) -> (u32, usize) {
    let mut buf = Buf::new();
    buf.write_var_u32(v);
    let written = buf.len();
    let decoded = buf.read_var_u32().expect("round trip must decode");
    (decoded, written)
}

#[test]
fn varint_round_trip_small() {
    for v in [0u32, 1, 2, 100, 127] {
        let (decoded, written) = round_trip(v);
        assert_eq!(decoded, v);
        assert_eq!(written, 1);
    }
}

#[test]
fn varint_round_trip_boundaries() {
    let cases: [(u32, usize); 9] = [
        (128, 2),
        (300, 2),
        (16383, 2),
        (16384, 3),
        (2097151, 3),
        (2097152, 4),
        (268435455, 4),
        (268435456, 5),
        (u32::MAX, 5),
    ];
    for (v, expected_len) in cases {
        let (decoded, written) = round_trip(v);
        assert_eq!(decoded, v);
        assert_eq!(written, expected_len);
    }
}

#[test]
fn varint_known_encoding() {
    let mut buf = Buf::new();
    buf.write_var_u32(300);
    assert_eq!(buf.buffer, vec![0xAC, 0x02]);
    let mut buf = Buf::new();
    buf.write_var_u32(u32::MAX);
    assert_eq!(buf.buffer, vec![0xFF, 0xFF, 0xFF, 0xFF, 0x0F]);
}

#[test]
fn varint_size_matches_minimal_length() {
    assert_eq!(Buf::get_var_u32_size(0), 1);
    assert_eq!(Buf::get_var_u32_size(127), 1);
    assert_eq!(Buf::get_var_u32_size(128), 2);
    assert_eq!(Buf::get_var_u32_size(16383), 2);
    assert_eq!(Buf::get_var_u32_size(16384), 3);
    assert_eq!(Buf::get_var_u32_size(2097151), 3);
    assert_eq!(Buf::get_var_u32_size(2097152), 4);
    assert_eq!(Buf::get_var_u32_size(268435455), 4);
    assert_eq!(Buf::get_var_u32_size(268435456), 5);
    assert_eq!(Buf::get_var_u32_size(u32::MAX), 5);
}

#[test]
fn varint_underflow_consumes_nothing() {
    let mut buf = Buf::from_vec(vec![0x80]);
    assert_eq!(buf.read_var_u32(), Err(ProtoError::BufferUnderflow));
    assert_eq!(buf.get_reader_index(), 0);
    let mut empty = Buf::new();
    assert_eq!(empty.read_var_u32(), Err(ProtoError::BufferUnderflow));
}

#[test]
fn varint_too_long_rejected() {
    let mut buf = Buf::from_vec(vec![0x80, 0x80, 0x80, 0x80, 0x80, 0x01]);
    assert_eq!(buf.read_var_u32(), Err(ProtoError::VarIntTooLong));
    // five bytes whose value does not fit in 32 bits
    let mut buf = Buf::from_vec(vec![0xFF, 0xFF, 0xFF, 0xFF, 0x7F]);
    assert_eq!(buf.read_var_u32(), Err(ProtoError::VarIntTooLong));
}

#[test]
fn frame_round_trip_exact() {
    let payload = vec![9u8, 8, 7, 6, 5];
    let framed = PacketFramer::process_write(Buf::from_vec(payload.clone()));
    assert_eq!(framed.buffer, vec![5u8, 9, 8, 7, 6, 5]);
    let mut incoming = Buf::from_vec(framed.buffer);
    let (extra, missing, size) = PacketFramer::process_read(&mut incoming).expect("must unwrap");
    assert!(!extra);
    assert_eq!(missing, 0);
    assert_eq!(size, 5);
    let start = incoming.get_reader_index();
    assert_eq!(incoming.copy_range(start, start + size as usize), payload);
}

#[test]
fn partial_frame_reports_exact_deficit() {
    let payload: Vec<u8> = (0..20u8).collect();
    let framed = PacketFramer::process_write(Buf::from_vec(payload));
    for k in 1..=20usize {
        let withheld = framed.buffer[..framed.buffer.len() - k].to_vec();
        let mut incoming = Buf::from_vec(withheld);
        let (extra, missing, size) =
            PacketFramer::process_read(&mut incoming).expect("prefix is intact");
        assert!(!extra);
        assert_eq!(missing as usize, k);
        assert_eq!(size, 20);
        assert_eq!(incoming.get_reader_index(), 0, "nothing may be consumed");
    }
}

#[test]
fn surplus_frame_reported() {
    let first = PacketFramer::process_write(Buf::from_vec(vec![1, 2, 3]));
    let second = PacketFramer::process_write(Buf::from_vec(vec![4]));
    let mut both = first;
    both.append(second);
    let mut incoming = Buf::from_vec(both.buffer);
    let (extra, missing, size) = PacketFramer::process_read(&mut incoming).expect("must unwrap");
    assert!(extra);
    assert_eq!(missing, 0);
    assert_eq!(size, 3);
}

#[test]
fn zero_length_frame_is_fatal() {
    let mut incoming = Buf::from_vec(vec![0x00, 0x01, 0x02]);
    assert_eq!(
        PacketFramer::process_read(&mut incoming),
        Err(ProtoError::ZeroLengthFrame)
    );
}

#[test]
fn buffer_cursors_and_append() {
    let mut buf = Buf::with_length(16);
    assert_eq!(buf.len(), 0);
    buf.write_u8(0xAA);
    buf.write_u16_be(0x1234);
    buf.write_u64_be(0x0102030405060708);
    assert_eq!(
        buf.buffer,
        vec![0xAA, 0x12, 0x34, 1, 2, 3, 4, 5, 6, 7, 8]
    );
    assert_eq!(buf.get_writer_index(), 11);
    let mut other = Buf::new();
    other.write_bytes(&[0xBB, 0xCC]);
    buf.append(other);
    assert_eq!(buf.len(), 13);
    buf.set_reader_index(11);
    assert_eq!(buf.remaining(), 2);
    buf.discard_read();
    assert_eq!(buf.buffer, vec![0xBB, 0xCC]);
    assert_eq!(buf.get_reader_index(), 0);
}
