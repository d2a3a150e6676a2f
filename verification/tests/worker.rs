use mc_bot::Bot;
use mc_bot::Buf;
use mc_bot::ConnectionState;
use mc_bot::PacketFramer;
use mc_bot::PacketProcessor;
use mc_bot::ProtoError;
use mc_bot::connect_sequence;
use mc_bot::encode_packet;
use mc_bot::process_incoming;
use mc_bot::tick_position_update;
use mc_bot::write_current_pos;

fn frame(payload: Vec<u8>) -> Vec<u8> {
    PacketFramer::process_write(Buf::from_vec(payload)).buffer
}

#[test]
fn connect_sequence_bytes_and_state() {
    let mut bot = Bot::new(0, b"Bot_0".to_vec());
    let out = connect_sequence(&mut bot, 754, b"", 0).expect("small packets must frame");
    assert_eq!(bot.state, ConnectionState::Login);
    let handshake = vec![0x00, 0xF2, 0x05, 0x00, 0x00, 0x00, 0x02];
    let login_start = vec![0x00, 0x05, b'B', b'o', b't', b'_', b'0'];
    let mut expected = frame(handshake);
    expected.extend_from_slice(&frame(login_start));
    assert_eq!(out.buffer, expected);
}

#[test]
fn bot_reaches_play_and_emits_position_update() {
    let table = PacketProcessor::new();
    let mut bot = Bot::new(0, b"Bot_0".to_vec());
    let _ = connect_sequence(&mut bot, 754, b"", 0).expect("must frame");

    // the test server answers with login-success, no compression
    let login_success = frame(vec![0x02]);
    process_incoming(&mut bot, &table, &login_success).expect("a clean stream");
    assert_eq!(bot.state, ConnectionState::Play);

    // nothing goes out while the teleported flag is clear
    assert!(tick_position_update(&bot).expect("small packet").is_none());

    // once it is set, the next tick emits a position update at (0, 0, 0)
    bot.teleported = true;
    let update = tick_position_update(&bot)
        .expect("small packet")
        .expect("a teleported connection must emit");
    let mut payload = vec![0x12];
    payload.extend_from_slice(&[0u8; 24]);
    payload.push(0x00);
    assert_eq!(update.buffer, frame(payload));
}

#[test]
fn position_update_echoes_current_coordinates() {
    let mut bot = Bot::new(0, Vec::new());
    bot.x_bits = (100.5f64).to_bits();
    bot.y_bits = (64.0f64).to_bits();
    bot.z_bits = (-8.25f64).to_bits();
    let packet = write_current_pos(&bot);
    assert_eq!(packet.buffer[0], 0x12);
    assert_eq!(packet.buffer[1..9], (100.5f64).to_bits().to_be_bytes());
    assert_eq!(packet.buffer[9..17], (64.0f64).to_bits().to_be_bytes());
    assert_eq!(packet.buffer[17..25], (-8.25f64).to_bits().to_be_bytes());
    assert_eq!(packet.buffer[25], 0x00);
    assert_eq!(packet.buffer.len(), 26);
}

#[test]
fn pipelined_frames_processed_in_order() {
    let table = PacketProcessor::new();
    let mut bot = Bot::new(0, Vec::new());
    bot.state = ConnectionState::Login;
    // set-compression (threshold 64) and login-success arrive in one read;
    // the second frame already carries the layer, as the zero marker
    let mut batch = frame(vec![0x03, 0x40]);
    batch.extend_from_slice(&frame(vec![0x00, 0x02]));
    process_incoming(&mut bot, &table, &batch).expect("a clean stream");
    assert_eq!(bot.compression_threshold, 64);
    assert!(bot.compression_enabled);
    assert_eq!(bot.state, ConnectionState::Play);
}

#[test]
fn split_frame_is_retained_across_reads() {
    let table = PacketProcessor::new();
    let mut bot = Bot::new(0, Vec::new());
    bot.state = ConnectionState::Login;
    let bytes = frame(vec![0x02]);
    let (head, tail) = bytes.split_at(1);
    process_incoming(&mut bot, &table, head).expect("an incomplete frame is no error");
    assert_eq!(bot.state, ConnectionState::Login, "no complete frame yet");
    process_incoming(&mut bot, &table, tail).expect("a clean stream");
    assert_eq!(bot.state, ConnectionState::Play);
    assert_eq!(bot.buffering_buf.buffer, Vec::<u8>::new(), "nothing left over");
}

#[test]
fn compressed_inbound_frame_dispatched() {
    let table = PacketProcessor::new();
    let mut bot = Bot::new(0, Vec::new());
    bot.state = ConnectionState::Login;
    bot.compression_enabled = true;
    bot.compression_threshold = 0;
    // a login-success packet compressed into the frame body
    let body = mc_bot::PacketCompressor::process_write(Buf::from_vec(vec![0x02]), -1);
    let bytes = frame(body.buffer);
    process_incoming(&mut bot, &table, &bytes).expect("a clean stream");
    assert_eq!(bot.state, ConnectionState::Play);
}

#[test]
fn zero_length_frame_retires_connection() {
    let table = PacketProcessor::new();
    let mut bot = Bot::new(0, Vec::new());
    assert_eq!(
        process_incoming(&mut bot, &table, &[0x00]),
        Err(ProtoError::ZeroLengthFrame)
    );
}

#[test]
fn outgoing_uses_zero_marker_when_threshold_disabled() {
    let mut bot = Bot::new(0, Vec::new());
    bot.compression_enabled = true;
    bot.compression_threshold = -1;
    let out = encode_packet(&bot, Buf::from_vec(vec![0x12, 0x34])).expect("small packet");
    assert_eq!(out.buffer, vec![3, 0x00, 0x12, 0x34]);
}

#[test]
fn oversized_payload_reported_not_sent() {
    let bot = Bot::new(0, Vec::new());
    let big = vec![0u8; 1 << 21];
    assert!(matches!(
        encode_packet(&bot, Buf::from_vec(big)),
        Err(ProtoError::OversizedFrame)
    ));
}

#[test]
fn handshake_packet_bytes() {
    let packet = mc_bot::write_handshake_packet(754, b"mc.example", 25565, 2);
    let mut expected = vec![0x00, 0xF2, 0x05, 0x0A];
    expected.extend_from_slice(b"mc.example");
    expected.extend_from_slice(&25565u16.to_be_bytes());
    expected.push(0x02);
    assert_eq!(packet.buffer, expected);
}

#[test]
fn outgoing_compressed_frame_round_trips() {
    let mut bot = Bot::new(0, Vec::new());
    bot.compression_enabled = true;
    bot.compression_threshold = 8;
    let payload: Vec<u8> = (0..64u8).map(|i| i / 4).collect();
    let out = encode_packet(&bot, Buf::from_vec(payload.clone())).expect("small packet");

    let mut incoming = Buf::from_vec(out.buffer);
    let (extra, missing, size) = PacketFramer::process_read(&mut incoming).expect("one frame");
    assert!(!extra);
    assert_eq!(missing, 0);
    let body = mc_bot::PacketCompressor::process_read(&mut incoming, size)
        .expect("a well-formed body")
        .expect("an over-threshold body is compressed");
    assert_eq!(body.buffer, payload);
}

#[test]
fn keep_alive_stream_keeps_play_state() {
    let table = PacketProcessor::new();
    let mut bot = Bot::new(0, Vec::new());
    bot.state = ConnectionState::Play;
    let mut batch = frame(vec![0x1F, 1, 2, 3, 4, 5, 6, 7, 8]);
    batch.extend_from_slice(&frame(vec![0x1F, 9, 9, 9, 9, 9, 9, 9, 9]));
    process_incoming(&mut bot, &table, &batch).expect("a clean stream");
    assert_eq!(bot.state, ConnectionState::Play);
    assert_eq!(bot.buffering_buf.buffer, Vec::<u8>::new());
}
