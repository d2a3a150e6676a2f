use mc_bot::Bot;
use mc_bot::Buf;
use mc_bot::ConnectionState;
use mc_bot::PacketProcessor;

fn login_bot() -> Bot {
    let mut bot = Bot::new(7, b"Bot_7".to_vec());
    bot.state = ConnectionState::Login;
    bot
}

#[test]
fn unregistered_id_is_noop() {
    let table = PacketProcessor::new();
    let mut bot = login_bot();
    let mut payload = Buf::from_vec(vec![0x05, 1, 2, 3]);
    let r = table.process_decode(&mut payload, &mut bot);
    assert!(r.is_none());
    assert_eq!(bot.state, ConnectionState::Login);
    assert_eq!(bot.compression_threshold, 0);
    assert!(!bot.compression_enabled);
    assert!(!bot.kicked);
    assert!(!bot.teleported);
    assert_eq!((bot.x_bits, bot.y_bits, bot.z_bits), (0, 0, 0));
}

#[test]
fn handshake_state_handles_nothing() {
    let table = PacketProcessor::new();
    let mut bot = Bot::new(0, Vec::new());
    let mut payload = Buf::from_vec(vec![0x02]);
    let r = table.process_decode(&mut payload, &mut bot);
    assert!(r.is_none());
    assert_eq!(bot.state, ConnectionState::Handshake);
}

#[test]
fn login_success_moves_to_play() {
    let table = PacketProcessor::new();
    let mut bot = login_bot();
    let mut payload = Buf::from_vec(vec![0x02, 0xAA, 0xBB]);
    let r = table.process_decode(&mut payload, &mut bot);
    assert!(r.is_some());
    assert_eq!(bot.state, ConnectionState::Play);
}

#[test]
fn keep_alive_only_accepted_in_play() {
    let table = PacketProcessor::new();
    let mut bot = login_bot();
    let mut payload = Buf::from_vec(vec![0x1F, 0, 0, 0, 0, 0, 0, 0, 1]);
    let r = table.process_decode(&mut payload, &mut bot);
    assert!(r.is_none(), "keep-alive is not a login-state packet");
    assert_eq!(bot.state, ConnectionState::Login);

    bot.state = ConnectionState::Play;
    let mut payload = Buf::from_vec(vec![0x1F, 0, 0, 0, 0, 0, 0, 0, 1]);
    let r = table.process_decode(&mut payload, &mut bot);
    assert!(r.is_some());
    assert_eq!(bot.state, ConnectionState::Play);
}

#[test]
fn set_compression_records_threshold() {
    let table = PacketProcessor::new();
    let mut bot = login_bot();
    // id 3, then 256 as a variable-length integer
    let mut payload = Buf::from_vec(vec![0x03, 0x80, 0x02]);
    let r = table.process_decode(&mut payload, &mut bot);
    assert!(r.is_some());
    assert_eq!(bot.compression_threshold, 256);
    assert!(bot.compression_enabled);
    assert_eq!(bot.state, ConnectionState::Login, "still logging in");
}

#[test]
fn set_compression_negative_threshold() {
    let table = PacketProcessor::new();
    let mut bot = login_bot();
    // id 3, then the encoding of 0xFFFF_FFFF, which is -1 as a signed value
    let mut payload = Buf::from_vec(vec![0x03, 0xFF, 0xFF, 0xFF, 0xFF, 0x0F]);
    let r = table.process_decode(&mut payload, &mut bot);
    assert!(r.is_some());
    assert_eq!(bot.compression_threshold, -1);
    assert!(bot.compression_enabled, "the layer stays negotiated");
}

#[test]
fn truncated_id_is_noop() {
    let table = PacketProcessor::new();
    let mut bot = login_bot();
    let mut payload = Buf::from_vec(vec![0x80]);
    let r = table.process_decode(&mut payload, &mut bot);
    assert!(r.is_none());
    assert_eq!(bot.state, ConnectionState::Login);
}
