//! The login flow: the two outbound packets a connection sends as soon as it
//! comes up, and the handlers for the two inbound login-state packets.

use vstd::prelude::*;

use crate::bot::Bot;
use crate::bot::ConnectionState;
use crate::bot::bot_unchanged;
use crate::bot::bot_unchanged_but_compression;
use crate::bot::bot_unchanged_but_state;
use crate::buf::Buf;
use crate::buf::spec_u16_be;
use crate::varint::spec_varint;
use crate::varint::varint_parse;

verus! {

/// A handshake packet: id zero, protocol version, length-prefixed server
/// address, port, then the next state to enter.
pub open spec fn spec_handshake_packet(
    protocol_version: u32,
    address: Seq<u8>,
    port: u16,
    next_state: u32,
) -> Seq<u8> {
    spec_varint(0) + spec_varint(protocol_version as nat) + spec_varint(address.len()) + address
        + spec_u16_be(port) + spec_varint(next_state as nat)
}

/// A login-start packet: id zero, then the length-prefixed player name.
pub open spec fn spec_login_start_packet(name: Seq<u8>) -> Seq<u8> {
    spec_varint(0) + spec_varint(name.len()) + name
}

/// Builds the handshake packet payload.
pub fn write_handshake_packet(
    protocol_version: u32,
    address: &[u8],
    port: u16,
    next_state: u32,
) -> (r: Buf)
    requires
        address@.len() <= u32::MAX,
    ensures
        r.wf(),
        r.reader_index == 0,
        r.buffer@ == spec_handshake_packet(protocol_version, address@, port, next_state),
{
    let mut buf = Buf::new();
    buf.write_var_u32(0);
    buf.write_var_u32(protocol_version);
    buf.write_var_u32(address.len() as u32);
    buf.write_bytes(address);
    buf.write_u16_be(port);
    buf.write_var_u32(next_state);
    proof {
        assert(buf.buffer@ =~= spec_handshake_packet(protocol_version, address@, port, next_state));
    }
    buf
}

/// Builds the login-start packet payload.
pub fn write_login_start_packet(name: &[u8]) -> (r: Buf)
    requires
        name@.len() <= u32::MAX,
    ensures
        r.wf(),
        r.reader_index == 0,
        r.buffer@ == spec_login_start_packet(name@),
{
    let mut buf = Buf::new();
    buf.write_var_u32(0);
    buf.write_var_u32(name.len() as u32);
    buf.write_bytes(name);
    proof {
        assert(buf.buffer@ =~= spec_login_start_packet(name@));
    }
    buf
}

/// Login-success: the server has accepted the login, so the connection moves
/// to the play state. The payload (identity fields) is not needed.
pub fn process_login_success_packet(buffer: &mut Buf, bot: &mut Bot)
    requires
        old(buffer).wf(),
    ensures
        final(buffer).wf(),
        final(buffer).buffer@ == old(buffer).buffer@,
        final(bot).state == ConnectionState::Play,
        bot_unchanged_but_state(*old(bot), *final(bot)),
{
    bot.state = ConnectionState::Play;
}

/// Set-compression: reads the threshold and records that the compression
/// layer is negotiated from here on. The threshold is the variable-length
/// integer value reinterpreted as a signed 32-bit integer, so values at or
/// below zero keep outgoing compression off. A payload whose threshold cannot
/// be decoded leaves the connection untouched.
pub fn process_set_compression_packet(buffer: &mut Buf, bot: &mut Bot)
    requires
        old(buffer).wf(),
    ensures
        final(buffer).wf(),
        final(buffer).buffer@ == old(buffer).buffer@,
        ({
            let rem = old(buffer).remaining_bytes();
            match varint_parse(rem) {
                Some((t, _)) => if t <= u32::MAX {
                    &&& final(bot).compression_threshold == (t as u32) as i32
                    &&& final(bot).compression_enabled == true
                    &&& bot_unchanged_but_compression(*old(bot), *final(bot))
                } else {
                    bot_unchanged(*old(bot), *final(bot))
                },
                None => bot_unchanged(*old(bot), *final(bot)),
            }
        }),
{
    match buffer.read_var_u32() {
        Ok(value) => {
            bot.compression_threshold = #[verifier::truncate] (value as i32);
            bot.compression_enabled = true;
        },
        Err(_) => {},
    }
}

} // verus!
