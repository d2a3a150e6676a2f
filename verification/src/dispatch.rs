//! The state-keyed packet dispatch table: which inbound packets the client
//! acts on in which protocol state, and the decode step that routes a packet
//! payload to its handler. Unknown or irrelevant traffic is a no-op by
//! design, never an error, so unhandled server messages stay harmless.

use vstd::prelude::*;

use crate::bot::Bot;
use crate::bot::BotCore;
use crate::bot::ConnectionState;
use crate::bot::bot_core;
use crate::bot::state_rank;
use crate::buf::Buf;
use crate::login::process_login_success_packet;
use crate::login::process_set_compression_packet;
use crate::play::process_keep_alive_packet;
use crate::varint::varint_parse;

verus! {

/// Immutable, state-keyed lookup of packet handlers: built once, never
/// mutated, safely shared by reference across every worker. The table's
/// content is fixed, so it is carried by the type itself; `handled` and
/// `spec_decode` below are its specification.
pub struct PacketProcessor {}

/// Whether the table has a handler for packet id byte `id` in state `state`:
/// login-success and set-compression while logging in, keep-alive in play.
pub open spec fn handled(state: ConnectionState, id: nat) -> bool {
    ||| (state == ConnectionState::Login && (id == 2 || id == 3))
    ||| (state == ConnectionState::Play && id == 0x1f)
}

/// What decoding one packet payload does to a connection's core: the packet
/// id is read from the front and looked up by its low byte under the current
/// state; login-success moves the state to play, set-compression records its
/// threshold and that the layer is negotiated, and everything else — the
/// opaque keep-alive included — changes nothing.
pub open spec fn spec_decode(core: BotCore, payload: Seq<u8>) -> BotCore {
    match varint_parse(payload) {
        Some((id, k)) => if id > u32::MAX {
            core
        } else if core.state == ConnectionState::Login && id % 256 == 2 {
            BotCore { state: ConnectionState::Play, ..core }
        } else if core.state == ConnectionState::Login && id % 256 == 3 {
            match varint_parse(payload.skip(k as int)) {
                Some((t, _)) => if t <= u32::MAX {
                    BotCore {
                        compression_threshold: (t as u32) as i32,
                        compression_enabled: true,
                        ..core
                    }
                } else {
                    core
                },
                None => core,
            }
        } else {
            core
        },
        None => core,
    }
}

impl PacketProcessor {
    /// Builds the table.
    pub fn new() -> (r: PacketProcessor)
    {
        PacketProcessor {}
    }

    /// Reads the packet id at the read cursor and routes the rest of the
    /// payload to the handler registered for the connection's state and that
    /// id byte: the connection's core becomes exactly `spec_decode` of the
    /// payload. `None` means no-op — the id was unreadable or no handler is
    /// registered — and an unregistered pair leaves the connection untouched.
    /// The protocol state never moves backward.
    pub fn process_decode(&self, buffer: &mut Buf, bot: &mut Bot) -> (r: Option<()>)
        requires
            old(buffer).wf(),
        ensures
            final(buffer).wf(),
            final(buffer).buffer@ == old(buffer).buffer@,
            state_rank(final(bot).state) >= state_rank(old(bot).state),
            bot_core(*final(bot)) == spec_decode(
                bot_core(*old(bot)),
                old(buffer).remaining_bytes(),
            ),
            final(bot).token == old(bot).token,
            final(bot).name@ == old(bot).name@,
            final(bot).buffering_buf.buffer@ == old(bot).buffering_buf.buffer@,
            final(bot).buffering_buf.reader_index == old(bot).buffering_buf.reader_index,
            r is Some <==> (varint_parse(old(buffer).remaining_bytes()) matches Some((id, _))
                && id <= u32::MAX && handled(old(bot).state, id % 256)),
    {
        let packet_id = match buffer.read_var_u32() {
            Ok(id) => id,
            Err(_) => {
                return None;
            },
        };
        proof {
            let kk = buffer.reader_index - old(buffer).reader_index;
            assert(buffer.remaining_bytes() =~= old(buffer).remaining_bytes().skip(kk));
        }
        let id_byte = (packet_id % 256) as u8;
        match bot.state {
            ConnectionState::Login => {
                if id_byte == 0x02 {
                    process_login_success_packet(buffer, bot);
                    Some(())
                } else if id_byte == 0x03 {
                    process_set_compression_packet(buffer, bot);
                    Some(())
                } else {
                    None
                }
            },
            ConnectionState::Play => {
                if id_byte == 0x1f {
                    process_keep_alive_packet(buffer, bot);
                    Some(())
                } else {
                    None
                }
            },
            ConnectionState::Handshake => None,
        }
    }
}

} // verus!
