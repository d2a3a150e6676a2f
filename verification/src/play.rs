//! The play state: the periodic outbound position update and the handler for
//! inbound keep-alive traffic.

use vstd::prelude::*;

use crate::bot::Bot;
use crate::bot::bot_unchanged;
use crate::buf::Buf;
use crate::buf::spec_u64_be;
use crate::varint::spec_varint;

verus! {

/// A position-update packet: its id, the three coordinates as 64-bit
/// floating-point bit patterns written most significant byte first, then the
/// on-ground flag the protocol requires, held clear.
pub open spec fn spec_position_packet(x_bits: u64, y_bits: u64, z_bits: u64) -> Seq<u8> {
    spec_varint(0x12) + spec_u64_be(x_bits) + spec_u64_be(y_bits) + spec_u64_be(z_bits)
        + seq![0u8]
}

/// Builds a position-update packet from the connection's current coordinates.
pub fn write_current_pos(bot: &Bot) -> (r: Buf)
    ensures
        r.wf(),
        r.reader_index == 0,
        r.buffer@ == spec_position_packet(bot.x_bits, bot.y_bits, bot.z_bits),
{
    let mut buf = Buf::new();
    buf.write_var_u32(0x12);
    buf.write_u64_be(bot.x_bits);
    buf.write_u64_be(bot.y_bits);
    buf.write_u64_be(bot.z_bits);
    buf.write_u8(0);
    proof {
        assert(buf.buffer@ =~= spec_position_packet(bot.x_bits, bot.y_bits, bot.z_bits));
    }
    buf
}

/// Keep-alive: the token payload is opaque and the connection keeps its
/// state; the periodic movement broadcast, not this handler, answers it.
pub fn process_keep_alive_packet(buffer: &mut Buf, bot: &mut Bot)
    requires
        old(buffer).wf(),
    ensures
        final(buffer).wf(),
        final(buffer).buffer@ == old(buffer).buffer@,
        bot_unchanged(*old(bot), *final(bot)),
{
}

} // verus!
