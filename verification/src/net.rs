//! The pure half of the event-loop worker: feeding freshly-read bytes
//! through framing, decompression and dispatch, and producing the bytes a
//! connection sends — the connect sequence, and the per-tick position
//! update. The waiting, reading and writing themselves live outside the
//! library; this module decides what the bytes mean and what to send.

use vstd::prelude::*;

use crate::bot::Bot;
use crate::bot::BotCore;
use crate::bot::ConnectionState;
use crate::bot::bot_core;
use crate::bot::bot_unchanged_but_state;
use crate::bot::state_rank;
use crate::buf::Buf;
use crate::compress::PacketCompressor;
use crate::dispatch::PacketProcessor;
use crate::dispatch::spec_decode;
use crate::error::ProtoError;
use crate::framer::PacketFramer;
use crate::framer::spec_frame;
use crate::varint::varint_incomplete;
use crate::varint::varint_malformed;
use crate::varint::varint_parse;
use crate::login::spec_handshake_packet;
use crate::login::spec_login_start_packet;
use crate::login::write_handshake_packet;
use crate::login::write_login_start_packet;
use crate::play::spec_position_packet;
use crate::play::write_current_pos;
use crate::zlib::deflate_of;
use crate::zlib::inflate_of;

verus! {

/// A packet payload under the connection's outgoing compression settings:
/// untouched while the layer is not negotiated; compressed over a positive
/// threshold; behind the literal zero marker otherwise.
pub open spec fn spec_encode_body(p: Seq<u8>, enabled: bool, threshold: i32) -> Seq<u8> {
    if !enabled {
        p
    } else if threshold > 0 && p.len() > threshold {
        spec_varint_prefixed_deflate(p)
    } else {
        seq![0u8] + p
    }
}

/// The compressed form a payload takes on the wire: its decompressed size,
/// then its zlib stream.
pub open spec fn spec_varint_prefixed_deflate(p: Seq<u8>) -> Seq<u8> {
    crate::varint::spec_varint(p.len()) + deflate_of(p)
}

/// What one tick of reading leaves behind: either the connection's new core
/// with the exact unconsumed tail to retain, or the error on which the
/// connection is retired.
pub enum StreamOutcome {
    Retained(BotCore, Seq<u8>),
    Fatal(ProtoError),
}

/// What the compression layer makes of one frame body: the body itself while
/// the layer is not negotiated; the bytes after the zero marker for a raw
/// body; the decompressed bytes for a compressed one; or the error that
/// retires the connection — an unfinished or malformed size prefix, or a
/// body that does not decompress.
pub open spec fn spec_body_payload(enabled: bool, body: Seq<u8>) -> Result<Seq<u8>, ProtoError> {
    if !enabled {
        Ok(body)
    } else {
        match varint_parse(body) {
            Some((d, k)) => if d > u32::MAX {
                Err(ProtoError::VarIntTooLong)
            } else if d == 0 {
                Ok(body.skip(k as int))
            } else {
                match inflate_of(body.skip(k as int)) {
                    Some(p) => Ok(p),
                    None => Err(ProtoError::CompressionError),
                }
            },
            None => if varint_incomplete(body) {
                Err(ProtoError::BufferUnderflow)
            } else {
                Err(ProtoError::VarIntTooLong)
            },
        }
    }
}

/// The whole effect of one read on a connection: frames are taken from the
/// front of `s` one after the other, each body unwrapped under the current
/// compression setting and dispatched, until the bytes left are less than
/// one frame — those are retained — or a fatal condition shows: a zero frame
/// length, a length that does not fit 32 bits, a malformed prefix, or a body
/// the compression layer rejects.
pub open spec fn spec_ingest(core: BotCore, s: Seq<u8>) -> StreamOutcome
    decreases s.len(),
{
    match varint_parse(s) {
        Some((n, k)) => if n == 0 {
            StreamOutcome::Fatal(ProtoError::ZeroLengthFrame)
        } else if n > u32::MAX {
            StreamOutcome::Fatal(ProtoError::VarIntTooLong)
        } else if s.len() - k < n {
            StreamOutcome::Retained(core, s)
        } else {
            match spec_body_payload(core.compression_enabled, s.subrange(k as int, (k + n) as int)) {
                Ok(payload) => spec_ingest(spec_decode(core, payload), s.skip((k + n) as int)),
                Err(e) => StreamOutcome::Fatal(e),
            }
        },
        None => if varint_incomplete(s) {
            StreamOutcome::Retained(core, s)
        } else {
            StreamOutcome::Fatal(ProtoError::VarIntTooLong)
        },
    }
}

/// One read stops cleanly when the bytes at hand hold less than one frame:
/// an unfinished length prefix, or a declared length not fully arrived.
proof fn lemma_ingest_retained(core: BotCore, s: Seq<u8>)
    requires
        varint_incomplete(s) || (varint_parse(s) matches Some((n, k)) && 0 < n <= u32::MAX
            && s.len() - k < n),
    ensures
        spec_ingest(core, s) == StreamOutcome::Retained(core, s),
{
}

/// A fatal frame header — a zero length, or a prefix that is malformed or
/// does not fit 32 bits — retires the connection.
proof fn lemma_ingest_fatal_header(core: BotCore, s: Seq<u8>, e: ProtoError)
    requires
        (e == ProtoError::ZeroLengthFrame && (varint_parse(s) matches Some((n, _)) && n == 0))
            || (e == ProtoError::VarIntTooLong && (varint_malformed(s) || (varint_parse(s)
            matches Some((n, _)) && n > u32::MAX))),
    ensures
        spec_ingest(core, s) == StreamOutcome::Fatal(e),
{
    if varint_malformed(s) {
        assert(s[0] >= 0x80 && s[1] >= 0x80 && s[2] >= 0x80 && s[3] >= 0x80 && s[4] >= 0x80);
    }
}

/// A complete frame whose body the compression layer rejects retires the
/// connection with that rejection.
proof fn lemma_ingest_fatal_body(core: BotCore, s: Seq<u8>, e: ProtoError)
    requires
        varint_parse(s) matches Some((n, k)) && 0 < n <= u32::MAX && n <= s.len() - k
            && spec_body_payload(core.compression_enabled, s.subrange(k as int, (k + n) as int))
            == Result::<Seq<u8>, ProtoError>::Err(e),
    ensures
        spec_ingest(core, s) == StreamOutcome::Fatal(e),
{
}

/// Consuming one complete frame and dispatching its payload advances the
/// interpreter by exactly one step.
proof fn lemma_ingest_step(core: BotCore, s: Seq<u8>, payload: Seq<u8>)
    requires
        varint_parse(s) matches Some((n, k)) && 0 < n <= u32::MAX && n <= s.len() - k
            && spec_body_payload(core.compression_enabled, s.subrange(k as int, (k + n) as int))
            == Result::<Seq<u8>, ProtoError>::Ok(payload),
    ensures
        ({
            let header = varint_parse(s)->Some_0;
            spec_ingest(core, s) == spec_ingest(
                spec_decode(core, payload),
                s.skip((header.1 + header.0) as int),
            )
        }),
{
}

/// The error cases of the compression layer, matched to `spec_body_payload`.
proof fn lemma_body_payload_err(body: Seq<u8>, e: ProtoError)
    requires
        match e {
            ProtoError::BufferUnderflow => varint_incomplete(body),
            ProtoError::VarIntTooLong => varint_malformed(body) || (varint_parse(body)
                matches Some((n, _)) && n > u32::MAX),
            ProtoError::CompressionError => varint_parse(body) matches Some((n, k))
                && 0 < n <= u32::MAX && crate::zlib::inflate_of(body.skip(k as int)) is None,
            _ => false,
        },
    ensures
        spec_body_payload(true, body) == Result::<Seq<u8>, ProtoError>::Err(e),
{
    if varint_incomplete(body) || varint_malformed(body) {
        assert(body.len() >= 1 ==> body[0] >= 0x80);
        assert(body.len() >= 2 ==> body[1] >= 0x80);
        assert(body.len() >= 3 ==> body[2] >= 0x80);
        assert(body.len() >= 4 ==> body[3] >= 0x80);
        assert(body.len() >= 5 ==> body[4] >= 0x80);
    }
}

/// Encodes one outbound packet payload for `bot`: the compression layer when
/// it is negotiated, then the outer length-prefixed frame. A body too large
/// to frame is reported instead of sent.
pub fn encode_packet(bot: &Bot, payload: Buf) -> (r: Result<Buf, ProtoError>)
    ensures
        ({
            let body = spec_encode_body(
                payload.buffer@,
                bot.compression_enabled,
                bot.compression_threshold,
            );
            match r {
                Ok(out) => {
                    &&& out.wf()
                    &&& out.reader_index == 0
                    &&& out.buffer@ == spec_frame(body)
                    &&& body.len() < 0x20_0000
                    &&& (bot.compression_enabled && bot.compression_threshold > 0
                        && payload.buffer@.len() > bot.compression_threshold ==> inflate_of(
                        deflate_of(payload.buffer@),
                    ) == Some(payload.buffer@))
                },
                Err(e) => e == ProtoError::OversizedFrame && (body.len() >= 0x20_0000
                    || payload.buffer@.len() > u32::MAX),
            }
        }),
{
    let plen = payload.len();
    if bot.compression_enabled {
        let threshold = bot.compression_threshold;
        if threshold > 0 && plen > threshold as usize {
            if plen > u32::MAX as usize {
                return Err(ProtoError::OversizedFrame);
            }
            let body = PacketCompressor::process_write(payload, threshold);
            if body.len() >= 0x20_0000 {
                return Err(ProtoError::OversizedFrame);
            }
            Ok(PacketFramer::process_write(body))
        } else {
            if plen >= 0x20_0000 - 1 {
                return Err(ProtoError::OversizedFrame);
            }
            let body = PacketCompressor::process_write(payload, i32::MAX);
            Ok(PacketFramer::process_write(body))
        }
    } else {
        if plen >= 0x20_0000 {
            return Err(ProtoError::OversizedFrame);
        }
        Ok(PacketFramer::process_write(payload))
    }
}

/// The outbound connect sequence, sent unconditionally and without waiting
/// for any acknowledgement: a handshake naming the next state to be login,
/// then a login-start carrying the connection's display name, each in its own
/// frame and under no compression layer. Once they are built the connection
/// stands in the login state.
pub fn connect_sequence(bot: &mut Bot, protocol_version: u32, address: &[u8], port: u16) -> (r:
    Result<Buf, ProtoError>)
    requires
        old(bot).wf(),
        old(bot).state == ConnectionState::Handshake,
    ensures
        final(bot).wf(),
        ({
            let handshake = spec_handshake_packet(protocol_version, address@, port, 2);
            let login_start = spec_login_start_packet(old(bot).name@);
            match r {
                Ok(out) => {
                    &&& out.wf()
                    &&& out.reader_index == 0
                    &&& out.buffer@ == spec_frame(handshake) + spec_frame(login_start)
                    &&& final(bot).state == ConnectionState::Login
                    &&& bot_unchanged_but_state(*old(bot), *final(bot))
                },
                Err(e) => e == ProtoError::OversizedFrame && (handshake.len() >= 0x20_0000
                    || login_start.len() >= 0x20_0000) && *final(bot) == *old(bot),
            }
        }),
{
    if address.len() >= 0x20_0000 {
        return Err(ProtoError::OversizedFrame);
    }
    let handshake = write_handshake_packet(protocol_version, address, port, 2);
    if handshake.len() >= 0x20_0000 {
        return Err(ProtoError::OversizedFrame);
    }
    let name_len = bot.name.len();
    if name_len >= 0x20_0000 {
        return Err(ProtoError::OversizedFrame);
    }
    let login_start = write_login_start_packet(bot.name.as_slice());
    if login_start.len() >= 0x20_0000 {
        return Err(ProtoError::OversizedFrame);
    }
    let mut out = PacketFramer::process_write(handshake);
    let second = PacketFramer::process_write(login_start);
    out.append(second);
    bot.state = ConnectionState::Login;
    Ok(out)
}

/// One tick's outgoing decision for one connection: a connection whose
/// teleported flag is set sends a position update carrying its current
/// coordinates, any other connection sends nothing. This runs once per tick
/// for every connection, whether or not it was readable.
pub fn tick_position_update(bot: &Bot) -> (r: Result<Option<Buf>, ProtoError>)
    ensures
        ({
            let packet = spec_position_packet(bot.x_bits, bot.y_bits, bot.z_bits);
            let body = spec_encode_body(
                packet,
                bot.compression_enabled,
                bot.compression_threshold,
            );
            match r {
                Ok(None) => !bot.teleported,
                Ok(Some(out)) => bot.teleported && out.wf() && out.reader_index == 0
                    && out.buffer@ == spec_frame(body),
                Err(e) => bot.teleported && e == ProtoError::OversizedFrame && body.len()
                    >= 0x20_0000,
            }
        }),
{
    if !bot.teleported {
        return Ok(None);
    }
    let packet = write_current_pos(bot);
    match encode_packet(bot, packet) {
        Ok(out) => Ok(Some(out)),
        Err(e) => Err(e),
    }
}

/// Unwraps one complete frame body under the connection's compression
/// setting, handing back a buffer whose unread bytes are exactly the packet
/// payload `spec_body_payload` names, or the error that retires the
/// connection.
fn unwrap_frame_body(payload_bytes: Vec<u8>, enabled: bool, size: u32) -> (r: Result<
    Buf,
    ProtoError,
>)
    requires
        payload_bytes@.len() == size,
    ensures
        match r {
            Ok(b) => b.wf() && spec_body_payload(enabled, payload_bytes@)
                == Result::<Seq<u8>, ProtoError>::Ok(b.remaining_bytes()),
            Err(e) => spec_body_payload(enabled, payload_bytes@)
                == Result::<Seq<u8>, ProtoError>::Err(e),
        },
{
    let ghost body_spec = payload_bytes@;
    if !enabled {
        let raw = Buf::from_vec(payload_bytes);
        proof {
            assert(raw.remaining_bytes() =~= body_spec);
        }
        return Ok(raw);
    }
    let mut payload = Buf::from_vec(payload_bytes);
    proof {
        assert(payload.buffer@.subrange(0, size as int) =~= body_spec);
    }
    match PacketCompressor::process_read(&mut payload, size) {
        Ok(Some(decompressed)) => {
            proof {
                assert(decompressed.remaining_bytes() =~= decompressed.buffer@);
            }
            Ok(decompressed)
        },
        Ok(None) => {
            proof {
                assert(payload.remaining_bytes() =~= body_spec.skip(
                    varint_parse(body_spec)->Some_0.1 as int,
                ));
            }
            Ok(payload)
        },
        Err(e) => {
            proof {
                lemma_body_payload_err(body_spec, e);
            }
            Err(e)
        },
    }
}

/// One step of the worker's read pass: inspects the frame at the staging
/// buffer's cursor and, when it is complete, unwraps and dispatches it.
/// `Ok(true)` — one frame consumed, the interpreter advanced by one step;
/// `Ok(false)` — less than one frame is there, nothing consumed; `Err` — the
/// stream showed a condition fatal to this connection.
#[verifier::rlimit(100)]
fn ingest_one_frame(bot: &mut Bot, table: &PacketProcessor) -> (r: Result<bool, ProtoError>)
    requires
        old(bot).wf(),
    ensures
        final(bot).wf(),
        final(bot).buffering_buf.buffer@ == old(bot).buffering_buf.buffer@,
        final(bot).buffering_buf.reader_index >= old(bot).buffering_buf.reader_index,
        state_rank(final(bot).state) >= state_rank(old(bot).state),
        final(bot).token == old(bot).token,
        final(bot).name@ == old(bot).name@,
        match r {
            Ok(true) => {
                &&& final(bot).buffering_buf.reader_index > old(bot).buffering_buf.reader_index
                &&& spec_ingest(bot_core(*old(bot)), old(bot).buffering_buf.remaining_bytes())
                    == spec_ingest(
                    bot_core(*final(bot)),
                    final(bot).buffering_buf.remaining_bytes(),
                )
            },
            Ok(false) => {
                &&& bot_core(*final(bot)) == bot_core(*old(bot))
                &&& final(bot).buffering_buf.reader_index == old(bot).buffering_buf.reader_index
                &&& spec_ingest(bot_core(*old(bot)), old(bot).buffering_buf.remaining_bytes())
                    == StreamOutcome::Retained(
                    bot_core(*old(bot)),
                    old(bot).buffering_buf.remaining_bytes(),
                )
            },
            Err(e) => spec_ingest(bot_core(*old(bot)), old(bot).buffering_buf.remaining_bytes())
                == StreamOutcome::Fatal(e),
        },
{
    let ghost core_pre = bot_core(*old(bot));
    let ghost rem_pre = old(bot).buffering_buf.remaining_bytes();
    let (missing, size) = match PacketFramer::process_read(&mut bot.buffering_buf) {
        Ok((_extra, missing, size)) => (missing, size),
        Err(ProtoError::BufferUnderflow) => {
            // an unfinished length prefix: wait for the next read
            proof {
                lemma_ingest_retained(core_pre, rem_pre);
            }
            return Ok(false);
        },
        Err(e) => {
            proof {
                lemma_ingest_fatal_header(core_pre, rem_pre, e);
            }
            return Err(e);
        },
    };
    if missing > 0 {
        // the frame's payload has not fully arrived yet
        proof {
            lemma_ingest_retained(core_pre, rem_pre);
        }
        return Ok(false);
    }
    let ghost frame_header = varint_parse(rem_pre)->Some_0;
    let ghost body_spec = rem_pre.subrange(
        frame_header.1 as int,
        (frame_header.1 + frame_header.0) as int,
    );
    let start = bot.buffering_buf.get_reader_index();
    let total = bot.buffering_buf.len();
    proof {
        assert(start + size <= total);
    }
    let frame_end = start + size as usize;
    let payload_bytes = bot.buffering_buf.copy_range(start, frame_end);
    proof {
        assert(payload_bytes@ =~= body_spec);
    }
    bot.buffering_buf.set_reader_index(frame_end);
    let enabled = bot.compression_enabled;
    let mut body = match unwrap_frame_body(payload_bytes, enabled, size) {
        Ok(b) => b,
        Err(e) => {
            proof {
                lemma_ingest_fatal_body(core_pre, rem_pre, e);
            }
            return Err(e);
        },
    };
    let ghost payload_spec = body.remaining_bytes();
    proof {
        assert(spec_body_payload(core_pre.compression_enabled, body_spec)
            == Result::<Seq<u8>, ProtoError>::Ok(payload_spec));
    }
    let _ = table.process_decode(&mut body, bot);
    proof {
        lemma_ingest_step(core_pre, rem_pre, payload_spec);
        assert(bot.buffering_buf.remaining_bytes() =~= rem_pre.skip(
            (frame_header.1 + frame_header.0) as int,
        ));
    }
    Ok(true)
}

/// Feeds freshly-read bytes to a connection: appends them to its staging
/// buffer, then repeatedly unwraps frames — decompressing each body when the
/// layer is negotiated — and dispatches every packet in arrival order,
/// finally retaining the unconsumed tail for the next read. The whole effect
/// is `spec_ingest` of the staged-plus-arrived bytes: it fixes the
/// connection's final core, the exact retained tail, and that an error comes
/// if and only if the stream shows a fatal condition — which is fatal to
/// this connection alone; the caller retires it and the rest of the shard
/// continues. The protocol state only moves forward.
pub fn process_incoming(bot: &mut Bot, table: &PacketProcessor, data: &[u8]) -> (r: Result<
    (),
    ProtoError,
>)
    requires
        old(bot).wf(),
    ensures
        final(bot).wf(),
        state_rank(final(bot).state) >= state_rank(old(bot).state),
        final(bot).token == old(bot).token,
        final(bot).name@ == old(bot).name@,
        ({
            let all = old(bot).buffering_buf.remaining_bytes() + data@;
            match spec_ingest(bot_core(*old(bot)), all) {
                StreamOutcome::Retained(core, tail) => {
                    &&& r is Ok
                    &&& bot_core(*final(bot)) == core
                    &&& final(bot).buffering_buf.buffer@ == tail
                    &&& final(bot).buffering_buf.reader_index == 0
                },
                StreamOutcome::Fatal(e) => r == Result::<(), ProtoError>::Err(e),
            }
        }),
{
    let ghost all = old(bot).buffering_buf.remaining_bytes() + data@;
    let ghost core0 = bot_core(*old(bot));
    bot.buffering_buf.write_bytes(data);
    proof {
        assert(bot.buffering_buf.remaining_bytes() =~= all);
    }
    loop
        invariant
            bot.wf(),
            all == old(bot).buffering_buf.remaining_bytes() + data@,
            core0 == bot_core(*old(bot)),
            bot.buffering_buf.buffer@ == old(bot).buffering_buf.buffer@ + data@,
            state_rank(bot.state) >= state_rank(old(bot).state),
            bot.token == old(bot).token,
            bot.name@ == old(bot).name@,
            spec_ingest(core0, all) == spec_ingest(
                bot_core(*bot),
                bot.buffering_buf.remaining_bytes(),
            ),
        ensures
            spec_ingest(core0, all) == StreamOutcome::Retained(
                bot_core(*bot),
                bot.buffering_buf.remaining_bytes(),
            ),
        decreases bot.buffering_buf.buffer@.len() - bot.buffering_buf.reader_index,
    {
        match ingest_one_frame(bot, table) {
            Ok(true) => {},
            Ok(false) => {
                break;
            },
            Err(e) => {
                return Err(e);
            },
        }
    }
    bot.buffering_buf.discard_read();
    Ok(())
}

} // verus!
