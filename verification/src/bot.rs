//! One simulated client: its protocol state, compression settings, flags,
//! position and the staging buffer that keeps unconsumed bytes between reads.
//! The socket itself stays outside the library; a connection is driven by
//! handing it the bytes that arrived and sending the bytes it produces.

use vstd::prelude::*;

use crate::buf::Buf;

verus! {

/// The protocol states, in order. Transitions only ever move forward.
#[derive(Clone, Copy, Debug, PartialEq, Eq, Structural)]
pub enum ConnectionState {
    Handshake,
    Login,
    Play,
}

/// Position of a state in the forward order.
pub open spec fn state_rank(s: ConnectionState) -> int {
    match s {
        ConnectionState::Handshake => 0,
        ConnectionState::Login => 1,
        ConnectionState::Play => 2,
    }
}

/// Per-connection protocol state machine and mutable fields. The position is
/// held as the bit patterns of three 64-bit floating-point coordinates: the
/// protocol engine never does arithmetic on them, it only echoes them into
/// outgoing position updates.
pub struct Bot {
    /// Shard-local identifier.
    pub token: usize,
    /// Display name, as the bytes that go on the wire.
    pub name: Vec<u8>,
    /// Payload size above which outgoing frames are compressed; zero or less
    /// keeps outgoing compression off.
    pub compression_threshold: i32,
    /// Whether the compression layer was negotiated for this connection: set
    /// once a set-compression packet arrives, whatever threshold it carries.
    pub compression_enabled: bool,
    pub state: ConnectionState,
    pub kicked: bool,
    /// Gates the periodic movement broadcast; independently settable, read by
    /// the per-tick write pass.
    pub teleported: bool,
    pub x_bits: u64,
    pub y_bits: u64,
    pub z_bits: u64,
    /// Unconsumed bytes retained between reads.
    pub buffering_buf: Buf,
}

impl Bot {
    pub open spec fn wf(self) -> bool {
        self.buffering_buf.wf()
    }

    /// A fresh connection: handshake state, compression off, flags clear,
    /// position at the origin, nothing buffered.
    pub fn new(token: usize, name: Vec<u8>) -> (r: Bot)
        ensures
            r.wf(),
            r.token == token,
            r.name@ == name@,
            r.compression_threshold == 0,
            r.compression_enabled == false,
            r.state == ConnectionState::Handshake,
            r.kicked == false,
            r.teleported == false,
            r.x_bits == 0 && r.y_bits == 0 && r.z_bits == 0,
            r.buffering_buf.buffer@ == Seq::<u8>::empty(),
            r.buffering_buf.reader_index == 0,
    {
        Bot {
            token,
            name,
            compression_threshold: 0,
            compression_enabled: false,
            state: ConnectionState::Handshake,
            kicked: false,
            teleported: false,
            x_bits: 0,
            y_bits: 0,
            z_bits: 0,
            buffering_buf: Buf::with_length(200),
        }
    }
}

/// The dispatch-relevant part of a connection: the fields inbound packet
/// handlers read and write. Identity (token, name) and the staging buffer
/// are carried separately, since no handler touches them.
pub struct BotCore {
    pub state: ConnectionState,
    pub compression_threshold: i32,
    pub compression_enabled: bool,
    pub kicked: bool,
    pub teleported: bool,
    pub x_bits: u64,
    pub y_bits: u64,
    pub z_bits: u64,
}

/// The core of a connection.
pub open spec fn bot_core(b: Bot) -> BotCore {
    BotCore {
        state: b.state,
        compression_threshold: b.compression_threshold,
        compression_enabled: b.compression_enabled,
        kicked: b.kicked,
        teleported: b.teleported,
        x_bits: b.x_bits,
        y_bits: b.y_bits,
        z_bits: b.z_bits,
    }
}

/// The two connections agree on every field (the staging buffer compared by
/// content and cursor).
pub open spec fn bot_unchanged(a: Bot, b: Bot) -> bool {
    &&& a.token == b.token
    &&& a.name@ == b.name@
    &&& a.compression_threshold == b.compression_threshold
    &&& a.compression_enabled == b.compression_enabled
    &&& a.state == b.state
    &&& a.kicked == b.kicked
    &&& a.teleported == b.teleported
    &&& a.x_bits == b.x_bits
    &&& a.y_bits == b.y_bits
    &&& a.z_bits == b.z_bits
    &&& a.buffering_buf.buffer@ == b.buffering_buf.buffer@
    &&& a.buffering_buf.reader_index == b.buffering_buf.reader_index
}

/// The two connections agree on every field but the protocol state.
pub open spec fn bot_unchanged_but_state(a: Bot, b: Bot) -> bool {
    &&& a.token == b.token
    &&& a.name@ == b.name@
    &&& a.compression_threshold == b.compression_threshold
    &&& a.compression_enabled == b.compression_enabled
    &&& a.kicked == b.kicked
    &&& a.teleported == b.teleported
    &&& a.x_bits == b.x_bits
    &&& a.y_bits == b.y_bits
    &&& a.z_bits == b.z_bits
    &&& a.buffering_buf.buffer@ == b.buffering_buf.buffer@
    &&& a.buffering_buf.reader_index == b.buffering_buf.reader_index
}

/// The two connections agree on every field but the compression settings.
pub open spec fn bot_unchanged_but_compression(a: Bot, b: Bot) -> bool {
    &&& a.token == b.token
    &&& a.name@ == b.name@
    &&& a.state == b.state
    &&& a.kicked == b.kicked
    &&& a.teleported == b.teleported
    &&& a.x_bits == b.x_bits
    &&& a.y_bits == b.y_bits
    &&& a.z_bits == b.z_bits
    &&& a.buffering_buf.buffer@ == b.buffering_buf.buffer@
    &&& a.buffering_buf.reader_index == b.buffering_buf.reader_index
}

} // verus!
