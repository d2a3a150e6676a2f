//! Wire-protocol engine for a load-generation game client: a growable byte
//! buffer with a base-128 variable-length integer codec, a length-prefixed
//! frame codec, an optional zlib stream-compression layer, a state-keyed
//! packet dispatch table, the per-connection protocol state machine, and the
//! pure decision logic of the connection-multiplexing worker.

mod bot;
mod buf;
mod compress;
mod dispatch;
mod error;
mod framer;
mod laws;
mod login;
mod net;
mod play;
mod shard;
mod varint;
mod zlib;

pub use bot::Bot;
pub use bot::BotCore;
pub use bot::bot_core;
pub use bot::ConnectionState;
pub use bot::bot_unchanged;
pub use bot::bot_unchanged_but_compression;
pub use bot::bot_unchanged_but_state;
pub use bot::state_rank;
pub use buf::Buf;
pub use buf::spec_u16_be;
pub use buf::spec_u64_be;
pub use compress::PacketCompressor;
pub use compress::spec_compress_wrap;
pub use dispatch::PacketProcessor;
pub use dispatch::handled;
pub use dispatch::spec_decode;
pub use error::ProtoError;
pub use framer::PacketFramer;
pub use framer::spec_frame;
pub use laws::lemma_compression_passthrough;
pub use laws::lemma_compression_roundtrip;
pub use laws::lemma_frame_roundtrip;
pub use laws::lemma_partial_frame;
pub use laws::lemma_play_ids_after_login;
pub use login::process_login_success_packet;
pub use login::process_set_compression_packet;
pub use login::spec_handshake_packet;
pub use login::spec_login_start_packet;
pub use login::write_handshake_packet;
pub use login::write_login_start_packet;
pub use net::connect_sequence;
pub use net::encode_packet;
pub use net::process_incoming;
pub use net::StreamOutcome;
pub use net::spec_body_payload;
pub use net::spec_encode_body;
pub use net::spec_ingest;
pub use net::spec_varint_prefixed_deflate;
pub use net::tick_position_update;
pub use play::process_keep_alive_packet;
pub use play::spec_position_packet;
pub use play::write_current_pos;
pub use shard::lemma_shard_counts_balanced;
pub use shard::lemma_shard_counts_sum;
pub use shard::shard_counts;
pub use shard::spec_shard_counts;
pub use shard::sum_counts;
pub use varint::cont_byte;
pub use varint::lemma_varint_parse_prefix;
pub use varint::lemma_varint_parse_take;
pub use varint::lemma_varint_roundtrip;
pub use varint::spec_varint;
pub use varint::varint_incomplete;
pub use varint::varint_len;
pub use varint::varint_malformed;
pub use varint::varint_parse;
pub use zlib::deflate_of;
pub use zlib::inflate_of;
