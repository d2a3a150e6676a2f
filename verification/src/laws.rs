//! The codec-level round-trip and detection properties, stated once over the
//! specification functions that the executable contracts use.

use vstd::prelude::*;

use crate::bot::ConnectionState;
use crate::compress::spec_compress_wrap;
use crate::dispatch::handled;
use crate::framer::spec_frame;
use crate::varint::lemma_varint_parse_prefix;
use crate::varint::lemma_varint_parse_take;
use crate::varint::varint_len;
use crate::varint::varint_parse;

verus! {

/// Frame round trip: for any payload that fits a frame, the wrapped bytes
/// decode to the payload's exact length with no deficit and no surplus, and
/// the bytes after the length prefix are the payload itself.
pub proof fn lemma_frame_roundtrip(p: Seq<u8>)
    requires
        p.len() < 0x20_0000,
    ensures
        ({
            let w = spec_frame(p);
            let k = varint_len(p.len());
            &&& varint_parse(w) == Some((p.len(), k))
            &&& w.len() - k == p.len()
            &&& w.skip(k as int) == p
        }),
{
    lemma_varint_parse_prefix(p.len() as u32, p);
    let k = varint_len(p.len());
    assert(spec_frame(p).skip(k as int) =~= p);
}

/// Partial-frame detection: withholding the last `k` payload bytes of a
/// wrapped frame, with the length prefix intact, leaves bytes that still
/// declare the full payload length while holding `k` fewer — the reported
/// deficit is exactly `k`.
pub proof fn lemma_partial_frame(p: Seq<u8>, k: int)
    requires
        p.len() < 0x20_0000,
        0 < k <= p.len(),
    ensures
        ({
            let w = spec_frame(p).take(spec_frame(p).len() - k);
            let h = varint_len(p.len());
            &&& varint_parse(w) == Some((p.len(), h))
            &&& p.len() - (w.len() - h) == k
        }),
{
    lemma_varint_parse_prefix(p.len() as u32, p);
    let full = spec_frame(p);
    lemma_varint_parse_take(full, full.len() - k);
}

/// Compression pass-through: a payload no longer than the threshold is
/// wrapped as the literal zero marker followed by the payload unchanged, and
/// those bytes decode as "not compressed".
pub proof fn lemma_compression_passthrough(p: Seq<u8>, threshold: i32)
    requires
        p.len() <= threshold,
    ensures
        spec_compress_wrap(p, threshold as int) == seq![0u8] + p,
        varint_parse(spec_compress_wrap(p, threshold as int)) == Some((0 as nat, 1 as nat)),
        spec_compress_wrap(p, threshold as int).skip(1) == p,
{
    let w = spec_compress_wrap(p, threshold as int);
    assert(w[0] == 0);
    assert(w.skip(1) =~= p);
}

/// Compression round trip, the structural half: the wrapped form of an
/// over-threshold payload declares the payload's exact size and carries the
/// payload's zlib stream after it. The compressor's contract states that
/// decompressing that stream gives the payload back, and the unwrapping
/// side's contract states that it hands out exactly the decompressed bytes,
/// so together the payload is recovered unchanged.
pub proof fn lemma_compression_roundtrip(p: Seq<u8>, threshold: i32)
    requires
        0 < p.len() <= u32::MAX,
        p.len() > threshold,
    ensures
        ({
            let w = spec_compress_wrap(p, threshold as int);
            let k = varint_len(p.len());
            &&& varint_parse(w) == Some((p.len(), k))
            &&& w.skip(k as int) == crate::zlib::deflate_of(p)
        }),
{
    lemma_varint_parse_prefix(p.len() as u32, crate::zlib::deflate_of(p));
    assert(spec_compress_wrap(p, threshold as int).skip(varint_len(p.len()) as int)
        =~= crate::zlib::deflate_of(p));
}

/// Play-state traffic is acted on only after login-success: the keep-alive
/// id is not handled while logging in, and is handled in the play state.
pub proof fn lemma_play_ids_after_login()
    ensures
        !handled(ConnectionState::Handshake, 0x1f),
        !handled(ConnectionState::Login, 0x1f),
        handled(ConnectionState::Play, 0x1f),
{
}

} // verus!
