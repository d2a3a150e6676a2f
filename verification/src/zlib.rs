//! The zlib boundary. Compression and decompression are deterministic
//! functions of the input bytes, far too large to write out, so each is given
//! a name here and the two calls into flate2 are stated over those names.

use vstd::prelude::*;

use std::io::Write;
use flate2::Compression;
use flate2::write::ZlibDecoder;
use flate2::write::ZlibEncoder;

verus! {

/// The zlib-format compression of `s` at the speed-optimized level.
pub uninterp spec fn deflate_of(s: Seq<u8>) -> Seq<u8>;

/// What zlib decompression makes of `s`: the decompressed bytes for a
/// well-formed stream, `None` for a malformed one.
pub uninterp spec fn inflate_of(s: Seq<u8>) -> Option<Seq<u8>>;

/// Relies on flate2's `write::ZlibEncoder` at `Compression::fast`: writing
/// into a `Vec` sink cannot fail, the output depends on the input bytes
/// alone, and a zlib decoder recovers exactly the input from the output.
#[verifier::external_body]
pub(crate) fn zlib_compress(data: &[u8]) -> (r: Vec<u8>)
    ensures
        r@ == deflate_of(data@),
        inflate_of(r@) == Some(data@),
{
    let mut encoder = ZlibEncoder::new(Vec::new(), Compression::fast());
    encoder.write_all(data).expect("writing into a Vec sink cannot fail");
    encoder.finish().expect("writing into a Vec sink cannot fail")
}

/// Relies on flate2's `write::ZlibDecoder`: the result depends on the input
/// bytes alone, a well-formed stream decompresses and a malformed one is
/// rejected. The decoder reporting a finished stream before consuming every
/// input byte (`WriteZero`) is a normal success condition.
#[verifier::external_body]
pub(crate) fn zlib_decompress(data: &[u8], size_hint: u32) -> (r: Result<Vec<u8>, ()>)
    ensures
        r matches Ok(v) ==> inflate_of(data@) == Some(v@),
        r matches Err(e) ==> inflate_of(data@) is None,
{
    let mut decoder = ZlibDecoder::new(Vec::with_capacity(size_hint as usize));
    match decoder.write_all(data) {
        Ok(()) => {},
        Err(e) if e.kind() == std::io::ErrorKind::WriteZero => {},
        Err(_) => {
            return Err(());
        },
    }
    decoder.finish().map_err(|_e| ())
}

} // verus!
