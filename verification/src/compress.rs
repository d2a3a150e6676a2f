//! The optional per-connection stream compression layer. A frame body under
//! this layer starts with a variable-length integer `D`: zero means the rest
//! of the body is the raw payload; anything else means the rest is a zlib
//! stream that expands to `D` bytes.

use vstd::prelude::*;

use crate::buf::Buf;
use crate::buf::lemma_varint_parse_consumes_at_most;
use crate::error::ProtoError;
use crate::varint::lemma_varint_parse_take;
use crate::varint::spec_varint;
use crate::varint::varint_incomplete;
use crate::varint::varint_malformed;
use crate::varint::varint_parse;
use crate::zlib::deflate_of;
use crate::zlib::inflate_of;
use crate::zlib::zlib_compress;
use crate::zlib::zlib_decompress;

verus! {

/// Wraps and unwraps the compression layer of a frame body.
pub struct PacketCompressor {}

/// A payload under the compression layer with the given threshold: compressed
/// and prefixed with its decompressed size when it is over the threshold,
/// prefixed with a literal zero marker and left unmodified otherwise.
pub open spec fn spec_compress_wrap(p: Seq<u8>, threshold: int) -> Seq<u8> {
    if p.len() > threshold {
        spec_varint(p.len()) + deflate_of(p)
    } else {
        seq![0u8] + p
    }
}

impl PacketCompressor {
    /// Unwraps the compression layer of the frame body that occupies the next
    /// `length` bytes after the read cursor. `Ok(None)` reports "not
    /// compressed": the zero marker was consumed and the raw payload follows
    /// at the cursor. `Ok(Some(out))` hands the decompressed payload back and
    /// consumes the whole body. On an error nothing is consumed.
    pub fn process_read(buffer: &mut Buf, length: u32) -> (r: Result<Option<Buf>, ProtoError>)
        requires
            old(buffer).wf(),
            old(buffer).reader_index + length <= old(buffer).buffer@.len(),
        ensures
            final(buffer).wf(),
            final(buffer).buffer@ == old(buffer).buffer@,
            ({
                let start = old(buffer).reader_index as int;
                let body = old(buffer).buffer@.subrange(start, start + length);
                match r {
                    Ok(out) => varint_parse(body) matches Some((n, k)) && (match out {
                        None => n == 0
                            && final(buffer).reader_index == old(buffer).reader_index + k,
                        Some(payload) => 0 < n <= u32::MAX
                            && inflate_of(body.skip(k as int)) == Some(payload.buffer@)
                            && payload.wf()
                            && payload.reader_index == 0
                            && final(buffer).reader_index == old(buffer).reader_index + length,
                    }),
                    Err(e) => final(buffer).reader_index == old(buffer).reader_index && (match e {
                        ProtoError::BufferUnderflow => varint_incomplete(body),
                        ProtoError::VarIntTooLong => varint_malformed(body) || (varint_parse(body)
                            matches Some((n, _)) && n > u32::MAX),
                        ProtoError::CompressionError => varint_parse(body) matches Some((n, k))
                            && 0 < n <= u32::MAX && inflate_of(body.skip(k as int)) is None,
                        _ => false,
                    }),
                }
            }),
    {
        let ghost start = old(buffer).reader_index as int;
        let ghost rem = old(buffer).remaining_bytes();
        let ghost body = old(buffer).buffer@.subrange(start, start + length);
        proof {
            assert(body =~= rem.take(length as int));
        }
        let parsed = match buffer.try_parse_var_u32() {
            Ok(p) => p,
            Err(e) => {
                proof {
                    lemma_varint_parse_take(rem, length as int);
                }
                // a length prefix that runs past the end of the body is an
                // unfinished one from the body's point of view
                if length < 5 {
                    return Err(ProtoError::BufferUnderflow);
                }
                return Err(e);
            },
        };
        let (real_length, k) = parsed;
        proof {
            lemma_varint_parse_take(rem, length as int);
            lemma_varint_parse_consumes_at_most(rem);
        }
        if k > length as usize {
            return Err(ProtoError::BufferUnderflow);
        }
        let reader = buffer.get_reader_index();
        let total = buffer.len();
        proof {
            assert(reader + length <= total);
        }
        if real_length == 0 {
            buffer.set_reader_index(reader + k);
            return Ok(None);
        }
        let section = buffer.copy_range(reader + k, reader + length as usize);
        proof {
            assert(section@ =~= body.skip(k as int));
        }
        match zlib_decompress(section.as_slice(), real_length) {
            Ok(decompressed) => {
                buffer.set_reader_index(reader + length as usize);
                Ok(Some(Buf::from_vec(decompressed)))
            },
            Err(_) => Err(ProtoError::CompressionError),
        }
    }

    /// Wraps `buffer`'s whole byte content in the compression layer: payloads
    /// over the threshold are compressed and prefixed with their decompressed
    /// size, the rest are prefixed with the literal zero marker and left
    /// unmodified.
    pub fn process_write(buffer: Buf, compression_threshold: i32) -> (r: Buf)
        requires
            buffer.buffer@.len() <= u32::MAX,
        ensures
            r.wf(),
            r.reader_index == 0,
            r.buffer@ == spec_compress_wrap(buffer.buffer@, compression_threshold as int),
            buffer.buffer@.len() > compression_threshold ==> inflate_of(
                deflate_of(buffer.buffer@),
            ) == Some(buffer.buffer@),
    {
        let ghost p = buffer.buffer@;
        let over = if compression_threshold < 0 {
            true
        } else {
            buffer.len() > compression_threshold as usize
        };
        if over {
            let mut out = Buf::new();
            out.write_var_u32(buffer.len() as u32);
            let compressed = zlib_compress(buffer.buffer.as_slice());
            out.write_bytes(compressed.as_slice());
            proof {
                assert(out.buffer@ =~= spec_compress_wrap(p, compression_threshold as int));
            }
            out
        } else {
            let mut out = Buf::new();
            out.write_var_u32(0);
            out.append(buffer);
            proof {
                assert(out.buffer@ =~= spec_compress_wrap(p, compression_threshold as int));
            }
            out
        }
    }
}

} // verus!
