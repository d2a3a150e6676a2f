//! The outer transport frame: a variable-length integer `N`, then `N` bytes of
//! frame body. Delivery is byte-stream, so a frame may arrive split across
//! reads or concatenated with the next one; unwrapping reports which.

use vstd::prelude::*;

use crate::buf::Buf;
use crate::buf::lemma_varint_parse_consumes_at_most;
use crate::error::ProtoError;
use crate::varint::spec_varint;
use crate::varint::varint_incomplete;
use crate::varint::varint_malformed;
use crate::varint::varint_parse;

verus! {

/// Wraps and unwraps the length-prefixed transport frame.
pub struct PacketFramer {}

/// A frame body of `payload` on the wire: its length as a variable-length
/// integer, then the payload bytes.
pub open spec fn spec_frame(payload: Seq<u8>) -> Seq<u8> {
    spec_varint(payload.len()) + payload
}

impl PacketFramer {
    /// Inspects the frame at the read cursor. The result `(extra, missing,
    /// size)` reports one of three outcomes for a declared length `size`:
    /// `missing > 0` — fewer than `size` payload bytes follow, `missing` more
    /// are needed and nothing was consumed; `extra` — more than `size` bytes
    /// follow, the cursor was advanced past the length prefix and the caller
    /// must come back for the rest; neither — exactly `size` bytes follow and
    /// the cursor was advanced past the length prefix. A declared length of
    /// zero, an unfinished length prefix and a malformed one are errors, with
    /// nothing consumed.
    pub fn process_read(buffer: &mut Buf) -> (r: Result<(bool, u32, u32), ProtoError>)
        requires
            old(buffer).wf(),
        ensures
            final(buffer).wf(),
            final(buffer).buffer@ == old(buffer).buffer@,
            ({
                let rem = old(buffer).remaining_bytes();
                match r {
                    Ok((extra, missing, size)) => varint_parse(rem) matches Some((n, k)) && {
                        &&& size as nat == n
                        &&& 0 < n <= u32::MAX
                        &&& (if rem.len() - k < n {
                            &&& extra == false
                            &&& missing as nat == n - (rem.len() - k)
                            &&& final(buffer).reader_index == old(buffer).reader_index
                        } else {
                            &&& missing == 0
                            &&& (extra <==> rem.len() - k > n)
                            &&& final(buffer).reader_index == old(buffer).reader_index + k
                        })
                    },
                    Err(e) => final(buffer).reader_index == old(buffer).reader_index && (match e {
                        ProtoError::BufferUnderflow => varint_incomplete(rem),
                        ProtoError::VarIntTooLong => varint_malformed(rem) || (varint_parse(rem)
                            matches Some((n, _)) && n > u32::MAX),
                        ProtoError::ZeroLengthFrame => varint_parse(rem) matches Some((n, _))
                            && n == 0,
                        _ => false,
                    }),
                }
            }),
    {
        let (size, k) = match buffer.try_parse_var_u32() {
            Ok(parsed) => parsed,
            Err(e) => {
                return Err(e);
            },
        };
        if size == 0 {
            return Err(ProtoError::ZeroLengthFrame);
        }
        proof {
            lemma_varint_parse_consumes_at_most(buffer.remaining_bytes());
        }
        let total = buffer.len();
        let avail = buffer.remaining() - k;
        if (size as usize) > avail {
            Ok((false, size - avail as u32, size))
        } else {
            let index = buffer.get_reader_index();
            proof {
                assert(index + k <= total);
            }
            buffer.set_reader_index(index + k);
            Ok((avail > size as usize, 0, size))
        }
    }

    /// Prefixes the whole byte content of `buffer` with its length. A payload
    /// needing a length prefix of more than three bytes is a construction bug
    /// in the caller, so such payloads are excluded outright.
    pub fn process_write(buffer: Buf) -> (r: Buf)
        requires
            buffer.buffer@.len() < 0x20_0000,
        ensures
            r.wf(),
            r.reader_index == 0,
            r.buffer@ == spec_frame(buffer.buffer@),
    {
        let ghost payload = buffer.buffer@;
        let size = buffer.len();
        let header_size = Buf::get_var_u32_size(size as u32);
        let mut target = Buf::with_length(size as u32 + header_size);
        target.write_var_u32(size as u32);
        target.append(buffer);
        proof {
            assert(target.buffer@ =~= spec_frame(payload));
        }
        target
    }
}

} // verus!
