//! Unsigned base-128 variable-length integers: 7 data bits per byte, high bit
//! set on every byte but the last (the continuation flag). Writers emit the
//! canonical minimal-length form; values fit in 32 bits, so an encoding is at
//! most five bytes long.

use vstd::prelude::*;

verus! {

/// Number of bytes in the minimal encoding of `v`: one byte per 7-bit group.
pub open spec fn varint_len(v: nat) -> nat {
    if v < 0x80 {
        1
    } else if v < 0x4000 {
        2
    } else if v < 0x20_0000 {
        3
    } else if v < 0x1000_0000 {
        4
    } else {
        5
    }
}

/// A continuation byte: the low 7 bits of `v` with the high bit set.
pub open spec fn cont_byte(v: nat) -> u8 {
    (v % 0x80 + 0x80) as u8
}

/// The minimal encoding of `v` (meaningful for `v <= u32::MAX`): 7-bit groups,
/// least significant first, high bit set on all but the final byte.
pub open spec fn spec_varint(v: nat) -> Seq<u8> {
    if v < 0x80 {
        seq![v as u8]
    } else if v < 0x4000 {
        seq![cont_byte(v), (v / 0x80) as u8]
    } else if v < 0x20_0000 {
        seq![cont_byte(v), cont_byte(v / 0x80), (v / 0x4000) as u8]
    } else if v < 0x1000_0000 {
        seq![cont_byte(v), cont_byte(v / 0x80), cont_byte(v / 0x4000), (v / 0x20_0000) as u8]
    } else {
        seq![
            cont_byte(v),
            cont_byte(v / 0x80),
            cont_byte(v / 0x4000),
            cont_byte(v / 0x20_0000),
            (v / 0x1000_0000) as u8,
        ]
    }
}

/// Decoding a variable-length integer from the front of `s`: the value and the
/// number of bytes consumed, or `None` when no terminating byte (high bit
/// clear) stands among the first five bytes of `s`.
pub open spec fn varint_parse(s: Seq<u8>) -> Option<(nat, nat)> {
    if s.len() >= 1 && s[0] < 0x80 {
        Some((s[0] as nat, 1))
    } else if s.len() >= 2 && s[1] < 0x80 {
        Some((((s[0] - 0x80) + 0x80 * s[1]) as nat, 2))
    } else if s.len() >= 3 && s[2] < 0x80 {
        Some((((s[0] - 0x80) + 0x80 * (s[1] - 0x80) + 0x4000 * s[2]) as nat, 3))
    } else if s.len() >= 4 && s[3] < 0x80 {
        Some((((s[0] - 0x80) + 0x80 * (s[1] - 0x80) + 0x4000 * (s[2] - 0x80) + 0x20_0000 * s[3]) as nat, 4))
    } else if s.len() >= 5 && s[4] < 0x80 {
        Some((((s[0] - 0x80) + 0x80 * (s[1] - 0x80) + 0x4000 * (s[2] - 0x80) + 0x20_0000 * (s[3] - 0x80)
            + 0x1000_0000 * s[4]) as nat, 5))
    } else {
        None
    }
}

/// `s` holds only continuation bytes and fewer than five of them: a decoder
/// must wait for more bytes before it can finish.
pub open spec fn varint_incomplete(s: Seq<u8>) -> bool {
    s.len() < 5 && (forall|i: int| 0 <= i < s.len() ==> s[i] >= 0x80)
}

/// `s` starts with five continuation bytes: no 32-bit value is encoded this
/// way, so the stream is malformed.
pub open spec fn varint_malformed(s: Seq<u8>) -> bool {
    s.len() >= 5 && (forall|i: int| 0 <= i < 5 ==> s[i] >= 0x80)
}

/// Decoding looks only at the bytes up to the first terminator, so truncating
/// a sequence behind that point changes nothing, and truncating before it
/// leaves an unfinished encoding.
pub proof fn lemma_varint_parse_take(s: Seq<u8>, m: int)
    requires
        0 <= m <= s.len(),
    ensures
        (varint_parse(s) matches Some((n, k)) && k <= m) ==> varint_parse(s.take(m)) == Some((
            varint_parse(s)->Some_0.0,
            varint_parse(s)->Some_0.1,
        )),
        (varint_parse(s) matches Some((n, k)) && m < k) ==> varint_incomplete(s.take(m)),
        varint_incomplete(s) ==> varint_incomplete(s.take(m)),
        (varint_malformed(s) && m >= 5) ==> varint_malformed(s.take(m)),
        (varint_malformed(s) && m < 5) ==> varint_incomplete(s.take(m)),
{
}

/// The minimal encoding decodes back to the value it was built from, whatever
/// bytes follow it, and its length is the minimal byte count for the value's
/// magnitude.
pub proof fn lemma_varint_parse_prefix(v: u32, rest: Seq<u8>)
    ensures
        varint_parse(spec_varint(v as nat) + rest) == Some(((v as nat), varint_len(v as nat))),
        spec_varint(v as nat).len() == varint_len(v as nat),
{
    let s = spec_varint(v as nat) + rest;
    let n = v as nat;
    if n < 0x80 {
        assert(s[0] == n as u8);
    } else if n < 0x4000 {
        assert(s[0] == cont_byte(n));
        assert(s[1] == (n / 0x80) as u8);
        assert((s[0] - 0x80) + 0x80 * s[1] == n);
    } else if n < 0x20_0000 {
        assert(s[0] == cont_byte(n));
        assert(s[1] == cont_byte(n / 0x80));
        assert(s[2] == (n / 0x4000) as u8);
        assert(n / 0x80 / 0x80 == n / 0x4000) by (nonlinear_arith);
        assert(n / 0x80 % 0x80 == n % 0x4000 / 0x80) by (nonlinear_arith);
        assert((s[0] - 0x80) + 0x80 * (s[1] - 0x80) + 0x4000 * s[2] == n) by (nonlinear_arith)
            requires
                s[0] == (n % 0x80 + 0x80) as u8,
                s[1] == (n / 0x80 % 0x80 + 0x80) as u8,
                s[2] == (n / 0x4000) as u8,
                0x4000 <= n < 0x20_0000,
        ;
    } else if n < 0x1000_0000 {
        assert((s[0] - 0x80) + 0x80 * (s[1] - 0x80) + 0x4000 * (s[2] - 0x80) + 0x20_0000 * s[3] == n)
            by (nonlinear_arith)
            requires
                s[0] == (n % 0x80 + 0x80) as u8,
                s[1] == (n / 0x80 % 0x80 + 0x80) as u8,
                s[2] == (n / 0x4000 % 0x80 + 0x80) as u8,
                s[3] == (n / 0x20_0000) as u8,
                0x20_0000 <= n < 0x1000_0000,
        ;
    } else {
        assert((s[0] - 0x80) + 0x80 * (s[1] - 0x80) + 0x4000 * (s[2] - 0x80) + 0x20_0000 * (s[3] - 0x80)
            + 0x1000_0000 * s[4] == n)
            by (nonlinear_arith)
            requires
                s[0] == (n % 0x80 + 0x80) as u8,
                s[1] == (n / 0x80 % 0x80 + 0x80) as u8,
                s[2] == (n / 0x4000 % 0x80 + 0x80) as u8,
                s[3] == (n / 0x20_0000 % 0x80 + 0x80) as u8,
                s[4] == (n / 0x1000_0000) as u8,
                0x1000_0000 <= n < 0x1_0000_0000,
        ;
    }
}

/// Round trip for every unsigned 32-bit value: decoding the minimal encoding
/// of `v` yields `v` back, consuming exactly `varint_len(v)` bytes.
pub proof fn lemma_varint_roundtrip(v: u32)
    ensures
        varint_parse(spec_varint(v as nat)) == Some(((v as nat), varint_len(v as nat))),
        spec_varint(v as nat).len() == varint_len(v as nat),
{
    lemma_varint_parse_prefix(v, Seq::<u8>::empty());
    assert(spec_varint(v as nat) + Seq::<u8>::empty() =~= spec_varint(v as nat));
}

} // verus!
