//! Low-level byte codec primitives.
//!
//! Every stored value of this crate is encoded with the combinators below:
//! little-endian fixed-width integers, length-prefixed byte fields, and a
//! one-byte tag for optional fields. Each combinator comes as a spec-level
//! encoder and decoder pair, an executable encoder and decoder proved to
//! match them, and a lemma stating that decoding an embedded encoding
//! succeeds and returns the encoded value.

use vstd::bytes::{
    spec_u32_to_le_bytes, spec_u64_from_le_bytes, spec_u64_to_le_bytes, u32_to_le_bytes,
    u64_from_le_bytes, u64_to_le_bytes, lemma_auto_spec_u64_to_from_le_bytes,
};
use vstd::prelude::*;
use vstd::slice::{slice_subrange, slice_to_vec};

verus! {

// ---------------------------------------------------------------------------
// Spec-level encoders
// ---------------------------------------------------------------------------
/// Encoding of a `u64`: its eight bytes, little endian.
pub open spec fn spec_enc_u64(x: u64) -> Seq<u8> {
    spec_u64_to_le_bytes(x)
}

/// Encoding of a `u32`: its four bytes, little endian.
pub open spec fn spec_enc_u32(x: u32) -> Seq<u8> {
    spec_u32_to_le_bytes(x)
}

/// Encoding of a byte field: its length as a `u64`, then the bytes.
pub open spec fn spec_enc_bytes(s: Seq<u8>) -> Seq<u8> {
    spec_enc_u64(s.len() as u64) + s
}

/// Encoding of an optional byte field: a one-byte tag, then the field if any.
pub open spec fn spec_enc_opt_bytes(o: Option<Seq<u8>>) -> Seq<u8> {
    match o {
        Option::None => seq![0u8],
        Option::Some(s) => seq![1u8] + spec_enc_bytes(s),
    }
}

// ---------------------------------------------------------------------------
// Spec-level decoders: a cursor into the buffer, `None` on malformed input
// ---------------------------------------------------------------------------
/// Decodes a `u64` at `pos`, returning it and the position after it.
pub open spec fn spec_dec_u64(b: Seq<u8>, pos: int) -> Option<(u64, int)> {
    if 0 <= pos && pos + 8 <= b.len() {
        Some((spec_u64_from_le_bytes(b.subrange(pos, pos + 8)), pos + 8))
    } else {
        None
    }
}

/// Decodes a length-prefixed byte field at `pos`.
pub open spec fn spec_dec_bytes(b: Seq<u8>, pos: int) -> Option<(Seq<u8>, int)> {
    match spec_dec_u64(b, pos) {
        Some((n, p)) => if p + n <= b.len() {
            Some((b.subrange(p, p + n), p + n))
        } else {
            None
        },
        None => None,
    }
}

/// Decodes an optional byte field at `pos`.
pub open spec fn spec_dec_opt_bytes(b: Seq<u8>, pos: int) -> Option<(Option<Seq<u8>>, int)> {
    if 0 <= pos < b.len() {
        if b[pos] == 0u8 {
            Some((None, pos + 1))
        } else if b[pos] == 1u8 {
            match spec_dec_bytes(b, pos + 1) {
                Some((s, p)) => Some((Some(s), p)),
                None => None,
            }
        } else {
            None
        }
    } else {
        None
    }
}

// ---------------------------------------------------------------------------
// Executable encoders: append to an output buffer
// ---------------------------------------------------------------------------
/// Appends a byte slice to `out`.
pub fn append_slice(out: &mut Vec<u8>, s: &[u8])
    ensures
        final(out)@ == old(out)@ + s@,
{
    let mut i: usize = 0;
    while i < s.len()
        invariant
            0 <= i <= s@.len(),
            out@ == old(out)@ + s@.subrange(0, i as int),
        decreases s@.len() - i,
    {
        out.push(*vstd::slice::slice_index_get(s, i));
        proof {
            assert(old(out)@ + s@.subrange(0, i + 1 as int) =~= (old(out)@ + s@.subrange(
                0,
                i as int,
            )).push(s@[i as int]));
        }
        i = i + 1;
    }
    proof {
        assert(s@.subrange(0, s@.len() as int) =~= s@);
    }
}

/// Appends the encoding of a `u64` to `out`.
pub fn enc_u64(out: &mut Vec<u8>, x: u64)
    ensures
        final(out)@ == old(out)@ + spec_enc_u64(x),
{
    let b = u64_to_le_bytes(x);
    append_slice(out, b.as_slice());
}

/// Appends the encoding of a `u32` to `out`.
pub fn enc_u32(out: &mut Vec<u8>, x: u32)
    ensures
        final(out)@ == old(out)@ + spec_enc_u32(x),
{
    let b = u32_to_le_bytes(x);
    append_slice(out, b.as_slice());
}

/// Appends the encoding of a length-prefixed byte field to `out`.
pub fn enc_bytes(out: &mut Vec<u8>, s: &Vec<u8>)
    ensures
        final(out)@ == old(out)@ + spec_enc_bytes(s@),
{
    enc_u64(out, s.len() as u64);
    append_slice(out, s.as_slice());
    proof {
        assert(final(out)@ =~= old(out)@ + spec_enc_bytes(s@));
    }
}

/// Appends the encoding of an optional byte field to `out`.
pub fn enc_opt_bytes(out: &mut Vec<u8>, o: &Option<Vec<u8>>)
    ensures
        final(out)@ == old(out)@ + spec_enc_opt_bytes(match o {
            Option::None => Option::None,
            Option::Some(s) => Option::Some(s@),
        }),
{
    match o {
        Option::None => {
            out.push(0u8);
            proof {
                assert(final(out)@ =~= old(out)@ + seq![0u8]);
            }
        },
        Option::Some(s) => {
            out.push(1u8);
            enc_bytes(out, s);
            proof {
                assert(final(out)@ =~= old(out)@ + (seq![1u8] + spec_enc_bytes(s@)));
            }
        },
    }
}

// ---------------------------------------------------------------------------
// Executable decoders, proved to match the spec decoders
// ---------------------------------------------------------------------------
/// Decodes a `u64` at `pos`.
pub fn dec_u64(buf: &Vec<u8>, pos: usize) -> (r: Option<(u64, usize)>)
    ensures
        match r {
            Some((x, p)) => spec_dec_u64(buf@, pos as int) == Some((x, p as int)),
            None => spec_dec_u64(buf@, pos as int) is None,
        },
{
    if buf.len() >= 8 && pos <= buf.len() - 8 {
        let s = slice_subrange(buf.as_slice(), pos, pos + 8);
        let x = u64_from_le_bytes(s);
        Some((x, pos + 8))
    } else {
        None
    }
}

/// Decodes a length-prefixed byte field at `pos`.
pub fn dec_bytes(buf: &Vec<u8>, pos: usize) -> (r: Option<(Vec<u8>, usize)>)
    ensures
        match r {
            Some((s, p)) => spec_dec_bytes(buf@, pos as int) == Some((s@, p as int)),
            None => spec_dec_bytes(buf@, pos as int) is None,
        },
{
    match dec_u64(buf, pos) {
        None => None,
        Some((n, p)) => {
            if n <= (buf.len() - p) as u64 {
                let n_us = n as usize;
                let s = slice_subrange(buf.as_slice(), p, p + n_us);
                Some((slice_to_vec(s), p + n_us))
            } else {
                None
            }
        },
    }
}

/// Decodes an optional byte field at `pos`.
pub fn dec_opt_bytes(buf: &Vec<u8>, pos: usize) -> (r: Option<(Option<Vec<u8>>, usize)>)
    ensures
        match r {
            Some((o, p)) => spec_dec_opt_bytes(buf@, pos as int) == Some(
                (
                    match o {
                        Option::None => Option::None,
                        Option::Some(s) => Option::Some(s@),
                    },
                    p as int,
                ),
            ),
            None => spec_dec_opt_bytes(buf@, pos as int) is None,
        },
{
    if pos < buf.len() {
        let tag = buf[pos];
        if tag == 0u8 {
            Some((None, pos + 1))
        } else if tag == 1u8 {
            match dec_bytes(buf, pos + 1) {
                Some((s, p)) => Some((Some(s), p)),
                None => None,
            }
        } else {
            None
        }
    } else {
        None
    }
}

// ---------------------------------------------------------------------------
// Round-trip lemmas: decoding an embedded encoding yields the encoded value
// ---------------------------------------------------------------------------
/// A concatenation embedded in a buffer splits into its embedded parts.
pub proof fn lemma_split_sub(b: Seq<u8>, pos: int, x: Seq<u8>, y: Seq<u8>)
    requires
        0 <= pos,
        pos + x.len() + y.len() <= b.len(),
        b.subrange(pos, pos + x.len() + y.len()) == x + y,
    ensures
        b.subrange(pos, pos + x.len()) == x,
        b.subrange(pos + x.len(), pos + x.len() + y.len()) == y,
{
    assert(b.subrange(pos, pos + x.len()) =~= b.subrange(
        pos,
        pos + x.len() + y.len(),
    ).subrange(0, x.len() as int));
    assert((x + y).subrange(0, x.len() as int) =~= x);
    assert(b.subrange(pos + x.len(), pos + x.len() + y.len()) =~= b.subrange(
        pos,
        pos + x.len() + y.len(),
    ).subrange(x.len() as int, (x.len() + y.len()) as int));
    assert((x + y).subrange(x.len() as int, (x.len() + y.len()) as int) =~= y);
}

/// Decoding a `u64` whose encoding sits at `pos` in `b` yields it back.
pub proof fn lemma_dec_u64_enc(b: Seq<u8>, pos: int, x: u64)
    requires
        0 <= pos,
        pos + 8 <= b.len(),
        b.subrange(pos, pos + 8) == spec_enc_u64(x),
    ensures
        spec_dec_u64(b, pos) == Some((x, pos + 8)),
{
    lemma_auto_spec_u64_to_from_le_bytes();
}

/// Decoding a byte field whose encoding sits at `pos` in `b` yields it back.
pub proof fn lemma_dec_bytes_enc(b: Seq<u8>, pos: int, s: Seq<u8>)
    requires
        0 <= pos,
        s.len() <= u64::MAX,
        pos + spec_enc_bytes(s).len() <= b.len(),
        b.subrange(pos, pos + spec_enc_bytes(s).len()) == spec_enc_bytes(s),
    ensures
        spec_dec_bytes(b, pos) == Some((s, pos + spec_enc_bytes(s).len())),
{
    lemma_auto_spec_u64_to_from_le_bytes();
    let n = s.len() as u64;
    let enc = spec_enc_bytes(s);
    assert(enc.len() == 8 + s.len());
    assert(b.subrange(pos, pos + 8) =~= b.subrange(pos, pos + enc.len() as int).subrange(0, 8));
    assert(b.subrange(pos, pos + enc.len() as int).subrange(0, 8) =~= spec_enc_u64(n));
    lemma_dec_u64_enc(b, pos, n);
    assert(b.subrange(pos + 8, pos + 8 + s.len() as int) =~= b.subrange(
        pos,
        pos + enc.len() as int,
    ).subrange(8, enc.len() as int));
    assert(b.subrange(pos, pos + enc.len() as int).subrange(8, enc.len() as int) =~= s);
}

/// Decoding an optional byte field whose encoding sits at `pos` in `b`
/// yields it back.
pub proof fn lemma_dec_opt_bytes_enc(b: Seq<u8>, pos: int, o: Option<Seq<u8>>)
    requires
        0 <= pos,
        (o matches Some(s) ==> s.len() <= u64::MAX),
        pos + spec_enc_opt_bytes(o).len() <= b.len(),
        b.subrange(pos, pos + spec_enc_opt_bytes(o).len()) == spec_enc_opt_bytes(o),
    ensures
        spec_dec_opt_bytes(b, pos) == Some((o, pos + spec_enc_opt_bytes(o).len())),
{
    let enc = spec_enc_opt_bytes(o);
    assert(b[pos] == enc[0]);
    match o {
        Option::None => {
            assert(enc =~= seq![0u8]);
        },
        Option::Some(s) => {
            let inner = spec_enc_bytes(s);
            assert(enc =~= seq![1u8] + inner);
            assert(b[pos] == 1u8);
            assert(b.subrange(pos + 1, pos + 1 + inner.len() as int) =~= b.subrange(
                pos,
                pos + enc.len() as int,
            ).subrange(1, enc.len() as int));
            assert(b.subrange(pos, pos + enc.len() as int).subrange(1, enc.len() as int)
                =~= inner);
            lemma_dec_bytes_enc(b, pos + 1, s);
        },
    }
}

} // verus!
