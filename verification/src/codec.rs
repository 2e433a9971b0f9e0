//! The wire form of the protocol.
//!
//! Every value crossing a pipe is one self-describing binary frame.  The
//! format is fixed little-endian: integers as their bytes, a `bool` as one
//! byte, a string as an 8-byte length followed by its UTF-8 bytes, and each
//! enum as one tag byte followed by its payload.
//!
//! The format is specified twice: once as spec functions over sequences
//! (`spec_enc_*` / `spec_dec_*`), and once as executable encoders and
//! decoders proved against them.  The round-trip lemmas state that decoding
//! an encoding yields the value back, which carries over to the executable
//! code through those contracts.

use vstd::prelude::*;

use vstd::slice::{slice_subrange, slice_to_vec};
use vstd::string::StrSliceExecFns;
use vstd::string::StringExecFns;
use vstd::utf8::{decode_utf8, encode_utf8, valid_utf8};

verus! {

/// 256 to the `width`: the number of values a `width`-byte field can hold.
pub open spec fn pow256(width: nat) -> int
    decreases width,
{
    if width == 0 {
        1
    } else {
        256 * pow256((width - 1) as nat)
    }
}

pub proof fn lemma_pow256_pos(width: nat)
    ensures
        pow256(width) >= 1,
    decreases width,
{
    if width > 0 {
        lemma_pow256_pos((width - 1) as nat);
    }
}

pub proof fn lemma_pow256_mono(w1: nat, w2: nat)
    requires
        w1 <= w2,
    ensures
        pow256(w1) <= pow256(w2),
    decreases w2,
{
    if w1 < w2 {
        lemma_pow256_mono(w1, (w2 - 1) as nat);
        lemma_pow256_pos((w2 - 1) as nat);
    }
}

/// `width` little-endian bytes of the low bits of `v`.
pub open spec fn spec_enc_uint(v: int, width: nat) -> Seq<u8>
    decreases width,
{
    if width == 0 {
        Seq::empty()
    } else {
        seq![(v % 256) as u8] + spec_enc_uint(v / 256, (width - 1) as nat)
    }
}

pub proof fn lemma_enc_uint_len(v: int, width: nat)
    ensures
        spec_enc_uint(v, width).len() == width,
    decreases width,
{
    if width > 0 {
        lemma_enc_uint_len(v / 256, (width - 1) as nat);
    }
}

/// The value of the `width` little-endian bytes at `pos`.
pub open spec fn spec_dec_uint(bytes: Seq<u8>, pos: int, width: nat) -> int
    decreases width,
{
    if width == 0 {
        0
    } else {
        bytes[pos] + 256 * spec_dec_uint(bytes, pos + 1, (width - 1) as nat)
    }
}

pub proof fn lemma_dec_uint_bound(bytes: Seq<u8>, pos: int, width: nat)
    requires
        0 <= pos,
        pos + width <= bytes.len(),
    ensures
        0 <= spec_dec_uint(bytes, pos, width) < pow256(width),
    decreases width,
{
    if width > 0 {
        lemma_dec_uint_bound(bytes, pos + 1, (width - 1) as nat);
    }
}

/// Reading back `width` bytes written from `v` yields `v`, for `v` in range.
pub proof fn lemma_dec_enc_uint(bytes: Seq<u8>, pos: int, v: int, width: nat)
    requires
        0 <= pos,
        0 <= v < pow256(width),
        pos + width <= bytes.len(),
        bytes.subrange(pos, pos + width) == spec_enc_uint(v, width),
    ensures
        spec_dec_uint(bytes, pos, width) == v,
    decreases width,
{
    lemma_enc_uint_len(v, width);
    if width > 0 {
        let rest = spec_enc_uint(v / 256, (width - 1) as nat);
        lemma_enc_uint_len(v / 256, (width - 1) as nat);
        assert(bytes.subrange(pos, pos + width)[0] == (v % 256) as u8);
        assert(bytes[pos] == (v % 256) as u8);
        assert(bytes.subrange(pos + 1, pos + width) =~= rest) by {
            assert forall|i: int| 0 <= i < width - 1 implies bytes.subrange(
                pos + 1,
                pos + width,
            )[i] == rest[i] by {
                assert(bytes.subrange(pos, pos + width)[i + 1] == (seq![(v % 256) as u8]
                    + rest)[i + 1]);
            }
        }
        lemma_pow256_pos((width - 1) as nat);
        lemma_dec_enc_uint(bytes, pos + 1, v / 256, (width - 1) as nat);
        assert(v == 256 * (v / 256) + v % 256);
    }
}

/// Appends the `width`-byte little-endian form of `v`.
pub fn enc_uint(out: &mut Vec<u8>, v: u64, width: u8)
    requires
        width <= 8,
    ensures
        final(out)@ == old(out)@ + spec_enc_uint(v as int, width as nat),
    decreases width,
{
    if width == 0 {
        assert(out@ =~= out@ + spec_enc_uint(v as int, 0));
        return ;
    }
    out.push((v % 256) as u8);
    enc_uint(out, v / 256, width - 1);
    assert(final(out)@ =~= old(out)@ + spec_enc_uint(v as int, width as nat));
}

/// Reads `width` little-endian bytes at `pos`, if they are there.
pub fn dec_uint(buf: &[u8], pos: usize, width: u8) -> (r: Option<(u64, usize)>)
    requires
        width <= 8,
    ensures
        match r {
            Some((v, end)) => pos + width <= buf@.len() && end == pos + width && v
                == spec_dec_uint(buf@, pos as int, width as nat) && v < pow256(width as nat),
            None => pos + width > buf@.len(),
        },
    decreases width,
{
    if width == 0 {
        proof {
            lemma_pow256_pos(0);
        }
        if pos <= buf.len() {
            return Some((0, pos));
        } else {
            return None;
        }
    }
    if pos >= buf.len() {
        return None;
    }
    let b = buf[pos];
    match dec_uint(buf, pos + 1, width - 1) {
        None => None,
        Some((hi, end)) => {
            proof {
                lemma_dec_uint_bound(buf@, pos + 1 as int, (width - 1) as nat);
                lemma_pow256_mono((width - 1) as nat, 7);
                reveal_with_fuel(pow256, 9);
            }
            Some((b as u64 + 256 * hi, end))
        },
    }
}

/// One byte.
pub open spec fn spec_enc_u8(v: u8) -> Seq<u8> {
    spec_enc_uint(v as int, 1)
}

pub open spec fn spec_dec_u8(bytes: Seq<u8>, pos: int) -> Option<(u8, int)> {
    if 0 <= pos && pos + 1 <= bytes.len() {
        Some((spec_dec_uint(bytes, pos, 1) as u8, pos + 1))
    } else {
        None
    }
}

/// Four little-endian bytes.
pub open spec fn spec_enc_u32(v: u32) -> Seq<u8> {
    spec_enc_uint(v as int, 4)
}

pub open spec fn spec_dec_u32(bytes: Seq<u8>, pos: int) -> Option<(u32, int)> {
    if 0 <= pos && pos + 4 <= bytes.len() {
        Some((spec_dec_uint(bytes, pos, 4) as u32, pos + 4))
    } else {
        None
    }
}

/// Eight little-endian bytes.
pub open spec fn spec_enc_u64(v: u64) -> Seq<u8> {
    spec_enc_uint(v as int, 8)
}

pub open spec fn spec_dec_u64(bytes: Seq<u8>, pos: int) -> Option<(u64, int)> {
    if 0 <= pos && pos + 8 <= bytes.len() {
        Some((spec_dec_uint(bytes, pos, 8) as u64, pos + 8))
    } else {
        None
    }
}

proof fn lemma_pow256_values()
    ensures
        pow256(1) == 0x100,
        pow256(2) == 0x1_0000,
        pow256(4) == 0x1_0000_0000,
        pow256(8) == 0x1_0000_0000_0000_0000,
{
    reveal_with_fuel(pow256, 9);
}

pub fn enc_u8(out: &mut Vec<u8>, v: u8)
    ensures
        final(out)@ == old(out)@ + spec_enc_u8(v),
{
    enc_uint(out, v as u64, 1);
}

pub fn enc_u32(out: &mut Vec<u8>, v: u32)
    ensures
        final(out)@ == old(out)@ + spec_enc_u32(v),
{
    enc_uint(out, v as u64, 4);
}

pub fn enc_u64(out: &mut Vec<u8>, v: u64)
    ensures
        final(out)@ == old(out)@ + spec_enc_u64(v),
{
    enc_uint(out, v, 8);
}

pub fn dec_u8(buf: &[u8], pos: usize) -> (r: Option<(u8, usize)>)
    ensures
        match r {
            Some((v, end)) => spec_dec_u8(buf@, pos as int) == Some((v, end as int)),
            None => spec_dec_u8(buf@, pos as int) is None,
        },
{
    proof {
        lemma_pow256_values();
    }
    match dec_uint(buf, pos, 1) {
        Some((v, end)) => Some(((v as u8), end)),
        None => None,
    }
}

pub fn dec_u32(buf: &[u8], pos: usize) -> (r: Option<(u32, usize)>)
    ensures
        match r {
            Some((v, end)) => spec_dec_u32(buf@, pos as int) == Some((v, end as int)),
            None => spec_dec_u32(buf@, pos as int) is None,
        },
{
    proof {
        lemma_pow256_values();
    }
    match dec_uint(buf, pos, 4) {
        Some((v, end)) => Some(((v as u32), end)),
        None => None,
    }
}

pub fn dec_u64(buf: &[u8], pos: usize) -> (r: Option<(u64, usize)>)
    ensures
        match r {
            Some((v, end)) => spec_dec_u64(buf@, pos as int) == Some((v, end as int)),
            None => spec_dec_u64(buf@, pos as int) is None,
        },
{
    match dec_uint(buf, pos, 8) {
        Some((v, end)) => Some((v, end)),
        None => None,
    }
}

pub proof fn lemma_dec_enc_u8(bytes: Seq<u8>, pos: int, v: u8)
    requires
        0 <= pos,
        pos + 1 <= bytes.len(),
        bytes.subrange(pos, pos + 1) == spec_enc_u8(v),
    ensures
        spec_dec_u8(bytes, pos) == Some((v, pos + 1)),
{
    lemma_pow256_values();
    lemma_dec_enc_uint(bytes, pos, v as int, 1);
}

pub proof fn lemma_dec_enc_u32(bytes: Seq<u8>, pos: int, v: u32)
    requires
        0 <= pos,
        pos + 4 <= bytes.len(),
        bytes.subrange(pos, pos + 4) == spec_enc_u32(v),
    ensures
        spec_dec_u32(bytes, pos) == Some((v, pos + 4)),
{
    lemma_pow256_values();
    lemma_dec_enc_uint(bytes, pos, v as int, 4);
}

pub proof fn lemma_dec_enc_u64(bytes: Seq<u8>, pos: int, v: u64)
    requires
        0 <= pos,
        pos + 8 <= bytes.len(),
        bytes.subrange(pos, pos + 8) == spec_enc_u64(v),
    ensures
        spec_dec_u64(bytes, pos) == Some((v, pos + 8)),
{
    lemma_pow256_values();
    lemma_dec_enc_uint(bytes, pos, v as int, 8);
}

/// The two's-complement 32-bit value of `v`, as a nonnegative integer.
pub open spec fn spec_u32_of_i32(v: i32) -> int {
    if v >= 0 {
        v as int
    } else {
        v + 0x1_0000_0000
    }
}

/// A signed 32-bit value as its four two's-complement bytes.
pub open spec fn spec_enc_i32(v: i32) -> Seq<u8> {
    spec_enc_uint(spec_u32_of_i32(v), 4)
}

pub open spec fn spec_i32_of_uint(n: int) -> i32 {
    if n < 0x8000_0000 {
        n as i32
    } else {
        (n - 0x1_0000_0000) as i32
    }
}

pub open spec fn spec_dec_i32(bytes: Seq<u8>, pos: int) -> Option<(i32, int)> {
    if 0 <= pos && pos + 4 <= bytes.len() {
        Some((spec_i32_of_uint(spec_dec_uint(bytes, pos, 4)), pos + 4))
    } else {
        None
    }
}

pub fn enc_i32(out: &mut Vec<u8>, v: i32)
    ensures
        final(out)@ == old(out)@ + spec_enc_i32(v),
{
    let n: u64 = if v >= 0 {
        v as u64
    } else {
        (v as i64 + 0x1_0000_0000) as u64
    };
    enc_uint(out, n, 4);
}

pub fn dec_i32(buf: &[u8], pos: usize) -> (r: Option<(i32, usize)>)
    ensures
        match r {
            Some((v, end)) => spec_dec_i32(buf@, pos as int) == Some((v, end as int)),
            None => spec_dec_i32(buf@, pos as int) is None,
        },
{
    proof {
        lemma_pow256_values();
    }
    match dec_uint(buf, pos, 4) {
        Some((n, end)) => {
            let v: i32 = if n < 0x8000_0000 {
                n as i32
            } else {
                (n as i64 - 0x1_0000_0000) as i32
            };
            Some((v, end))
        },
        None => None,
    }
}

pub proof fn lemma_dec_enc_i32(bytes: Seq<u8>, pos: int, v: i32)
    requires
        0 <= pos,
        pos + 4 <= bytes.len(),
        bytes.subrange(pos, pos + 4) == spec_enc_i32(v),
    ensures
        spec_dec_i32(bytes, pos) == Some((v, pos + 4)),
{
    lemma_pow256_values();
    lemma_dec_enc_uint(bytes, pos, spec_u32_of_i32(v), 4);
}

/// One byte, `1` for true and `0` for false; anything else is rejected.
pub open spec fn spec_enc_bool(v: bool) -> Seq<u8> {
    seq![if v { 1u8 } else { 0u8 }]
}

pub open spec fn spec_dec_bool(bytes: Seq<u8>, pos: int) -> Option<(bool, int)> {
    if 0 <= pos && pos + 1 <= bytes.len() {
        if bytes[pos] == 1u8 {
            Some((true, pos + 1))
        } else if bytes[pos] == 0u8 {
            Some((false, pos + 1))
        } else {
            None
        }
    } else {
        None
    }
}

pub fn enc_bool(out: &mut Vec<u8>, v: bool)
    ensures
        final(out)@ == old(out)@ + spec_enc_bool(v),
{
    out.push(if v {
        1u8
    } else {
        0u8
    });
    assert(final(out)@ =~= old(out)@ + spec_enc_bool(v));
}

pub fn dec_bool(buf: &[u8], pos: usize) -> (r: Option<(bool, usize)>)
    ensures
        match r {
            Some((v, end)) => spec_dec_bool(buf@, pos as int) == Some((v, end as int)),
            None => spec_dec_bool(buf@, pos as int) is None,
        },
{
    if pos >= buf.len() {
        return None;
    }
    let b = buf[pos];
    if b == 1 {
        Some((true, pos + 1))
    } else if b == 0 {
        Some((false, pos + 1))
    } else {
        None
    }
}

pub proof fn lemma_dec_enc_bool(bytes: Seq<u8>, pos: int, v: bool)
    requires
        0 <= pos,
        pos + 1 <= bytes.len(),
        bytes.subrange(pos, pos + 1) == spec_enc_bool(v),
    ensures
        spec_dec_bool(bytes, pos) == Some((v, pos + 1)),
{
    assert(bytes[pos] == bytes.subrange(pos, pos + 1)[0]);
}

/// An 8-byte length followed by that many UTF-8 bytes.
pub open spec fn spec_enc_str(s: Seq<char>) -> Seq<u8> {
    spec_enc_uint(encode_utf8(s).len() as int, 8) + encode_utf8(s)
}

/// Whether the UTF-8 form of `s` fits the length field.  Every string an
/// executable caller can hold satisfies this.
pub open spec fn str_fits(s: Seq<char>) -> bool {
    encode_utf8(s).len() < pow256(8)
}

pub open spec fn spec_dec_str(bytes: Seq<u8>, pos: int) -> Option<(Seq<char>, int)> {
    if 0 <= pos && pos + 8 <= bytes.len() {
        let n = spec_dec_uint(bytes, pos, 8);
        if pos + 8 + n <= bytes.len() && valid_utf8(bytes.subrange(pos + 8, pos + 8 + n)) {
            Some((decode_utf8(bytes.subrange(pos + 8, pos + 8 + n)), pos + 8 + n))
        } else {
            None
        }
    } else {
        None
    }
}

/// Relies on `String::from_utf8`: it returns `Ok` exactly on valid UTF-8
/// input and then yields the string those bytes spell.
#[verifier::external_body]
fn string_from_utf8(bytes: Vec<u8>) -> (r: Option<String>)
    ensures
        r is Some <==> valid_utf8(bytes@),
        r matches Some(s) ==> s@ == decode_utf8(bytes@),
{
    match String::from_utf8(bytes) {
        Ok(s) => Some(s),
        Err(_) => None,
    }
}

pub fn enc_str(out: &mut Vec<u8>, s: &str)
    ensures
        final(out)@ == old(out)@ + spec_enc_str(s@),
{
    let mut bytes = s.as_bytes_vec();
    enc_uint(out, bytes.len() as u64, 8);
    out.append(&mut bytes);
    assert(final(out)@ =~= old(out)@ + spec_enc_str(s@));
}

pub fn dec_str(buf: &[u8], pos: usize) -> (r: Option<(String, usize)>)
    ensures
        match r {
            Some((v, end)) => spec_dec_str(buf@, pos as int) == Some((v@, end as int)),
            None => spec_dec_str(buf@, pos as int) is None,
        },
{
    match dec_uint(buf, pos, 8) {
        None => None,
        Some((n, p1)) => {
            if n > (buf.len() - p1) as u64 {
                return None;
            }
            let end = p1 + n as usize;
            let sub = slice_subrange(buf, p1, end);
            let bytes = slice_to_vec(sub);
            match string_from_utf8(bytes) {
                Some(s) => Some((s, end)),
                None => None,
            }
        },
    }
}

/// Reading back an encoded string yields the same characters.
pub proof fn lemma_dec_enc_str(bytes: Seq<u8>, pos: int, s: Seq<char>)
    requires
        0 <= pos,
        str_fits(s),
        pos + spec_enc_str(s).len() <= bytes.len(),
        bytes.subrange(pos, pos + spec_enc_str(s).len()) == spec_enc_str(s),
    ensures
        spec_dec_str(bytes, pos) == Some((s, pos + spec_enc_str(s).len())),
{
    broadcast use vstd::utf8::encode_utf8_valid_utf8, vstd::utf8::encode_utf8_decode_utf8;

    let u = encode_utf8(s);
    let lenb = spec_enc_uint(u.len() as int, 8);
    lemma_enc_uint_len(u.len() as int, 8);
    lemma_pow256_values();
    assert(bytes.subrange(pos, pos + 8) =~= lenb) by {
        assert forall|i: int| 0 <= i < 8 implies bytes.subrange(pos, pos + 8)[i] == lenb[i] by {
            assert(bytes.subrange(pos, pos + spec_enc_str(s).len())[i] == (lenb + u)[i]);
        }
    }
    lemma_dec_enc_uint(bytes, pos, u.len() as int, 8);
    assert(bytes.subrange(pos + 8, pos + 8 + u.len()) =~= u) by {
        assert forall|i: int| 0 <= i < u.len() implies bytes.subrange(
            pos + 8,
            pos + 8 + u.len(),
        )[i] == u[i] by {
            assert(bytes.subrange(pos, pos + spec_enc_str(s).len())[8 + i] == (lenb + u)[8 + i]);
        }
    }
}

/// A `Guid` as its four fields, 4-2-2-8 little-endian bytes.
pub open spec fn spec_enc_guid(g: crate::guid::Guid) -> Seq<u8> {
    spec_enc_uint(g.data1 as int, 4) + spec_enc_uint(g.data2 as int, 2) + spec_enc_uint(
        g.data3 as int,
        2,
    ) + spec_enc_uint(g.data4 as int, 8)
}

pub open spec fn spec_dec_guid(bytes: Seq<u8>, pos: int) -> Option<(crate::guid::Guid, int)> {
    if 0 <= pos && pos + 16 <= bytes.len() {
        Some(
            (
                crate::guid::Guid {
                    data1: spec_dec_uint(bytes, pos, 4) as u32,
                    data2: spec_dec_uint(bytes, pos + 4, 2) as u16,
                    data3: spec_dec_uint(bytes, pos + 6, 2) as u16,
                    data4: spec_dec_uint(bytes, pos + 8, 8) as u64,
                },
                pos + 16,
            ),
        )
    } else {
        None
    }
}

pub fn enc_guid(out: &mut Vec<u8>, g: &crate::guid::Guid)
    ensures
        final(out)@ == old(out)@ + spec_enc_guid(*g),
{
    enc_uint(out, g.data1 as u64, 4);
    enc_uint(out, g.data2 as u64, 2);
    enc_uint(out, g.data3 as u64, 2);
    enc_uint(out, g.data4, 8);
    assert(final(out)@ =~= old(out)@ + spec_enc_guid(*g));
}

pub fn dec_guid(buf: &[u8], pos: usize) -> (r: Option<(crate::guid::Guid, usize)>)
    ensures
        match r {
            Some((v, end)) => spec_dec_guid(buf@, pos as int) == Some((v, end as int)),
            None => spec_dec_guid(buf@, pos as int) is None,
        },
{
    proof {
        lemma_pow256_values();
    }
    if buf.len() < 16 || pos > buf.len() - 16 {
        return None;
    }
    let r1 = dec_uint(buf, pos, 4);
    let r2 = dec_uint(buf, pos + 4, 2);
    let r3 = dec_uint(buf, pos + 6, 2);
    let r4 = dec_uint(buf, pos + 8, 8);
    match (r1, r2, r3, r4) {
        (Some((d1, _)), Some((d2, _)), Some((d3, _)), Some((d4, end))) => Some(
            (
                crate::guid::Guid {
                    data1: d1 as u32,
                    data2: d2 as u16,
                    data3: d3 as u16,
                    data4: d4,
                },
                end,
            ),
        ),
        _ => None,
    }
}

pub proof fn lemma_dec_enc_guid(bytes: Seq<u8>, pos: int, g: crate::guid::Guid)
    requires
        0 <= pos,
        pos + 16 <= bytes.len(),
        bytes.subrange(pos, pos + 16) == spec_enc_guid(g),
    ensures
        spec_dec_guid(bytes, pos) == Some((g, pos + 16)),
{
    lemma_pow256_values();
    let e1 = spec_enc_uint(g.data1 as int, 4);
    let e2 = spec_enc_uint(g.data2 as int, 2);
    let e3 = spec_enc_uint(g.data3 as int, 2);
    let e4 = spec_enc_uint(g.data4 as int, 8);
    lemma_enc_uint_len(g.data1 as int, 4);
    lemma_enc_uint_len(g.data2 as int, 2);
    lemma_enc_uint_len(g.data3 as int, 2);
    lemma_enc_uint_len(g.data4 as int, 8);
    assert(bytes.subrange(pos, pos + 4) =~= e1) by {
        assert forall|i: int| 0 <= i < 4 implies bytes.subrange(pos, pos + 4)[i] == e1[i] by {
            assert(bytes.subrange(pos, pos + 16)[i] == (e1 + e2 + e3 + e4)[i]);
        }
    }
    assert(bytes.subrange(pos + 4, pos + 6) =~= e2) by {
        assert forall|i: int| 0 <= i < 2 implies bytes.subrange(pos + 4, pos + 6)[i] == e2[i] by {
            assert(bytes.subrange(pos, pos + 16)[4 + i] == (e1 + e2 + e3 + e4)[4 + i]);
        }
    }
    assert(bytes.subrange(pos + 6, pos + 8) =~= e3) by {
        assert forall|i: int| 0 <= i < 2 implies bytes.subrange(pos + 6, pos + 8)[i] == e3[i] by {
            assert(bytes.subrange(pos, pos + 16)[6 + i] == (e1 + e2 + e3 + e4)[6 + i]);
        }
    }
    assert(bytes.subrange(pos + 8, pos + 16) =~= e4) by {
        assert forall|i: int| 0 <= i < 8 implies bytes.subrange(pos + 8, pos + 16)[i] == e4[i] by {
            assert(bytes.subrange(pos, pos + 16)[8 + i] == (e1 + e2 + e3 + e4)[8 + i]);
        }
    }
    lemma_dec_enc_uint(bytes, pos, g.data1 as int, 4);
    lemma_dec_enc_uint(bytes, pos + 4, g.data2 as int, 2);
    lemma_dec_enc_uint(bytes, pos + 6, g.data3 as int, 2);
    lemma_dec_enc_uint(bytes, pos + 8, g.data4 as int, 8);
}

} // verus!

// === Composite pieces =====================================================

use crate::guid::Guid;
use crate::protocol::{
    CancelJobCommand, Command, CommandV, CompleteJobCommand, HResultMessage, HResultMessageV,
    MonitorConfig, MonitorConfigV, MonitorJobCommand, MonitorJobCommandV, ProxyUsage,
    ResumeJobCommand, SetJobPriorityCommand, SetUpdateIntervalCommand, StartJobCommand,
    StartJobCommandV, SuspendJobCommand,
};

verus! {

/// Splits a combined-subrange equality into its two halves.
pub proof fn lemma_split2(bytes: Seq<u8>, pos: int, a: Seq<u8>, b: Seq<u8>)
    requires
        0 <= pos,
        pos + a.len() + b.len() <= bytes.len(),
        bytes.subrange(pos, pos + a.len() + b.len()) == a + b,
    ensures
        bytes.subrange(pos, pos + a.len()) == a,
        bytes.subrange(pos + a.len(), pos + a.len() + b.len()) == b,
{
    let whole = bytes.subrange(pos, pos + a.len() + b.len());
    assert(bytes.subrange(pos, pos + a.len()) =~= a) by {
        assert forall|i: int| 0 <= i < a.len() implies bytes.subrange(pos, pos + a.len())[i]
            == a[i] by {
            assert(whole[i] == (a + b)[i]);
        }
    }
    assert(bytes.subrange(pos + a.len(), pos + a.len() + b.len()) =~= b) by {
        assert forall|i: int| 0 <= i < b.len() implies bytes.subrange(
            pos + a.len(),
            pos + a.len() + b.len(),
        )[i] == b[i] by {
            assert(whole[a.len() + i] == (a + b)[a.len() + i]);
        }
    }
}

pub proof fn lemma_enc_str_len(s: Seq<char>)
    ensures
        spec_enc_str(s).len() == 8 + encode_utf8(s).len(),
{
    lemma_enc_uint_len(encode_utf8(s).len() as int, 8);
}

pub proof fn lemma_enc_guid_len(g: Guid)
    ensures
        spec_enc_guid(g).len() == 16,
{
    lemma_enc_uint_len(g.data1 as int, 4);
    lemma_enc_uint_len(g.data2 as int, 2);
    lemma_enc_uint_len(g.data3 as int, 2);
    lemma_enc_uint_len(g.data4 as int, 8);
}

pub proof fn lemma_enc_i32_len(v: i32)
    ensures
        spec_enc_i32(v).len() == 4,
{
    lemma_enc_uint_len(spec_u32_of_i32(v), 4);
}

pub proof fn lemma_enc_u32_len(v: u32)
    ensures
        spec_enc_u32(v).len() == 4,
{
    lemma_enc_uint_len(v as int, 4);
}

// === HResultMessage =======================================================

pub open spec fn spec_enc_hrm(m: HResultMessageV) -> Seq<u8> {
    spec_enc_i32(m.hr) + spec_enc_str(m.message)
}

pub open spec fn spec_dec_hrm(bytes: Seq<u8>, pos: int) -> Option<(HResultMessageV, int)> {
    match spec_dec_i32(bytes, pos) {
        None => None,
        Some((hr, p1)) => match spec_dec_str(bytes, p1) {
            None => None,
            Some((message, p2)) => Some((HResultMessageV { hr, message }, p2)),
        },
    }
}

pub open spec fn hrm_wf(m: HResultMessageV) -> bool {
    str_fits(m.message)
}

pub fn enc_hrm(out: &mut Vec<u8>, m: &HResultMessage)
    ensures
        final(out)@ == old(out)@ + spec_enc_hrm(m@),
{
    enc_i32(out, m.hr);
    enc_str(out, m.message.as_str());
    assert(final(out)@ =~= old(out)@ + spec_enc_hrm(m@));
}

pub fn dec_hrm(buf: &[u8], pos: usize) -> (r: Option<(HResultMessage, usize)>)
    ensures
        match r {
            Some((v, end)) => spec_dec_hrm(buf@, pos as int) == Some((v@, end as int)),
            None => spec_dec_hrm(buf@, pos as int) is None,
        },
{
    match dec_i32(buf, pos) {
        None => None,
        Some((hr, p1)) => match dec_str(buf, p1) {
            None => None,
            Some((message, p2)) => Some((HResultMessage { hr, message }, p2)),
        },
    }
}

pub proof fn lemma_dec_enc_hrm(bytes: Seq<u8>, pos: int, m: HResultMessageV)
    requires
        0 <= pos,
        hrm_wf(m),
        pos + spec_enc_hrm(m).len() <= bytes.len(),
        bytes.subrange(pos, pos + spec_enc_hrm(m).len()) == spec_enc_hrm(m),
    ensures
        spec_dec_hrm(bytes, pos) == Some((m, pos + spec_enc_hrm(m).len())),
{
    let e1 = spec_enc_i32(m.hr);
    let e2 = spec_enc_str(m.message);
    lemma_enc_i32_len(m.hr);
    lemma_enc_str_len(m.message);
    lemma_split2(bytes, pos, e1, e2);
    lemma_dec_enc_i32(bytes, pos, m.hr);
    lemma_dec_enc_str(bytes, pos + 4, m.message);
}

// === ProxyUsage ===========================================================

pub open spec fn spec_enc_proxy(p: ProxyUsage) -> Seq<u8> {
    match p {
        ProxyUsage::Preconfig => seq![0u8],
        ProxyUsage::NoProxy => seq![1u8],
        ProxyUsage::AutoDetect => seq![2u8],
    }
}

pub open spec fn spec_dec_proxy(bytes: Seq<u8>, pos: int) -> Option<(ProxyUsage, int)> {
    if 0 <= pos && pos + 1 <= bytes.len() {
        if bytes[pos] == 0u8 {
            Some((ProxyUsage::Preconfig, pos + 1))
        } else if bytes[pos] == 1u8 {
            Some((ProxyUsage::NoProxy, pos + 1))
        } else if bytes[pos] == 2u8 {
            Some((ProxyUsage::AutoDetect, pos + 1))
        } else {
            None
        }
    } else {
        None
    }
}

pub fn enc_proxy(out: &mut Vec<u8>, p: ProxyUsage)
    ensures
        final(out)@ == old(out)@ + spec_enc_proxy(p),
{
    let tag: u8 = match p {
        ProxyUsage::Preconfig => 0,
        ProxyUsage::NoProxy => 1,
        ProxyUsage::AutoDetect => 2,
    };
    out.push(tag);
    assert(final(out)@ =~= old(out)@ + spec_enc_proxy(p));
}

pub fn dec_proxy(buf: &[u8], pos: usize) -> (r: Option<(ProxyUsage, usize)>)
    ensures
        match r {
            Some((v, end)) => spec_dec_proxy(buf@, pos as int) == Some((v, end as int)),
            None => spec_dec_proxy(buf@, pos as int) is None,
        },
{
    if pos >= buf.len() {
        return None;
    }
    let b = buf[pos];
    if b == 0 {
        Some((ProxyUsage::Preconfig, pos + 1))
    } else if b == 1 {
        Some((ProxyUsage::NoProxy, pos + 1))
    } else if b == 2 {
        Some((ProxyUsage::AutoDetect, pos + 1))
    } else {
        None
    }
}

pub proof fn lemma_dec_enc_proxy(bytes: Seq<u8>, pos: int, p: ProxyUsage)
    requires
        0 <= pos,
        pos + spec_enc_proxy(p).len() <= bytes.len(),
        bytes.subrange(pos, pos + spec_enc_proxy(p).len()) == spec_enc_proxy(p),
    ensures
        spec_dec_proxy(bytes, pos) == Some((p, pos + spec_enc_proxy(p).len())),
{
    assert(bytes[pos] == bytes.subrange(pos, pos + 1)[0]);
}

// === MonitorConfig ========================================================

pub open spec fn spec_enc_monitor_config(m: MonitorConfigV) -> Seq<u8> {
    spec_enc_str(m.pipe_name) + spec_enc_u32(m.interval_millis)
}

pub open spec fn spec_dec_monitor_config(bytes: Seq<u8>, pos: int) -> Option<
    (MonitorConfigV, int),
> {
    match spec_dec_str(bytes, pos) {
        None => None,
        Some((pipe_name, p1)) => match spec_dec_u32(bytes, p1) {
            None => None,
            Some((interval_millis, p2)) => Some((MonitorConfigV { pipe_name, interval_millis }, p2)),
        },
    }
}

pub open spec fn monitor_config_wf(m: MonitorConfigV) -> bool {
    str_fits(m.pipe_name)
}

pub fn enc_monitor_config(out: &mut Vec<u8>, m: &MonitorConfig)
    ensures
        final(out)@ == old(out)@ + spec_enc_monitor_config(m@),
{
    enc_str(out, m.pipe_name.as_str());
    enc_u32(out, m.interval_millis);
    assert(final(out)@ =~= old(out)@ + spec_enc_monitor_config(m@));
}

pub fn dec_monitor_config(buf: &[u8], pos: usize) -> (r: Option<(MonitorConfig, usize)>)
    ensures
        match r {
            Some((v, end)) => spec_dec_monitor_config(buf@, pos as int) == Some((v@, end as int)),
            None => spec_dec_monitor_config(buf@, pos as int) is None,
        },
{
    match dec_str(buf, pos) {
        None => None,
        Some((pipe_name, p1)) => match dec_u32(buf, p1) {
            None => None,
            Some((interval_millis, p2)) => Some((MonitorConfig { pipe_name, interval_millis }, p2)),
        },
    }
}

pub proof fn lemma_dec_enc_monitor_config(bytes: Seq<u8>, pos: int, m: MonitorConfigV)
    requires
        0 <= pos,
        monitor_config_wf(m),
        pos + spec_enc_monitor_config(m).len() <= bytes.len(),
        bytes.subrange(pos, pos + spec_enc_monitor_config(m).len()) == spec_enc_monitor_config(m),
    ensures
        spec_dec_monitor_config(bytes, pos) == Some((m, pos + spec_enc_monitor_config(m).len())),
{
    let e1 = spec_enc_str(m.pipe_name);
    let e2 = spec_enc_u32(m.interval_millis);
    lemma_enc_str_len(m.pipe_name);
    lemma_enc_u32_len(m.interval_millis);
    lemma_split2(bytes, pos, e1, e2);
    lemma_dec_enc_str(bytes, pos, m.pipe_name);
    lemma_dec_enc_u32(bytes, pos + e1.len(), m.interval_millis);
}

// === Option<MonitorConfig> ================================================

pub open spec fn spec_enc_opt_monitor_config(m: Option<MonitorConfigV>) -> Seq<u8> {
    match m {
        None => seq![0u8],
        Some(c) => seq![1u8] + spec_enc_monitor_config(c),
    }
}

pub open spec fn spec_dec_opt_monitor_config(bytes: Seq<u8>, pos: int) -> Option<
    (Option<MonitorConfigV>, int),
> {
    if 0 <= pos && pos + 1 <= bytes.len() {
        if bytes[pos] == 0u8 {
            Some((None, pos + 1))
        } else if bytes[pos] == 1u8 {
            match spec_dec_monitor_config(bytes, pos + 1) {
                None => None,
                Some((c, p1)) => Some((Some(c), p1)),
            }
        } else {
            None
        }
    } else {
        None
    }
}

pub fn enc_opt_monitor_config(out: &mut Vec<u8>, m: &Option<MonitorConfig>)
    ensures
        final(out)@ == old(out)@ + spec_enc_opt_monitor_config(
            match m {
                Some(c) => Some(c@),
                None => None,
            },
        ),
{
    match m {
        None => {
            out.push(0u8);
        },
        Some(c) => {
            out.push(1u8);
            enc_monitor_config(out, c);
        },
    }
    assert(final(out)@ =~= old(out)@ + spec_enc_opt_monitor_config(
        match m {
            Some(c) => Some(c@),
            None => None,
        },
    ));
}

pub fn dec_opt_monitor_config(buf: &[u8], pos: usize) -> (r: Option<
    (Option<MonitorConfig>, usize),
>)
    ensures
        match r {
            Some((v, end)) => spec_dec_opt_monitor_config(buf@, pos as int) == Some(
                (
                    match v {
                        Some(c) => Some(c@),
                        None => None,
                    },
                    end as int,
                ),
            ),
            None => spec_dec_opt_monitor_config(buf@, pos as int) is None,
        },
{
    if pos >= buf.len() {
        return None;
    }
    let b = buf[pos];
    if b == 0 {
        Some((None, pos + 1))
    } else if b == 1 {
        match dec_monitor_config(buf, pos + 1) {
            None => None,
            Some((c, p1)) => Some((Some(c), p1)),
        }
    } else {
        None
    }
}

pub proof fn lemma_dec_enc_opt_monitor_config(bytes: Seq<u8>, pos: int, m: Option<MonitorConfigV>)
    requires
        0 <= pos,
        m matches Some(c) ==> monitor_config_wf(c),
        pos + spec_enc_opt_monitor_config(m).len() <= bytes.len(),
        bytes.subrange(pos, pos + spec_enc_opt_monitor_config(m).len())
            == spec_enc_opt_monitor_config(m),
    ensures
        spec_dec_opt_monitor_config(bytes, pos) == Some(
            (m, pos + spec_enc_opt_monitor_config(m).len()),
        ),
{
    match m {
        None => {
            assert(bytes[pos] == bytes.subrange(pos, pos + 1)[0]);
        },
        Some(c) => {
            let e1 = seq![1u8];
            let e2 = spec_enc_monitor_config(c);
            lemma_split2(bytes, pos, e1, e2);
            assert(bytes[pos] == bytes.subrange(pos, pos + 1)[0]);
            lemma_dec_enc_monitor_config(bytes, pos + 1, c);
        },
    }
}

} // verus!

verus! {

pub proof fn lemma_split3(bytes: Seq<u8>, pos: int, a: Seq<u8>, b: Seq<u8>, c: Seq<u8>)
    requires
        0 <= pos,
        pos + a.len() + b.len() + c.len() <= bytes.len(),
        bytes.subrange(pos, pos + a.len() + b.len() + c.len()) == a + b + c,
    ensures
        bytes.subrange(pos, pos + a.len()) == a,
        bytes.subrange(pos + a.len(), pos + a.len() + b.len()) == b,
        bytes.subrange(pos + a.len() + b.len(), pos + a.len() + b.len() + c.len()) == c,
{
    assert(a + b + c =~= a + (b + c));
    lemma_split2(bytes, pos, a, b + c);
    lemma_split2(bytes, pos + a.len(), b, c);
}

pub proof fn lemma_split4(bytes: Seq<u8>, pos: int, a: Seq<u8>, b: Seq<u8>, c: Seq<u8>, d: Seq<u8>)
    requires
        0 <= pos,
        pos + a.len() + b.len() + c.len() + d.len() <= bytes.len(),
        bytes.subrange(pos, pos + a.len() + b.len() + c.len() + d.len()) == a + b + c + d,
    ensures
        bytes.subrange(pos, pos + a.len()) == a,
        bytes.subrange(pos + a.len(), pos + a.len() + b.len()) == b,
        bytes.subrange(pos + a.len() + b.len(), pos + a.len() + b.len() + c.len()) == c,
        bytes.subrange(
            pos + a.len() + b.len() + c.len(),
            pos + a.len() + b.len() + c.len() + d.len(),
        ) == d,
{
    assert(a + b + c + d =~= a + (b + c + d));
    lemma_split2(bytes, pos, a, b + c + d);
    lemma_split3(bytes, pos + a.len(), b, c, d);
}

// === StartJobCommand ======================================================

pub open spec fn spec_enc_start_cmd(c: StartJobCommandV) -> Seq<u8> {
    spec_enc_str(c.url) + spec_enc_str(c.save_path) + spec_enc_proxy(c.proxy_usage)
        + spec_enc_opt_monitor_config(c.monitor)
}

pub open spec fn spec_dec_start_cmd(bytes: Seq<u8>, pos: int) -> Option<(StartJobCommandV, int)> {
    match spec_dec_str(bytes, pos) {
        None => None,
        Some((url, p1)) => match spec_dec_str(bytes, p1) {
            None => None,
            Some((save_path, p2)) => match spec_dec_proxy(bytes, p2) {
                None => None,
                Some((proxy_usage, p3)) => match spec_dec_opt_monitor_config(bytes, p3) {
                    None => None,
                    Some((monitor, p4)) => Some(
                        (StartJobCommandV { url, save_path, proxy_usage, monitor }, p4),
                    ),
                },
            },
        },
    }
}

pub open spec fn start_cmd_wf(c: StartJobCommandV) -> bool {
    &&& str_fits(c.url)
    &&& str_fits(c.save_path)
    &&& (c.monitor matches Some(m) ==> monitor_config_wf(m))
}

pub fn enc_start_cmd(out: &mut Vec<u8>, c: &StartJobCommand)
    ensures
        final(out)@ == old(out)@ + spec_enc_start_cmd(c@),
{
    enc_str(out, c.url.as_str());
    enc_str(out, c.save_path.as_str());
    enc_proxy(out, c.proxy_usage);
    enc_opt_monitor_config(out, &c.monitor);
    assert(final(out)@ =~= old(out)@ + spec_enc_start_cmd(c@));
}

pub fn dec_start_cmd(buf: &[u8], pos: usize) -> (r: Option<(StartJobCommand, usize)>)
    ensures
        match r {
            Some((v, end)) => spec_dec_start_cmd(buf@, pos as int) == Some((v@, end as int)),
            None => spec_dec_start_cmd(buf@, pos as int) is None,
        },
{
    match dec_str(buf, pos) {
        None => None,
        Some((url, p1)) => match dec_str(buf, p1) {
            None => None,
            Some((save_path, p2)) => match dec_proxy(buf, p2) {
                None => None,
                Some((proxy_usage, p3)) => match dec_opt_monitor_config(buf, p3) {
                    None => None,
                    Some((monitor, p4)) => Some(
                        (StartJobCommand { url, save_path, proxy_usage, monitor }, p4),
                    ),
                },
            },
        },
    }
}

pub proof fn lemma_dec_enc_start_cmd(bytes: Seq<u8>, pos: int, c: StartJobCommandV)
    requires
        0 <= pos,
        start_cmd_wf(c),
        pos + spec_enc_start_cmd(c).len() <= bytes.len(),
        bytes.subrange(pos, pos + spec_enc_start_cmd(c).len()) == spec_enc_start_cmd(c),
    ensures
        spec_dec_start_cmd(bytes, pos) == Some((c, pos + spec_enc_start_cmd(c).len())),
{
    let e1 = spec_enc_str(c.url);
    let e2 = spec_enc_str(c.save_path);
    let e3 = spec_enc_proxy(c.proxy_usage);
    let e4 = spec_enc_opt_monitor_config(c.monitor);
    lemma_enc_str_len(c.url);
    lemma_enc_str_len(c.save_path);
    lemma_split4(bytes, pos, e1, e2, e3, e4);
    lemma_dec_enc_str(bytes, pos, c.url);
    lemma_dec_enc_str(bytes, pos + e1.len(), c.save_path);
    lemma_dec_enc_proxy(bytes, pos + e1.len() + e2.len(), c.proxy_usage);
    lemma_dec_enc_opt_monitor_config(bytes, pos + e1.len() + e2.len() + e3.len(), c.monitor);
}

// === MonitorJobCommand ====================================================

pub open spec fn spec_enc_monitor_cmd(c: MonitorJobCommandV) -> Seq<u8> {
    spec_enc_guid(c.guid) + spec_enc_monitor_config(c.monitor)
}

pub open spec fn spec_dec_monitor_cmd(bytes: Seq<u8>, pos: int) -> Option<
    (MonitorJobCommandV, int),
> {
    match spec_dec_guid(bytes, pos) {
        None => None,
        Some((guid, p1)) => match spec_dec_monitor_config(bytes, p1) {
            None => None,
            Some((monitor, p2)) => Some((MonitorJobCommandV { guid, monitor }, p2)),
        },
    }
}

pub fn enc_monitor_cmd(out: &mut Vec<u8>, c: &MonitorJobCommand)
    ensures
        final(out)@ == old(out)@ + spec_enc_monitor_cmd(c@),
{
    enc_guid(out, &c.guid);
    enc_monitor_config(out, &c.monitor);
    assert(final(out)@ =~= old(out)@ + spec_enc_monitor_cmd(c@));
}

pub fn dec_monitor_cmd(buf: &[u8], pos: usize) -> (r: Option<(MonitorJobCommand, usize)>)
    ensures
        match r {
            Some((v, end)) => spec_dec_monitor_cmd(buf@, pos as int) == Some((v@, end as int)),
            None => spec_dec_monitor_cmd(buf@, pos as int) is None,
        },
{
    match dec_guid(buf, pos) {
        None => None,
        Some((guid, p1)) => match dec_monitor_config(buf, p1) {
            None => None,
            Some((monitor, p2)) => Some((MonitorJobCommand { guid, monitor }, p2)),
        },
    }
}

pub proof fn lemma_dec_enc_monitor_cmd(bytes: Seq<u8>, pos: int, c: MonitorJobCommandV)
    requires
        0 <= pos,
        monitor_config_wf(c.monitor),
        pos + spec_enc_monitor_cmd(c).len() <= bytes.len(),
        bytes.subrange(pos, pos + spec_enc_monitor_cmd(c).len()) == spec_enc_monitor_cmd(c),
    ensures
        spec_dec_monitor_cmd(bytes, pos) == Some((c, pos + spec_enc_monitor_cmd(c).len())),
{
    let e1 = spec_enc_guid(c.guid);
    let e2 = spec_enc_monitor_config(c.monitor);
    lemma_enc_guid_len(c.guid);
    lemma_split2(bytes, pos, e1, e2);
    lemma_dec_enc_guid(bytes, pos, c.guid);
    lemma_dec_enc_monitor_config(bytes, pos + 16, c.monitor);
}

// === Guid-only commands ===================================================

pub open spec fn spec_enc_suspend_cmd(c: SuspendJobCommand) -> Seq<u8> {
    spec_enc_guid(c.guid)
}

pub open spec fn spec_dec_suspend_cmd(bytes: Seq<u8>, pos: int) -> Option<
    (SuspendJobCommand, int),
> {
    match spec_dec_guid(bytes, pos) {
        None => None,
        Some((guid, p1)) => Some((SuspendJobCommand { guid }, p1)),
    }
}

pub fn enc_suspend_cmd(out: &mut Vec<u8>, c: &SuspendJobCommand)
    ensures
        final(out)@ == old(out)@ + spec_enc_suspend_cmd(*c),
{
    enc_guid(out, &c.guid);
}

pub fn dec_suspend_cmd(buf: &[u8], pos: usize) -> (r: Option<(SuspendJobCommand, usize)>)
    ensures
        match r {
            Some((v, end)) => spec_dec_suspend_cmd(buf@, pos as int) == Some((v, end as int)),
            None => spec_dec_suspend_cmd(buf@, pos as int) is None,
        },
{
    match dec_guid(buf, pos) {
        None => None,
        Some((guid, p1)) => Some((SuspendJobCommand { guid }, p1)),
    }
}

pub proof fn lemma_dec_enc_suspend_cmd(bytes: Seq<u8>, pos: int, c: SuspendJobCommand)
    requires
        0 <= pos,
        pos + spec_enc_suspend_cmd(c).len() <= bytes.len(),
        bytes.subrange(pos, pos + spec_enc_suspend_cmd(c).len()) == spec_enc_suspend_cmd(c),
    ensures
        spec_dec_suspend_cmd(bytes, pos) == Some((c, pos + spec_enc_suspend_cmd(c).len())),
{
    lemma_enc_guid_len(c.guid);
    lemma_dec_enc_guid(bytes, pos, c.guid);
}

pub open spec fn spec_enc_resume_cmd(c: ResumeJobCommand) -> Seq<u8> {
    spec_enc_guid(c.guid)
}

pub open spec fn spec_dec_resume_cmd(bytes: Seq<u8>, pos: int) -> Option<(ResumeJobCommand, int)> {
    match spec_dec_guid(bytes, pos) {
        None => None,
        Some((guid, p1)) => Some((ResumeJobCommand { guid }, p1)),
    }
}

pub fn enc_resume_cmd(out: &mut Vec<u8>, c: &ResumeJobCommand)
    ensures
        final(out)@ == old(out)@ + spec_enc_resume_cmd(*c),
{
    enc_guid(out, &c.guid);
}

pub fn dec_resume_cmd(buf: &[u8], pos: usize) -> (r: Option<(ResumeJobCommand, usize)>)
    ensures
        match r {
            Some((v, end)) => spec_dec_resume_cmd(buf@, pos as int) == Some((v, end as int)),
            None => spec_dec_resume_cmd(buf@, pos as int) is None,
        },
{
    match dec_guid(buf, pos) {
        None => None,
        Some((guid, p1)) => Some((ResumeJobCommand { guid }, p1)),
    }
}

pub proof fn lemma_dec_enc_resume_cmd(bytes: Seq<u8>, pos: int, c: ResumeJobCommand)
    requires
        0 <= pos,
        pos + spec_enc_resume_cmd(c).len() <= bytes.len(),
        bytes.subrange(pos, pos + spec_enc_resume_cmd(c).len()) == spec_enc_resume_cmd(c),
    ensures
        spec_dec_resume_cmd(bytes, pos) == Some((c, pos + spec_enc_resume_cmd(c).len())),
{
    lemma_enc_guid_len(c.guid);
    lemma_dec_enc_guid(bytes, pos, c.guid);
}

pub open spec fn spec_enc_complete_cmd(c: CompleteJobCommand) -> Seq<u8> {
    spec_enc_guid(c.guid)
}

pub open spec fn spec_dec_complete_cmd(bytes: Seq<u8>, pos: int) -> Option<
    (CompleteJobCommand, int),
> {
    match spec_dec_guid(bytes, pos) {
        None => None,
        Some((guid, p1)) => Some((CompleteJobCommand { guid }, p1)),
    }
}

pub fn enc_complete_cmd(out: &mut Vec<u8>, c: &CompleteJobCommand)
    ensures
        final(out)@ == old(out)@ + spec_enc_complete_cmd(*c),
{
    enc_guid(out, &c.guid);
}

pub fn dec_complete_cmd(buf: &[u8], pos: usize) -> (r: Option<(CompleteJobCommand, usize)>)
    ensures
        match r {
            Some((v, end)) => spec_dec_complete_cmd(buf@, pos as int) == Some((v, end as int)),
            None => spec_dec_complete_cmd(buf@, pos as int) is None,
        },
{
    match dec_guid(buf, pos) {
        None => None,
        Some((guid, p1)) => Some((CompleteJobCommand { guid }, p1)),
    }
}

pub proof fn lemma_dec_enc_complete_cmd(bytes: Seq<u8>, pos: int, c: CompleteJobCommand)
    requires
        0 <= pos,
        pos + spec_enc_complete_cmd(c).len() <= bytes.len(),
        bytes.subrange(pos, pos + spec_enc_complete_cmd(c).len()) == spec_enc_complete_cmd(c),
    ensures
        spec_dec_complete_cmd(bytes, pos) == Some((c, pos + spec_enc_complete_cmd(c).len())),
{
    lemma_enc_guid_len(c.guid);
    lemma_dec_enc_guid(bytes, pos, c.guid);
}

pub open spec fn spec_enc_cancel_cmd(c: CancelJobCommand) -> Seq<u8> {
    spec_enc_guid(c.guid)
}

pub open spec fn spec_dec_cancel_cmd(bytes: Seq<u8>, pos: int) -> Option<(CancelJobCommand, int)> {
    match spec_dec_guid(bytes, pos) {
        None => None,
        Some((guid, p1)) => Some((CancelJobCommand { guid }, p1)),
    }
}

pub fn enc_cancel_cmd(out: &mut Vec<u8>, c: &CancelJobCommand)
    ensures
        final(out)@ == old(out)@ + spec_enc_cancel_cmd(*c),
{
    enc_guid(out, &c.guid);
}

pub fn dec_cancel_cmd(buf: &[u8], pos: usize) -> (r: Option<(CancelJobCommand, usize)>)
    ensures
        match r {
            Some((v, end)) => spec_dec_cancel_cmd(buf@, pos as int) == Some((v, end as int)),
            None => spec_dec_cancel_cmd(buf@, pos as int) is None,
        },
{
    match dec_guid(buf, pos) {
        None => None,
        Some((guid, p1)) => Some((CancelJobCommand { guid }, p1)),
    }
}

pub proof fn lemma_dec_enc_cancel_cmd(bytes: Seq<u8>, pos: int, c: CancelJobCommand)
    requires
        0 <= pos,
        pos + spec_enc_cancel_cmd(c).len() <= bytes.len(),
        bytes.subrange(pos, pos + spec_enc_cancel_cmd(c).len()) == spec_enc_cancel_cmd(c),
    ensures
        spec_dec_cancel_cmd(bytes, pos) == Some((c, pos + spec_enc_cancel_cmd(c).len())),
{
    lemma_enc_guid_len(c.guid);
    lemma_dec_enc_guid(bytes, pos, c.guid);
}

// === SetJobPriorityCommand ================================================

pub open spec fn spec_enc_set_priority_cmd(c: SetJobPriorityCommand) -> Seq<u8> {
    spec_enc_guid(c.guid) + spec_enc_bool(c.foreground)
}

pub open spec fn spec_dec_set_priority_cmd(bytes: Seq<u8>, pos: int) -> Option<
    (SetJobPriorityCommand, int),
> {
    match spec_dec_guid(bytes, pos) {
        None => None,
        Some((guid, p1)) => match spec_dec_bool(bytes, p1) {
            None => None,
            Some((foreground, p2)) => Some((SetJobPriorityCommand { guid, foreground }, p2)),
        },
    }
}

pub fn enc_set_priority_cmd(out: &mut Vec<u8>, c: &SetJobPriorityCommand)
    ensures
        final(out)@ == old(out)@ + spec_enc_set_priority_cmd(*c),
{
    enc_guid(out, &c.guid);
    enc_bool(out, c.foreground);
    assert(final(out)@ =~= old(out)@ + spec_enc_set_priority_cmd(*c));
}

pub fn dec_set_priority_cmd(buf: &[u8], pos: usize) -> (r: Option<(SetJobPriorityCommand, usize)>)
    ensures
        match r {
            Some((v, end)) => spec_dec_set_priority_cmd(buf@, pos as int) == Some(
                (v, end as int),
            ),
            None => spec_dec_set_priority_cmd(buf@, pos as int) is None,
        },
{
    match dec_guid(buf, pos) {
        None => None,
        Some((guid, p1)) => match dec_bool(buf, p1) {
            None => None,
            Some((foreground, p2)) => Some((SetJobPriorityCommand { guid, foreground }, p2)),
        },
    }
}

pub proof fn lemma_dec_enc_set_priority_cmd(bytes: Seq<u8>, pos: int, c: SetJobPriorityCommand)
    requires
        0 <= pos,
        pos + spec_enc_set_priority_cmd(c).len() <= bytes.len(),
        bytes.subrange(pos, pos + spec_enc_set_priority_cmd(c).len()) == spec_enc_set_priority_cmd(
            c,
        ),
    ensures
        spec_dec_set_priority_cmd(bytes, pos) == Some(
            (c, pos + spec_enc_set_priority_cmd(c).len()),
        ),
{
    let e1 = spec_enc_guid(c.guid);
    let e2 = spec_enc_bool(c.foreground);
    lemma_enc_guid_len(c.guid);
    lemma_split2(bytes, pos, e1, e2);
    lemma_dec_enc_guid(bytes, pos, c.guid);
    lemma_dec_enc_bool(bytes, pos + 16, c.foreground);
}

// === SetUpdateIntervalCommand =============================================

pub open spec fn spec_enc_set_interval_cmd(c: SetUpdateIntervalCommand) -> Seq<u8> {
    spec_enc_guid(c.guid) + spec_enc_u32(c.interval_millis)
}

pub open spec fn spec_dec_set_interval_cmd(bytes: Seq<u8>, pos: int) -> Option<
    (SetUpdateIntervalCommand, int),
> {
    match spec_dec_guid(bytes, pos) {
        None => None,
        Some((guid, p1)) => match spec_dec_u32(bytes, p1) {
            None => None,
            Some((interval_millis, p2)) => Some(
                (SetUpdateIntervalCommand { guid, interval_millis }, p2),
            ),
        },
    }
}

pub fn enc_set_interval_cmd(out: &mut Vec<u8>, c: &SetUpdateIntervalCommand)
    ensures
        final(out)@ == old(out)@ + spec_enc_set_interval_cmd(*c),
{
    enc_guid(out, &c.guid);
    enc_u32(out, c.interval_millis);
    assert(final(out)@ =~= old(out)@ + spec_enc_set_interval_cmd(*c));
}

pub fn dec_set_interval_cmd(buf: &[u8], pos: usize) -> (r: Option<
    (SetUpdateIntervalCommand, usize),
>)
    ensures
        match r {
            Some((v, end)) => spec_dec_set_interval_cmd(buf@, pos as int) == Some(
                (v, end as int),
            ),
            None => spec_dec_set_interval_cmd(buf@, pos as int) is None,
        },
{
    match dec_guid(buf, pos) {
        None => None,
        Some((guid, p1)) => match dec_u32(buf, p1) {
            None => None,
            Some((interval_millis, p2)) => Some(
                (SetUpdateIntervalCommand { guid, interval_millis }, p2),
            ),
        },
    }
}

pub proof fn lemma_dec_enc_set_interval_cmd(bytes: Seq<u8>, pos: int, c: SetUpdateIntervalCommand)
    requires
        0 <= pos,
        pos + spec_enc_set_interval_cmd(c).len() <= bytes.len(),
        bytes.subrange(pos, pos + spec_enc_set_interval_cmd(c).len()) == spec_enc_set_interval_cmd(
            c,
        ),
    ensures
        spec_dec_set_interval_cmd(bytes, pos) == Some(
            (c, pos + spec_enc_set_interval_cmd(c).len()),
        ),
{
    let e1 = spec_enc_guid(c.guid);
    let e2 = spec_enc_u32(c.interval_millis);
    lemma_enc_guid_len(c.guid);
    lemma_enc_u32_len(c.interval_millis);
    lemma_split2(bytes, pos, e1, e2);
    lemma_dec_enc_guid(bytes, pos, c.guid);
    lemma_dec_enc_u32(bytes, pos + 16, c.interval_millis);
}

// === Command ==============================================================

pub open spec fn spec_enc_command(c: CommandV) -> Seq<u8> {
    match c {
        CommandV::StartJob(x) => seq![0u8] + spec_enc_start_cmd(x),
        CommandV::MonitorJob(x) => seq![1u8] + spec_enc_monitor_cmd(x),
        CommandV::SuspendJob(x) => seq![2u8] + spec_enc_suspend_cmd(x),
        CommandV::ResumeJob(x) => seq![3u8] + spec_enc_resume_cmd(x),
        CommandV::SetJobPriority(x) => seq![4u8] + spec_enc_set_priority_cmd(x),
        CommandV::SetUpdateInterval(x) => seq![5u8] + spec_enc_set_interval_cmd(x),
        CommandV::CompleteJob(x) => seq![6u8] + spec_enc_complete_cmd(x),
        CommandV::CancelJob(x) => seq![7u8] + spec_enc_cancel_cmd(x),
    }
}

pub open spec fn spec_dec_command(bytes: Seq<u8>, pos: int) -> Option<(CommandV, int)> {
    if 0 <= pos && pos + 1 <= bytes.len() {
        let tag = bytes[pos];
        if tag == 0u8 {
            match spec_dec_start_cmd(bytes, pos + 1) {
                None => None,
                Some((x, p1)) => Some((CommandV::StartJob(x), p1)),
            }
        } else if tag == 1u8 {
            match spec_dec_monitor_cmd(bytes, pos + 1) {
                None => None,
                Some((x, p1)) => Some((CommandV::MonitorJob(x), p1)),
            }
        } else if tag == 2u8 {
            match spec_dec_suspend_cmd(bytes, pos + 1) {
                None => None,
                Some((x, p1)) => Some((CommandV::SuspendJob(x), p1)),
            }
        } else if tag == 3u8 {
            match spec_dec_resume_cmd(bytes, pos + 1) {
                None => None,
                Some((x, p1)) => Some((CommandV::ResumeJob(x), p1)),
            }
        } else if tag == 4u8 {
            match spec_dec_set_priority_cmd(bytes, pos + 1) {
                None => None,
                Some((x, p1)) => Some((CommandV::SetJobPriority(x), p1)),
            }
        } else if tag == 5u8 {
            match spec_dec_set_interval_cmd(bytes, pos + 1) {
                None => None,
                Some((x, p1)) => Some((CommandV::SetUpdateInterval(x), p1)),
            }
        } else if tag == 6u8 {
            match spec_dec_complete_cmd(bytes, pos + 1) {
                None => None,
                Some((x, p1)) => Some((CommandV::CompleteJob(x), p1)),
            }
        } else if tag == 7u8 {
            match spec_dec_cancel_cmd(bytes, pos + 1) {
                None => None,
                Some((x, p1)) => Some((CommandV::CancelJob(x), p1)),
            }
        } else {
            None
        }
    } else {
        None
    }
}

/// Every string in the command fits the wire format's length fields.
/// Holds of every command an executable caller can build.
pub open spec fn command_wf(c: CommandV) -> bool {
    match c {
        CommandV::StartJob(x) => start_cmd_wf(x),
        CommandV::MonitorJob(x) => monitor_config_wf(x.monitor),
        _ => true,
    }
}

pub fn enc_command(out: &mut Vec<u8>, c: &Command)
    ensures
        final(out)@ == old(out)@ + spec_enc_command(c@),
{
    match c {
        Command::StartJob(x) => {
            out.push(0u8);
            enc_start_cmd(out, x);
        },
        Command::MonitorJob(x) => {
            out.push(1u8);
            enc_monitor_cmd(out, x);
        },
        Command::SuspendJob(x) => {
            out.push(2u8);
            enc_suspend_cmd(out, x);
        },
        Command::ResumeJob(x) => {
            out.push(3u8);
            enc_resume_cmd(out, x);
        },
        Command::SetJobPriority(x) => {
            out.push(4u8);
            enc_set_priority_cmd(out, x);
        },
        Command::SetUpdateInterval(x) => {
            out.push(5u8);
            enc_set_interval_cmd(out, x);
        },
        Command::CompleteJob(x) => {
            out.push(6u8);
            enc_complete_cmd(out, x);
        },
        Command::CancelJob(x) => {
            out.push(7u8);
            enc_cancel_cmd(out, x);
        },
    }
    assert(final(out)@ =~= old(out)@ + spec_enc_command(c@));
}

pub fn dec_command(buf: &[u8], pos: usize) -> (r: Option<(Command, usize)>)
    ensures
        match r {
            Some((v, end)) => spec_dec_command(buf@, pos as int) == Some((v@, end as int)),
            None => spec_dec_command(buf@, pos as int) is None,
        },
{
    if pos >= buf.len() {
        return None;
    }
    let tag = buf[pos];
    if tag == 0 {
        match dec_start_cmd(buf, pos + 1) {
            None => None,
            Some((x, p1)) => Some((Command::StartJob(x), p1)),
        }
    } else if tag == 1 {
        match dec_monitor_cmd(buf, pos + 1) {
            None => None,
            Some((x, p1)) => Some((Command::MonitorJob(x), p1)),
        }
    } else if tag == 2 {
        match dec_suspend_cmd(buf, pos + 1) {
            None => None,
            Some((x, p1)) => Some((Command::SuspendJob(x), p1)),
        }
    } else if tag == 3 {
        match dec_resume_cmd(buf, pos + 1) {
            None => None,
            Some((x, p1)) => Some((Command::ResumeJob(x), p1)),
        }
    } else if tag == 4 {
        match dec_set_priority_cmd(buf, pos + 1) {
            None => None,
            Some((x, p1)) => Some((Command::SetJobPriority(x), p1)),
        }
    } else if tag == 5 {
        match dec_set_interval_cmd(buf, pos + 1) {
            None => None,
            Some((x, p1)) => Some((Command::SetUpdateInterval(x), p1)),
        }
    } else if tag == 6 {
        match dec_complete_cmd(buf, pos + 1) {
            None => None,
            Some((x, p1)) => Some((Command::CompleteJob(x), p1)),
        }
    } else if tag == 7 {
        match dec_cancel_cmd(buf, pos + 1) {
            None => None,
            Some((x, p1)) => Some((Command::CancelJob(x), p1)),
        }
    } else {
        None
    }
}

pub proof fn lemma_dec_enc_command(bytes: Seq<u8>, pos: int, c: CommandV)
    requires
        0 <= pos,
        command_wf(c),
        pos + spec_enc_command(c).len() <= bytes.len(),
        bytes.subrange(pos, pos + spec_enc_command(c).len()) == spec_enc_command(c),
    ensures
        spec_dec_command(bytes, pos) == Some((c, pos + spec_enc_command(c).len())),
{
    match c {
        CommandV::StartJob(x) => {
            lemma_split2(bytes, pos, seq![0u8], spec_enc_start_cmd(x));
            assert(bytes[pos] == bytes.subrange(pos, pos + 1)[0]);
            lemma_dec_enc_start_cmd(bytes, pos + 1, x);
        },
        CommandV::MonitorJob(x) => {
            lemma_split2(bytes, pos, seq![1u8], spec_enc_monitor_cmd(x));
            assert(bytes[pos] == bytes.subrange(pos, pos + 1)[0]);
            lemma_dec_enc_monitor_cmd(bytes, pos + 1, x);
        },
        CommandV::SuspendJob(x) => {
            lemma_split2(bytes, pos, seq![2u8], spec_enc_suspend_cmd(x));
            assert(bytes[pos] == bytes.subrange(pos, pos + 1)[0]);
            lemma_dec_enc_suspend_cmd(bytes, pos + 1, x);
        },
        CommandV::ResumeJob(x) => {
            lemma_split2(bytes, pos, seq![3u8], spec_enc_resume_cmd(x));
            assert(bytes[pos] == bytes.subrange(pos, pos + 1)[0]);
            lemma_dec_enc_resume_cmd(bytes, pos + 1, x);
        },
        CommandV::SetJobPriority(x) => {
            lemma_split2(bytes, pos, seq![4u8], spec_enc_set_priority_cmd(x));
            assert(bytes[pos] == bytes.subrange(pos, pos + 1)[0]);
            lemma_dec_enc_set_priority_cmd(bytes, pos + 1, x);
        },
        CommandV::SetUpdateInterval(x) => {
            lemma_split2(bytes, pos, seq![5u8], spec_enc_set_interval_cmd(x));
            assert(bytes[pos] == bytes.subrange(pos, pos + 1)[0]);
            lemma_dec_enc_set_interval_cmd(bytes, pos + 1, x);
        },
        CommandV::CompleteJob(x) => {
            lemma_split2(bytes, pos, seq![6u8], spec_enc_complete_cmd(x));
            assert(bytes[pos] == bytes.subrange(pos, pos + 1)[0]);
            lemma_dec_enc_complete_cmd(bytes, pos + 1, x);
        },
        CommandV::CancelJob(x) => {
            lemma_split2(bytes, pos, seq![7u8], spec_enc_cancel_cmd(x));
            assert(bytes[pos] == bytes.subrange(pos, pos + 1)[0]);
            lemma_dec_enc_cancel_cmd(bytes, pos + 1, x);
        },
    }
}

} // verus!

// === Failure payloads =====================================================

use crate::protocol::{
    CancelJobFailure, CancelJobFailureV, CompleteJobFailure, CompleteJobFailureV,
    MonitorJobFailure, MonitorJobFailureV, ResumeJobFailure, ResumeJobFailureV,
    SetJobPriorityFailure, SetJobPriorityFailureV, SetUpdateIntervalFailure,
    SetUpdateIntervalFailureV, StartJobFailure, StartJobFailureV, StartJobSuccess,
    SuspendJobFailure, SuspendJobFailureV,
};

verus! {

pub open spec fn spec_enc_start_failure(f: StartJobFailureV) -> Seq<u8> {
    match f {
        StartJobFailureV::ArgumentValidation(s) => seq![0u8] + spec_enc_str(s),
        StartJobFailureV::Create(m) => seq![1u8] + spec_enc_hrm(m),
        StartJobFailureV::AddFile(m) => seq![2u8] + spec_enc_hrm(m),
        StartJobFailureV::ApplySettings(m) => seq![3u8] + spec_enc_hrm(m),
        StartJobFailureV::Resume(m) => seq![4u8] + spec_enc_hrm(m),
        StartJobFailureV::OtherBITS(m) => seq![5u8] + spec_enc_hrm(m),
        StartJobFailureV::Other(s) => seq![6u8] + spec_enc_str(s),
    }
}

pub open spec fn spec_dec_start_failure(bytes: Seq<u8>, pos: int) -> Option<(StartJobFailureV, int)> {
    if 0 <= pos && pos + 1 <= bytes.len() {
        let tag = bytes[pos];
        if tag == 0u8 {
            match spec_dec_str(bytes, pos + 1) {
                None => None,
                Some((s, p1)) => Some((StartJobFailureV::ArgumentValidation(s), p1)),
            }
        } else if tag == 1u8 {
            match spec_dec_hrm(bytes, pos + 1) {
                None => None,
                Some((m, p1)) => Some((StartJobFailureV::Create(m), p1)),
            }
        } else if tag == 2u8 {
            match spec_dec_hrm(bytes, pos + 1) {
                None => None,
                Some((m, p1)) => Some((StartJobFailureV::AddFile(m), p1)),
            }
        } else if tag == 3u8 {
            match spec_dec_hrm(bytes, pos + 1) {
                None => None,
                Some((m, p1)) => Some((StartJobFailureV::ApplySettings(m), p1)),
            }
        } else if tag == 4u8 {
            match spec_dec_hrm(bytes, pos + 1) {
                None => None,
                Some((m, p1)) => Some((StartJobFailureV::Resume(m), p1)),
            }
        } else if tag == 5u8 {
            match spec_dec_hrm(bytes, pos + 1) {
                None => None,
                Some((m, p1)) => Some((StartJobFailureV::OtherBITS(m), p1)),
            }
        } else if tag == 6u8 {
            match spec_dec_str(bytes, pos + 1) {
                None => None,
                Some((s, p1)) => Some((StartJobFailureV::Other(s), p1)),
            }
        } else {
            None
        }
    } else {
        None
    }
}

pub open spec fn start_failure_wf(f: StartJobFailureV) -> bool {
    match f {
        StartJobFailureV::ArgumentValidation(s) => str_fits(s),
        StartJobFailureV::Create(m) => hrm_wf(m),
        StartJobFailureV::AddFile(m) => hrm_wf(m),
        StartJobFailureV::ApplySettings(m) => hrm_wf(m),
        StartJobFailureV::Resume(m) => hrm_wf(m),
        StartJobFailureV::OtherBITS(m) => hrm_wf(m),
        StartJobFailureV::Other(s) => str_fits(s),
    }
}

pub fn enc_start_failure(out: &mut Vec<u8>, f: &StartJobFailure)
    ensures
        final(out)@ == old(out)@ + spec_enc_start_failure(f@),
{
    match f {
        StartJobFailure::ArgumentValidation(s) => {
            out.push(0u8);
            enc_str(out, s.as_str());
        },
        StartJobFailure::Create(m) => {
            out.push(1u8);
            enc_hrm(out, m);
        },
        StartJobFailure::AddFile(m) => {
            out.push(2u8);
            enc_hrm(out, m);
        },
        StartJobFailure::ApplySettings(m) => {
            out.push(3u8);
            enc_hrm(out, m);
        },
        StartJobFailure::Resume(m) => {
            out.push(4u8);
            enc_hrm(out, m);
        },
        StartJobFailure::OtherBITS(m) => {
            out.push(5u8);
            enc_hrm(out, m);
        },
        StartJobFailure::Other(s) => {
            out.push(6u8);
            enc_str(out, s.as_str());
        },
    }
    assert(final(out)@ =~= old(out)@ + spec_enc_start_failure(f@));
}

pub fn dec_start_failure(buf: &[u8], pos: usize) -> (r: Option<(StartJobFailure, usize)>)
    ensures
        match r {
            Some((v, end)) => spec_dec_start_failure(buf@, pos as int) == Some((v@, end as int)),
            None => spec_dec_start_failure(buf@, pos as int) is None,
        },
{
    if pos >= buf.len() {
        return None;
    }
    let tag = buf[pos];
    if tag == 0 {
        match dec_str(buf, pos + 1) {
            None => None,
            Some((s, p1)) => Some((StartJobFailure::ArgumentValidation(s), p1)),
        }
    } else if tag == 1 {
        match dec_hrm(buf, pos + 1) {
            None => None,
            Some((m, p1)) => Some((StartJobFailure::Create(m), p1)),
        }
    } else if tag == 2 {
        match dec_hrm(buf, pos + 1) {
            None => None,
            Some((m, p1)) => Some((StartJobFailure::AddFile(m), p1)),
        }
    } else if tag == 3 {
        match dec_hrm(buf, pos + 1) {
            None => None,
            Some((m, p1)) => Some((StartJobFailure::ApplySettings(m), p1)),
        }
    } else if tag == 4 {
        match dec_hrm(buf, pos + 1) {
            None => None,
            Some((m, p1)) => Some((StartJobFailure::Resume(m), p1)),
        }
    } else if tag == 5 {
        match dec_hrm(buf, pos + 1) {
            None => None,
            Some((m, p1)) => Some((StartJobFailure::OtherBITS(m), p1)),
        }
    } else if tag == 6 {
        match dec_str(buf, pos + 1) {
            None => None,
            Some((s, p1)) => Some((StartJobFailure::Other(s), p1)),
        }
    } else {
        None
    }
}

pub proof fn lemma_dec_enc_start_failure(bytes: Seq<u8>, pos: int, f: StartJobFailureV)
    requires
        0 <= pos,
        start_failure_wf(f),
        pos + spec_enc_start_failure(f).len() <= bytes.len(),
        bytes.subrange(pos, pos + spec_enc_start_failure(f).len()) == spec_enc_start_failure(f),
    ensures
        spec_dec_start_failure(bytes, pos) == Some((f, pos + spec_enc_start_failure(f).len())),
{
    match f {
        StartJobFailureV::ArgumentValidation(s) => {
            lemma_split2(bytes, pos, seq![0u8], spec_enc_str(s));
            assert(bytes[pos] == bytes.subrange(pos, pos + 1)[0]);
            lemma_dec_enc_str(bytes, pos + 1, s);
        },
        StartJobFailureV::Create(m) => {
            lemma_split2(bytes, pos, seq![1u8], spec_enc_hrm(m));
            assert(bytes[pos] == bytes.subrange(pos, pos + 1)[0]);
            lemma_dec_enc_hrm(bytes, pos + 1, m);
        },
        StartJobFailureV::AddFile(m) => {
            lemma_split2(bytes, pos, seq![2u8], spec_enc_hrm(m));
            assert(bytes[pos] == bytes.subrange(pos, pos + 1)[0]);
            lemma_dec_enc_hrm(bytes, pos + 1, m);
        },
        StartJobFailureV::ApplySettings(m) => {
            lemma_split2(bytes, pos, seq![3u8], spec_enc_hrm(m));
            assert(bytes[pos] == bytes.subrange(pos, pos + 1)[0]);
            lemma_dec_enc_hrm(bytes, pos + 1, m);
        },
        StartJobFailureV::Resume(m) => {
            lemma_split2(bytes, pos, seq![4u8], spec_enc_hrm(m));
            assert(bytes[pos] == bytes.subrange(pos, pos + 1)[0]);
            lemma_dec_enc_hrm(bytes, pos + 1, m);
        },
        StartJobFailureV::OtherBITS(m) => {
            lemma_split2(bytes, pos, seq![5u8], spec_enc_hrm(m));
            assert(bytes[pos] == bytes.subrange(pos, pos + 1)[0]);
            lemma_dec_enc_hrm(bytes, pos + 1, m);
        },
        StartJobFailureV::Other(s) => {
            lemma_split2(bytes, pos, seq![6u8], spec_enc_str(s));
            assert(bytes[pos] == bytes.subrange(pos, pos + 1)[0]);
            lemma_dec_enc_str(bytes, pos + 1, s);
        },
    }
}

pub open spec fn spec_enc_monitor_failure(f: MonitorJobFailureV) -> Seq<u8> {
    match f {
        MonitorJobFailureV::ArgumentValidation(s) => seq![0u8] + spec_enc_str(s),
        MonitorJobFailureV::NotFound => seq![1u8],
        MonitorJobFailureV::GetJob(m) => seq![2u8] + spec_enc_hrm(m),
        MonitorJobFailureV::OtherBITS(m) => seq![3u8] + spec_enc_hrm(m),
        MonitorJobFailureV::Other(s) => seq![4u8] + spec_enc_str(s),
    }
}

pub open spec fn spec_dec_monitor_failure(bytes: Seq<u8>, pos: int) -> Option<(MonitorJobFailureV, int)> {
    if 0 <= pos && pos + 1 <= bytes.len() {
        let tag = bytes[pos];
        if tag == 0u8 {
            match spec_dec_str(bytes, pos + 1) {
                None => None,
                Some((s, p1)) => Some((MonitorJobFailureV::ArgumentValidation(s), p1)),
            }
        } else if tag == 1u8 {
            Some((MonitorJobFailureV::NotFound, pos + 1))
        } else if tag == 2u8 {
            match spec_dec_hrm(bytes, pos + 1) {
                None => None,
                Some((m, p1)) => Some((MonitorJobFailureV::GetJob(m), p1)),
            }
        } else if tag == 3u8 {
            match spec_dec_hrm(bytes, pos + 1) {
                None => None,
                Some((m, p1)) => Some((MonitorJobFailureV::OtherBITS(m), p1)),
            }
        } else if tag == 4u8 {
            match spec_dec_str(bytes, pos + 1) {
                None => None,
                Some((s, p1)) => Some((MonitorJobFailureV::Other(s), p1)),
            }
        } else {
            None
        }
    } else {
        None
    }
}

pub open spec fn monitor_failure_wf(f: MonitorJobFailureV) -> bool {
    match f {
        MonitorJobFailureV::ArgumentValidation(s) => str_fits(s),
        MonitorJobFailureV::NotFound => true,
        MonitorJobFailureV::GetJob(m) => hrm_wf(m),
        MonitorJobFailureV::OtherBITS(m) => hrm_wf(m),
        MonitorJobFailureV::Other(s) => str_fits(s),
    }
}

pub fn enc_monitor_failure(out: &mut Vec<u8>, f: &MonitorJobFailure)
    ensures
        final(out)@ == old(out)@ + spec_enc_monitor_failure(f@),
{
    match f {
        MonitorJobFailure::ArgumentValidation(s) => {
            out.push(0u8);
            enc_str(out, s.as_str());
        },
        MonitorJobFailure::NotFound => {
            out.push(1u8);
        },
        MonitorJobFailure::GetJob(m) => {
            out.push(2u8);
            enc_hrm(out, m);
        },
        MonitorJobFailure::OtherBITS(m) => {
            out.push(3u8);
            enc_hrm(out, m);
        },
        MonitorJobFailure::Other(s) => {
            out.push(4u8);
            enc_str(out, s.as_str());
        },
    }
    assert(final(out)@ =~= old(out)@ + spec_enc_monitor_failure(f@));
}

pub fn dec_monitor_failure(buf: &[u8], pos: usize) -> (r: Option<(MonitorJobFailure, usize)>)
    ensures
        match r {
            Some((v, end)) => spec_dec_monitor_failure(buf@, pos as int) == Some((v@, end as int)),
            None => spec_dec_monitor_failure(buf@, pos as int) is None,
        },
{
    if pos >= buf.len() {
        return None;
    }
    let tag = buf[pos];
    if tag == 0 {
        match dec_str(buf, pos + 1) {
            None => None,
            Some((s, p1)) => Some((MonitorJobFailure::ArgumentValidation(s), p1)),
        }
    } else if tag == 1 {
        Some((MonitorJobFailure::NotFound, pos + 1))
    } else if tag == 2 {
        match dec_hrm(buf, pos + 1) {
            None => None,
            Some((m, p1)) => Some((MonitorJobFailure::GetJob(m), p1)),
        }
    } else if tag == 3 {
        match dec_hrm(buf, pos + 1) {
            None => None,
            Some((m, p1)) => Some((MonitorJobFailure::OtherBITS(m), p1)),
        }
    } else if tag == 4 {
        match dec_str(buf, pos + 1) {
            None => None,
            Some((s, p1)) => Some((MonitorJobFailure::Other(s), p1)),
        }
    } else {
        None
    }
}

pub proof fn lemma_dec_enc_monitor_failure(bytes: Seq<u8>, pos: int, f: MonitorJobFailureV)
    requires
        0 <= pos,
        monitor_failure_wf(f),
        pos + spec_enc_monitor_failure(f).len() <= bytes.len(),
        bytes.subrange(pos, pos + spec_enc_monitor_failure(f).len()) == spec_enc_monitor_failure(f),
    ensures
        spec_dec_monitor_failure(bytes, pos) == Some((f, pos + spec_enc_monitor_failure(f).len())),
{
    match f {
        MonitorJobFailureV::ArgumentValidation(s) => {
            lemma_split2(bytes, pos, seq![0u8], spec_enc_str(s));
            assert(bytes[pos] == bytes.subrange(pos, pos + 1)[0]);
            lemma_dec_enc_str(bytes, pos + 1, s);
        },
        MonitorJobFailureV::NotFound => {
            assert(bytes[pos] == bytes.subrange(pos, pos + 1)[0]);
        },
        MonitorJobFailureV::GetJob(m) => {
            lemma_split2(bytes, pos, seq![2u8], spec_enc_hrm(m));
            assert(bytes[pos] == bytes.subrange(pos, pos + 1)[0]);
            lemma_dec_enc_hrm(bytes, pos + 1, m);
        },
        MonitorJobFailureV::OtherBITS(m) => {
            lemma_split2(bytes, pos, seq![3u8], spec_enc_hrm(m));
            assert(bytes[pos] == bytes.subrange(pos, pos + 1)[0]);
            lemma_dec_enc_hrm(bytes, pos + 1, m);
        },
        MonitorJobFailureV::Other(s) => {
            lemma_split2(bytes, pos, seq![4u8], spec_enc_str(s));
            assert(bytes[pos] == bytes.subrange(pos, pos + 1)[0]);
            lemma_dec_enc_str(bytes, pos + 1, s);
        },
    }
}

pub open spec fn spec_enc_suspend_failure(f: SuspendJobFailureV) -> Seq<u8> {
    match f {
        SuspendJobFailureV::NotFound => seq![0u8],
        SuspendJobFailureV::GetJob(m) => seq![1u8] + spec_enc_hrm(m),
        SuspendJobFailureV::SuspendJob(m) => seq![2u8] + spec_enc_hrm(m),
        SuspendJobFailureV::OtherBITS(m) => seq![3u8] + spec_enc_hrm(m),
        SuspendJobFailureV::Other(s) => seq![4u8] + spec_enc_str(s),
    }
}

pub open spec fn spec_dec_suspend_failure(bytes: Seq<u8>, pos: int) -> Option<(SuspendJobFailureV, int)> {
    if 0 <= pos && pos + 1 <= bytes.len() {
        let tag = bytes[pos];
        if tag == 0u8 {
            Some((SuspendJobFailureV::NotFound, pos + 1))
        } else if tag == 1u8 {
            match spec_dec_hrm(bytes, pos + 1) {
                None => None,
                Some((m, p1)) => Some((SuspendJobFailureV::GetJob(m), p1)),
            }
        } else if tag == 2u8 {
            match spec_dec_hrm(bytes, pos + 1) {
                None => None,
                Some((m, p1)) => Some((SuspendJobFailureV::SuspendJob(m), p1)),
            }
        } else if tag == 3u8 {
            match spec_dec_hrm(bytes, pos + 1) {
                None => None,
                Some((m, p1)) => Some((SuspendJobFailureV::OtherBITS(m), p1)),
            }
        } else if tag == 4u8 {
            match spec_dec_str(bytes, pos + 1) {
                None => None,
                Some((s, p1)) => Some((SuspendJobFailureV::Other(s), p1)),
            }
        } else {
            None
        }
    } else {
        None
    }
}

pub open spec fn suspend_failure_wf(f: SuspendJobFailureV) -> bool {
    match f {
        SuspendJobFailureV::NotFound => true,
        SuspendJobFailureV::GetJob(m) => hrm_wf(m),
        SuspendJobFailureV::SuspendJob(m) => hrm_wf(m),
        SuspendJobFailureV::OtherBITS(m) => hrm_wf(m),
        SuspendJobFailureV::Other(s) => str_fits(s),
    }
}

pub fn enc_suspend_failure(out: &mut Vec<u8>, f: &SuspendJobFailure)
    ensures
        final(out)@ == old(out)@ + spec_enc_suspend_failure(f@),
{
    match f {
        SuspendJobFailure::NotFound => {
            out.push(0u8);
        },
        SuspendJobFailure::GetJob(m) => {
            out.push(1u8);
            enc_hrm(out, m);
        },
        SuspendJobFailure::SuspendJob(m) => {
            out.push(2u8);
            enc_hrm(out, m);
        },
        SuspendJobFailure::OtherBITS(m) => {
            out.push(3u8);
            enc_hrm(out, m);
        },
        SuspendJobFailure::Other(s) => {
            out.push(4u8);
            enc_str(out, s.as_str());
        },
    }
    assert(final(out)@ =~= old(out)@ + spec_enc_suspend_failure(f@));
}

pub fn dec_suspend_failure(buf: &[u8], pos: usize) -> (r: Option<(SuspendJobFailure, usize)>)
    ensures
        match r {
            Some((v, end)) => spec_dec_suspend_failure(buf@, pos as int) == Some((v@, end as int)),
            None => spec_dec_suspend_failure(buf@, pos as int) is None,
        },
{
    if pos >= buf.len() {
        return None;
    }
    let tag = buf[pos];
    if tag == 0 {
        Some((SuspendJobFailure::NotFound, pos + 1))
    } else if tag == 1 {
        match dec_hrm(buf, pos + 1) {
            None => None,
            Some((m, p1)) => Some((SuspendJobFailure::GetJob(m), p1)),
        }
    } else if tag == 2 {
        match dec_hrm(buf, pos + 1) {
            None => None,
            Some((m, p1)) => Some((SuspendJobFailure::SuspendJob(m), p1)),
        }
    } else if tag == 3 {
        match dec_hrm(buf, pos + 1) {
            None => None,
            Some((m, p1)) => Some((SuspendJobFailure::OtherBITS(m), p1)),
        }
    } else if tag == 4 {
        match dec_str(buf, pos + 1) {
            None => None,
            Some((s, p1)) => Some((SuspendJobFailure::Other(s), p1)),
        }
    } else {
        None
    }
}

pub proof fn lemma_dec_enc_suspend_failure(bytes: Seq<u8>, pos: int, f: SuspendJobFailureV)
    requires
        0 <= pos,
        suspend_failure_wf(f),
        pos + spec_enc_suspend_failure(f).len() <= bytes.len(),
        bytes.subrange(pos, pos + spec_enc_suspend_failure(f).len()) == spec_enc_suspend_failure(f),
    ensures
        spec_dec_suspend_failure(bytes, pos) == Some((f, pos + spec_enc_suspend_failure(f).len())),
{
    match f {
        SuspendJobFailureV::NotFound => {
            assert(bytes[pos] == bytes.subrange(pos, pos + 1)[0]);
        },
        SuspendJobFailureV::GetJob(m) => {
            lemma_split2(bytes, pos, seq![1u8], spec_enc_hrm(m));
            assert(bytes[pos] == bytes.subrange(pos, pos + 1)[0]);
            lemma_dec_enc_hrm(bytes, pos + 1, m);
        },
        SuspendJobFailureV::SuspendJob(m) => {
            lemma_split2(bytes, pos, seq![2u8], spec_enc_hrm(m));
            assert(bytes[pos] == bytes.subrange(pos, pos + 1)[0]);
            lemma_dec_enc_hrm(bytes, pos + 1, m);
        },
        SuspendJobFailureV::OtherBITS(m) => {
            lemma_split2(bytes, pos, seq![3u8], spec_enc_hrm(m));
            assert(bytes[pos] == bytes.subrange(pos, pos + 1)[0]);
            lemma_dec_enc_hrm(bytes, pos + 1, m);
        },
        SuspendJobFailureV::Other(s) => {
            lemma_split2(bytes, pos, seq![4u8], spec_enc_str(s));
            assert(bytes[pos] == bytes.subrange(pos, pos + 1)[0]);
            lemma_dec_enc_str(bytes, pos + 1, s);
        },
    }
}

pub open spec fn spec_enc_resume_failure(f: ResumeJobFailureV) -> Seq<u8> {
    match f {
        ResumeJobFailureV::NotFound => seq![0u8],
        ResumeJobFailureV::GetJob(m) => seq![1u8] + spec_enc_hrm(m),
        ResumeJobFailureV::ResumeJob(m) => seq![2u8] + spec_enc_hrm(m),
        ResumeJobFailureV::OtherBITS(m) => seq![3u8] + spec_enc_hrm(m),
        ResumeJobFailureV::Other(s) => seq![4u8] + spec_enc_str(s),
    }
}

pub open spec fn spec_dec_resume_failure(bytes: Seq<u8>, pos: int) -> Option<(ResumeJobFailureV, int)> {
    if 0 <= pos && pos + 1 <= bytes.len() {
        let tag = bytes[pos];
        if tag == 0u8 {
            Some((ResumeJobFailureV::NotFound, pos + 1))
        } else if tag == 1u8 {
            match spec_dec_hrm(bytes, pos + 1) {
                None => None,
                Some((m, p1)) => Some((ResumeJobFailureV::GetJob(m), p1)),
            }
        } else if tag == 2u8 {
            match spec_dec_hrm(bytes, pos + 1) {
                None => None,
                Some((m, p1)) => Some((ResumeJobFailureV::ResumeJob(m), p1)),
            }
        } else if tag == 3u8 {
            match spec_dec_hrm(bytes, pos + 1) {
                None => None,
                Some((m, p1)) => Some((ResumeJobFailureV::OtherBITS(m), p1)),
            }
        } else if tag == 4u8 {
            match spec_dec_str(bytes, pos + 1) {
                None => None,
                Some((s, p1)) => Some((ResumeJobFailureV::Other(s), p1)),
            }
        } else {
            None
        }
    } else {
        None
    }
}

pub open spec fn resume_failure_wf(f: ResumeJobFailureV) -> bool {
    match f {
        ResumeJobFailureV::NotFound => true,
        ResumeJobFailureV::GetJob(m) => hrm_wf(m),
        ResumeJobFailureV::ResumeJob(m) => hrm_wf(m),
        ResumeJobFailureV::OtherBITS(m) => hrm_wf(m),
        ResumeJobFailureV::Other(s) => str_fits(s),
    }
}

pub fn enc_resume_failure(out: &mut Vec<u8>, f: &ResumeJobFailure)
    ensures
        final(out)@ == old(out)@ + spec_enc_resume_failure(f@),
{
    match f {
        ResumeJobFailure::NotFound => {
            out.push(0u8);
        },
        ResumeJobFailure::GetJob(m) => {
            out.push(1u8);
            enc_hrm(out, m);
        },
        ResumeJobFailure::ResumeJob(m) => {
            out.push(2u8);
            enc_hrm(out, m);
        },
        ResumeJobFailure::OtherBITS(m) => {
            out.push(3u8);
            enc_hrm(out, m);
        },
        ResumeJobFailure::Other(s) => {
            out.push(4u8);
            enc_str(out, s.as_str());
        },
    }
    assert(final(out)@ =~= old(out)@ + spec_enc_resume_failure(f@));
}

pub fn dec_resume_failure(buf: &[u8], pos: usize) -> (r: Option<(ResumeJobFailure, usize)>)
    ensures
        match r {
            Some((v, end)) => spec_dec_resume_failure(buf@, pos as int) == Some((v@, end as int)),
            None => spec_dec_resume_failure(buf@, pos as int) is None,
        },
{
    if pos >= buf.len() {
        return None;
    }
    let tag = buf[pos];
    if tag == 0 {
        Some((ResumeJobFailure::NotFound, pos + 1))
    } else if tag == 1 {
        match dec_hrm(buf, pos + 1) {
            None => None,
            Some((m, p1)) => Some((ResumeJobFailure::GetJob(m), p1)),
        }
    } else if tag == 2 {
        match dec_hrm(buf, pos + 1) {
            None => None,
            Some((m, p1)) => Some((ResumeJobFailure::ResumeJob(m), p1)),
        }
    } else if tag == 3 {
        match dec_hrm(buf, pos + 1) {
            None => None,
            Some((m, p1)) => Some((ResumeJobFailure::OtherBITS(m), p1)),
        }
    } else if tag == 4 {
        match dec_str(buf, pos + 1) {
            None => None,
            Some((s, p1)) => Some((ResumeJobFailure::Other(s), p1)),
        }
    } else {
        None
    }
}

pub proof fn lemma_dec_enc_resume_failure(bytes: Seq<u8>, pos: int, f: ResumeJobFailureV)
    requires
        0 <= pos,
        resume_failure_wf(f),
        pos + spec_enc_resume_failure(f).len() <= bytes.len(),
        bytes.subrange(pos, pos + spec_enc_resume_failure(f).len()) == spec_enc_resume_failure(f),
    ensures
        spec_dec_resume_failure(bytes, pos) == Some((f, pos + spec_enc_resume_failure(f).len())),
{
    match f {
        ResumeJobFailureV::NotFound => {
            assert(bytes[pos] == bytes.subrange(pos, pos + 1)[0]);
        },
        ResumeJobFailureV::GetJob(m) => {
            lemma_split2(bytes, pos, seq![1u8], spec_enc_hrm(m));
            assert(bytes[pos] == bytes.subrange(pos, pos + 1)[0]);
            lemma_dec_enc_hrm(bytes, pos + 1, m);
        },
        ResumeJobFailureV::ResumeJob(m) => {
            lemma_split2(bytes, pos, seq![2u8], spec_enc_hrm(m));
            assert(bytes[pos] == bytes.subrange(pos, pos + 1)[0]);
            lemma_dec_enc_hrm(bytes, pos + 1, m);
        },
        ResumeJobFailureV::OtherBITS(m) => {
            lemma_split2(bytes, pos, seq![3u8], spec_enc_hrm(m));
            assert(bytes[pos] == bytes.subrange(pos, pos + 1)[0]);
            lemma_dec_enc_hrm(bytes, pos + 1, m);
        },
        ResumeJobFailureV::Other(s) => {
            lemma_split2(bytes, pos, seq![4u8], spec_enc_str(s));
            assert(bytes[pos] == bytes.subrange(pos, pos + 1)[0]);
            lemma_dec_enc_str(bytes, pos + 1, s);
        },
    }
}

pub open spec fn spec_enc_set_priority_failure(f: SetJobPriorityFailureV) -> Seq<u8> {
    match f {
        SetJobPriorityFailureV::NotFound => seq![0u8],
        SetJobPriorityFailureV::GetJob(m) => seq![1u8] + spec_enc_hrm(m),
        SetJobPriorityFailureV::ApplySettings(m) => seq![2u8] + spec_enc_hrm(m),
        SetJobPriorityFailureV::OtherBITS(m) => seq![3u8] + spec_enc_hrm(m),
        SetJobPriorityFailureV::Other(s) => seq![4u8] + spec_enc_str(s),
    }
}

pub open spec fn spec_dec_set_priority_failure(bytes: Seq<u8>, pos: int) -> Option<(SetJobPriorityFailureV, int)> {
    if 0 <= pos && pos + 1 <= bytes.len() {
        let tag = bytes[pos];
        if tag == 0u8 {
            Some((SetJobPriorityFailureV::NotFound, pos + 1))
        } else if tag == 1u8 {
            match spec_dec_hrm(bytes, pos + 1) {
                None => None,
                Some((m, p1)) => Some((SetJobPriorityFailureV::GetJob(m), p1)),
            }
        } else if tag == 2u8 {
            match spec_dec_hrm(bytes, pos + 1) {
                None => None,
                Some((m, p1)) => Some((SetJobPriorityFailureV::ApplySettings(m), p1)),
            }
        } else if tag == 3u8 {
            match spec_dec_hrm(bytes, pos + 1) {
                None => None,
                Some((m, p1)) => Some((SetJobPriorityFailureV::OtherBITS(m), p1)),
            }
        } else if tag == 4u8 {
            match spec_dec_str(bytes, pos + 1) {
                None => None,
                Some((s, p1)) => Some((SetJobPriorityFailureV::Other(s), p1)),
            }
        } else {
            None
        }
    } else {
        None
    }
}

pub open spec fn set_priority_failure_wf(f: SetJobPriorityFailureV) -> bool {
    match f {
        SetJobPriorityFailureV::NotFound => true,
        SetJobPriorityFailureV::GetJob(m) => hrm_wf(m),
        SetJobPriorityFailureV::ApplySettings(m) => hrm_wf(m),
        SetJobPriorityFailureV::OtherBITS(m) => hrm_wf(m),
        SetJobPriorityFailureV::Other(s) => str_fits(s),
    }
}

pub fn enc_set_priority_failure(out: &mut Vec<u8>, f: &SetJobPriorityFailure)
    ensures
        final(out)@ == old(out)@ + spec_enc_set_priority_failure(f@),
{
    match f {
        SetJobPriorityFailure::NotFound => {
            out.push(0u8);
        },
        SetJobPriorityFailure::GetJob(m) => {
            out.push(1u8);
            enc_hrm(out, m);
        },
        SetJobPriorityFailure::ApplySettings(m) => {
            out.push(2u8);
            enc_hrm(out, m);
        },
        SetJobPriorityFailure::OtherBITS(m) => {
            out.push(3u8);
            enc_hrm(out, m);
        },
        SetJobPriorityFailure::Other(s) => {
            out.push(4u8);
            enc_str(out, s.as_str());
        },
    }
    assert(final(out)@ =~= old(out)@ + spec_enc_set_priority_failure(f@));
}

pub fn dec_set_priority_failure(buf: &[u8], pos: usize) -> (r: Option<(SetJobPriorityFailure, usize)>)
    ensures
        match r {
            Some((v, end)) => spec_dec_set_priority_failure(buf@, pos as int) == Some((v@, end as int)),
            None => spec_dec_set_priority_failure(buf@, pos as int) is None,
        },
{
    if pos >= buf.len() {
        return None;
    }
    let tag = buf[pos];
    if tag == 0 {
        Some((SetJobPriorityFailure::NotFound, pos + 1))
    } else if tag == 1 {
        match dec_hrm(buf, pos + 1) {
            None => None,
            Some((m, p1)) => Some((SetJobPriorityFailure::GetJob(m), p1)),
        }
    } else if tag == 2 {
        match dec_hrm(buf, pos + 1) {
            None => None,
            Some((m, p1)) => Some((SetJobPriorityFailure::ApplySettings(m), p1)),
        }
    } else if tag == 3 {
        match dec_hrm(buf, pos + 1) {
            None => None,
            Some((m, p1)) => Some((SetJobPriorityFailure::OtherBITS(m), p1)),
        }
    } else if tag == 4 {
        match dec_str(buf, pos + 1) {
            None => None,
            Some((s, p1)) => Some((SetJobPriorityFailure::Other(s), p1)),
        }
    } else {
        None
    }
}

pub proof fn lemma_dec_enc_set_priority_failure(bytes: Seq<u8>, pos: int, f: SetJobPriorityFailureV)
    requires
        0 <= pos,
        set_priority_failure_wf(f),
        pos + spec_enc_set_priority_failure(f).len() <= bytes.len(),
        bytes.subrange(pos, pos + spec_enc_set_priority_failure(f).len()) == spec_enc_set_priority_failure(f),
    ensures
        spec_dec_set_priority_failure(bytes, pos) == Some((f, pos + spec_enc_set_priority_failure(f).len())),
{
    match f {
        SetJobPriorityFailureV::NotFound => {
            assert(bytes[pos] == bytes.subrange(pos, pos + 1)[0]);
        },
        SetJobPriorityFailureV::GetJob(m) => {
            lemma_split2(bytes, pos, seq![1u8], spec_enc_hrm(m));
            assert(bytes[pos] == bytes.subrange(pos, pos + 1)[0]);
            lemma_dec_enc_hrm(bytes, pos + 1, m);
        },
        SetJobPriorityFailureV::ApplySettings(m) => {
            lemma_split2(bytes, pos, seq![2u8], spec_enc_hrm(m));
            assert(bytes[pos] == bytes.subrange(pos, pos + 1)[0]);
            lemma_dec_enc_hrm(bytes, pos + 1, m);
        },
        SetJobPriorityFailureV::OtherBITS(m) => {
            lemma_split2(bytes, pos, seq![3u8], spec_enc_hrm(m));
            assert(bytes[pos] == bytes.subrange(pos, pos + 1)[0]);
            lemma_dec_enc_hrm(bytes, pos + 1, m);
        },
        SetJobPriorityFailureV::Other(s) => {
            lemma_split2(bytes, pos, seq![4u8], spec_enc_str(s));
            assert(bytes[pos] == bytes.subrange(pos, pos + 1)[0]);
            lemma_dec_enc_str(bytes, pos + 1, s);
        },
    }
}

pub open spec fn spec_enc_set_interval_failure(f: SetUpdateIntervalFailureV) -> Seq<u8> {
    match f {
        SetUpdateIntervalFailureV::ArgumentValidation(s) => seq![0u8] + spec_enc_str(s),
        SetUpdateIntervalFailureV::NotFound => seq![1u8],
        SetUpdateIntervalFailureV::Other(s) => seq![2u8] + spec_enc_str(s),
    }
}

pub open spec fn spec_dec_set_interval_failure(bytes: Seq<u8>, pos: int) -> Option<(SetUpdateIntervalFailureV, int)> {
    if 0 <= pos && pos + 1 <= bytes.len() {
        let tag = bytes[pos];
        if tag == 0u8 {
            match spec_dec_str(bytes, pos + 1) {
                None => None,
                Some((s, p1)) => Some((SetUpdateIntervalFailureV::ArgumentValidation(s), p1)),
            }
        } else if tag == 1u8 {
            Some((SetUpdateIntervalFailureV::NotFound, pos + 1))
        } else if tag == 2u8 {
            match spec_dec_str(bytes, pos + 1) {
                None => None,
                Some((s, p1)) => Some((SetUpdateIntervalFailureV::Other(s), p1)),
            }
        } else {
            None
        }
    } else {
        None
    }
}

pub open spec fn set_interval_failure_wf(f: SetUpdateIntervalFailureV) -> bool {
    match f {
        SetUpdateIntervalFailureV::ArgumentValidation(s) => str_fits(s),
        SetUpdateIntervalFailureV::NotFound => true,
        SetUpdateIntervalFailureV::Other(s) => str_fits(s),
    }
}

pub fn enc_set_interval_failure(out: &mut Vec<u8>, f: &SetUpdateIntervalFailure)
    ensures
        final(out)@ == old(out)@ + spec_enc_set_interval_failure(f@),
{
    match f {
        SetUpdateIntervalFailure::ArgumentValidation(s) => {
            out.push(0u8);
            enc_str(out, s.as_str());
        },
        SetUpdateIntervalFailure::NotFound => {
            out.push(1u8);
        },
        SetUpdateIntervalFailure::Other(s) => {
            out.push(2u8);
            enc_str(out, s.as_str());
        },
    }
    assert(final(out)@ =~= old(out)@ + spec_enc_set_interval_failure(f@));
}

pub fn dec_set_interval_failure(buf: &[u8], pos: usize) -> (r: Option<(SetUpdateIntervalFailure, usize)>)
    ensures
        match r {
            Some((v, end)) => spec_dec_set_interval_failure(buf@, pos as int) == Some((v@, end as int)),
            None => spec_dec_set_interval_failure(buf@, pos as int) is None,
        },
{
    if pos >= buf.len() {
        return None;
    }
    let tag = buf[pos];
    if tag == 0 {
        match dec_str(buf, pos + 1) {
            None => None,
            Some((s, p1)) => Some((SetUpdateIntervalFailure::ArgumentValidation(s), p1)),
        }
    } else if tag == 1 {
        Some((SetUpdateIntervalFailure::NotFound, pos + 1))
    } else if tag == 2 {
        match dec_str(buf, pos + 1) {
            None => None,
            Some((s, p1)) => Some((SetUpdateIntervalFailure::Other(s), p1)),
        }
    } else {
        None
    }
}

pub proof fn lemma_dec_enc_set_interval_failure(bytes: Seq<u8>, pos: int, f: SetUpdateIntervalFailureV)
    requires
        0 <= pos,
        set_interval_failure_wf(f),
        pos + spec_enc_set_interval_failure(f).len() <= bytes.len(),
        bytes.subrange(pos, pos + spec_enc_set_interval_failure(f).len()) == spec_enc_set_interval_failure(f),
    ensures
        spec_dec_set_interval_failure(bytes, pos) == Some((f, pos + spec_enc_set_interval_failure(f).len())),
{
    match f {
        SetUpdateIntervalFailureV::ArgumentValidation(s) => {
            lemma_split2(bytes, pos, seq![0u8], spec_enc_str(s));
            assert(bytes[pos] == bytes.subrange(pos, pos + 1)[0]);
            lemma_dec_enc_str(bytes, pos + 1, s);
        },
        SetUpdateIntervalFailureV::NotFound => {
            assert(bytes[pos] == bytes.subrange(pos, pos + 1)[0]);
        },
        SetUpdateIntervalFailureV::Other(s) => {
            lemma_split2(bytes, pos, seq![2u8], spec_enc_str(s));
            assert(bytes[pos] == bytes.subrange(pos, pos + 1)[0]);
            lemma_dec_enc_str(bytes, pos + 1, s);
        },
    }
}

pub open spec fn spec_enc_complete_failure(f: CompleteJobFailureV) -> Seq<u8> {
    match f {
        CompleteJobFailureV::NotFound => seq![0u8],
        CompleteJobFailureV::GetJob(m) => seq![1u8] + spec_enc_hrm(m),
        CompleteJobFailureV::CompleteJob(m) => seq![2u8] + spec_enc_hrm(m),
        CompleteJobFailureV::PartialComplete => seq![3u8],
        CompleteJobFailureV::OtherBITS(m) => seq![4u8] + spec_enc_hrm(m),
        CompleteJobFailureV::Other(s) => seq![5u8] + spec_enc_str(s),
    }
}

pub open spec fn spec_dec_complete_failure(bytes: Seq<u8>, pos: int) -> Option<(CompleteJobFailureV, int)> {
    if 0 <= pos && pos + 1 <= bytes.len() {
        let tag = bytes[pos];
        if tag == 0u8 {
            Some((CompleteJobFailureV::NotFound, pos + 1))
        } else if tag == 1u8 {
            match spec_dec_hrm(bytes, pos + 1) {
                None => None,
                Some((m, p1)) => Some((CompleteJobFailureV::GetJob(m), p1)),
            }
        } else if tag == 2u8 {
            match spec_dec_hrm(bytes, pos + 1) {
                None => None,
                Some((m, p1)) => Some((CompleteJobFailureV::CompleteJob(m), p1)),
            }
        } else if tag == 3u8 {
            Some((CompleteJobFailureV::PartialComplete, pos + 1))
        } else if tag == 4u8 {
            match spec_dec_hrm(bytes, pos + 1) {
                None => None,
                Some((m, p1)) => Some((CompleteJobFailureV::OtherBITS(m), p1)),
            }
        } else if tag == 5u8 {
            match spec_dec_str(bytes, pos + 1) {
                None => None,
                Some((s, p1)) => Some((CompleteJobFailureV::Other(s), p1)),
            }
        } else {
            None
        }
    } else {
        None
    }
}

pub open spec fn complete_failure_wf(f: CompleteJobFailureV) -> bool {
    match f {
        CompleteJobFailureV::NotFound => true,
        CompleteJobFailureV::GetJob(m) => hrm_wf(m),
        CompleteJobFailureV::CompleteJob(m) => hrm_wf(m),
        CompleteJobFailureV::PartialComplete => true,
        CompleteJobFailureV::OtherBITS(m) => hrm_wf(m),
        CompleteJobFailureV::Other(s) => str_fits(s),
    }
}

pub fn enc_complete_failure(out: &mut Vec<u8>, f: &CompleteJobFailure)
    ensures
        final(out)@ == old(out)@ + spec_enc_complete_failure(f@),
{
    match f {
        CompleteJobFailure::NotFound => {
            out.push(0u8);
        },
        CompleteJobFailure::GetJob(m) => {
            out.push(1u8);
            enc_hrm(out, m);
        },
        CompleteJobFailure::CompleteJob(m) => {
            out.push(2u8);
            enc_hrm(out, m);
        },
        CompleteJobFailure::PartialComplete => {
            out.push(3u8);
        },
        CompleteJobFailure::OtherBITS(m) => {
            out.push(4u8);
            enc_hrm(out, m);
        },
        CompleteJobFailure::Other(s) => {
            out.push(5u8);
            enc_str(out, s.as_str());
        },
    }
    assert(final(out)@ =~= old(out)@ + spec_enc_complete_failure(f@));
}

pub fn dec_complete_failure(buf: &[u8], pos: usize) -> (r: Option<(CompleteJobFailure, usize)>)
    ensures
        match r {
            Some((v, end)) => spec_dec_complete_failure(buf@, pos as int) == Some((v@, end as int)),
            None => spec_dec_complete_failure(buf@, pos as int) is None,
        },
{
    if pos >= buf.len() {
        return None;
    }
    let tag = buf[pos];
    if tag == 0 {
        Some((CompleteJobFailure::NotFound, pos + 1))
    } else if tag == 1 {
        match dec_hrm(buf, pos + 1) {
            None => None,
            Some((m, p1)) => Some((CompleteJobFailure::GetJob(m), p1)),
        }
    } else if tag == 2 {
        match dec_hrm(buf, pos + 1) {
            None => None,
            Some((m, p1)) => Some((CompleteJobFailure::CompleteJob(m), p1)),
        }
    } else if tag == 3 {
        Some((CompleteJobFailure::PartialComplete, pos + 1))
    } else if tag == 4 {
        match dec_hrm(buf, pos + 1) {
            None => None,
            Some((m, p1)) => Some((CompleteJobFailure::OtherBITS(m), p1)),
        }
    } else if tag == 5 {
        match dec_str(buf, pos + 1) {
            None => None,
            Some((s, p1)) => Some((CompleteJobFailure::Other(s), p1)),
        }
    } else {
        None
    }
}

pub proof fn lemma_dec_enc_complete_failure(bytes: Seq<u8>, pos: int, f: CompleteJobFailureV)
    requires
        0 <= pos,
        complete_failure_wf(f),
        pos + spec_enc_complete_failure(f).len() <= bytes.len(),
        bytes.subrange(pos, pos + spec_enc_complete_failure(f).len()) == spec_enc_complete_failure(f),
    ensures
        spec_dec_complete_failure(bytes, pos) == Some((f, pos + spec_enc_complete_failure(f).len())),
{
    match f {
        CompleteJobFailureV::NotFound => {
            assert(bytes[pos] == bytes.subrange(pos, pos + 1)[0]);
        },
        CompleteJobFailureV::GetJob(m) => {
            lemma_split2(bytes, pos, seq![1u8], spec_enc_hrm(m));
            assert(bytes[pos] == bytes.subrange(pos, pos + 1)[0]);
            lemma_dec_enc_hrm(bytes, pos + 1, m);
        },
        CompleteJobFailureV::CompleteJob(m) => {
            lemma_split2(bytes, pos, seq![2u8], spec_enc_hrm(m));
            assert(bytes[pos] == bytes.subrange(pos, pos + 1)[0]);
            lemma_dec_enc_hrm(bytes, pos + 1, m);
        },
        CompleteJobFailureV::PartialComplete => {
            assert(bytes[pos] == bytes.subrange(pos, pos + 1)[0]);
        },
        CompleteJobFailureV::OtherBITS(m) => {
            lemma_split2(bytes, pos, seq![4u8], spec_enc_hrm(m));
            assert(bytes[pos] == bytes.subrange(pos, pos + 1)[0]);
            lemma_dec_enc_hrm(bytes, pos + 1, m);
        },
        CompleteJobFailureV::Other(s) => {
            lemma_split2(bytes, pos, seq![5u8], spec_enc_str(s));
            assert(bytes[pos] == bytes.subrange(pos, pos + 1)[0]);
            lemma_dec_enc_str(bytes, pos + 1, s);
        },
    }
}

pub open spec fn spec_enc_cancel_failure(f: CancelJobFailureV) -> Seq<u8> {
    match f {
        CancelJobFailureV::NotFound => seq![0u8],
        CancelJobFailureV::GetJob(m) => seq![1u8] + spec_enc_hrm(m),
        CancelJobFailureV::CancelJob(m) => seq![2u8] + spec_enc_hrm(m),
        CancelJobFailureV::OtherBITS(m) => seq![3u8] + spec_enc_hrm(m),
        CancelJobFailureV::Other(s) => seq![4u8] + spec_enc_str(s),
    }
}

pub open spec fn spec_dec_cancel_failure(bytes: Seq<u8>, pos: int) -> Option<(CancelJobFailureV, int)> {
    if 0 <= pos && pos + 1 <= bytes.len() {
        let tag = bytes[pos];
        if tag == 0u8 {
            Some((CancelJobFailureV::NotFound, pos + 1))
        } else if tag == 1u8 {
            match spec_dec_hrm(bytes, pos + 1) {
                None => None,
                Some((m, p1)) => Some((CancelJobFailureV::GetJob(m), p1)),
            }
        } else if tag == 2u8 {
            match spec_dec_hrm(bytes, pos + 1) {
                None => None,
                Some((m, p1)) => Some((CancelJobFailureV::CancelJob(m), p1)),
            }
        } else if tag == 3u8 {
            match spec_dec_hrm(bytes, pos + 1) {
                None => None,
                Some((m, p1)) => Some((CancelJobFailureV::OtherBITS(m), p1)),
            }
        } else if tag == 4u8 {
            match spec_dec_str(bytes, pos + 1) {
                None => None,
                Some((s, p1)) => Some((CancelJobFailureV::Other(s), p1)),
            }
        } else {
            None
        }
    } else {
        None
    }
}

pub open spec fn cancel_failure_wf(f: CancelJobFailureV) -> bool {
    match f {
        CancelJobFailureV::NotFound => true,
        CancelJobFailureV::GetJob(m) => hrm_wf(m),
        CancelJobFailureV::CancelJob(m) => hrm_wf(m),
        CancelJobFailureV::OtherBITS(m) => hrm_wf(m),
        CancelJobFailureV::Other(s) => str_fits(s),
    }
}

pub fn enc_cancel_failure(out: &mut Vec<u8>, f: &CancelJobFailure)
    ensures
        final(out)@ == old(out)@ + spec_enc_cancel_failure(f@),
{
    match f {
        CancelJobFailure::NotFound => {
            out.push(0u8);
        },
        CancelJobFailure::GetJob(m) => {
            out.push(1u8);
            enc_hrm(out, m);
        },
        CancelJobFailure::CancelJob(m) => {
            out.push(2u8);
            enc_hrm(out, m);
        },
        CancelJobFailure::OtherBITS(m) => {
            out.push(3u8);
            enc_hrm(out, m);
        },
        CancelJobFailure::Other(s) => {
            out.push(4u8);
            enc_str(out, s.as_str());
        },
    }
    assert(final(out)@ =~= old(out)@ + spec_enc_cancel_failure(f@));
}

pub fn dec_cancel_failure(buf: &[u8], pos: usize) -> (r: Option<(CancelJobFailure, usize)>)
    ensures
        match r {
            Some((v, end)) => spec_dec_cancel_failure(buf@, pos as int) == Some((v@, end as int)),
            None => spec_dec_cancel_failure(buf@, pos as int) is None,
        },
{
    if pos >= buf.len() {
        return None;
    }
    let tag = buf[pos];
    if tag == 0 {
        Some((CancelJobFailure::NotFound, pos + 1))
    } else if tag == 1 {
        match dec_hrm(buf, pos + 1) {
            None => None,
            Some((m, p1)) => Some((CancelJobFailure::GetJob(m), p1)),
        }
    } else if tag == 2 {
        match dec_hrm(buf, pos + 1) {
            None => None,
            Some((m, p1)) => Some((CancelJobFailure::CancelJob(m), p1)),
        }
    } else if tag == 3 {
        match dec_hrm(buf, pos + 1) {
            None => None,
            Some((m, p1)) => Some((CancelJobFailure::OtherBITS(m), p1)),
        }
    } else if tag == 4 {
        match dec_str(buf, pos + 1) {
            None => None,
            Some((s, p1)) => Some((CancelJobFailure::Other(s), p1)),
        }
    } else {
        None
    }
}

pub proof fn lemma_dec_enc_cancel_failure(bytes: Seq<u8>, pos: int, f: CancelJobFailureV)
    requires
        0 <= pos,
        cancel_failure_wf(f),
        pos + spec_enc_cancel_failure(f).len() <= bytes.len(),
        bytes.subrange(pos, pos + spec_enc_cancel_failure(f).len()) == spec_enc_cancel_failure(f),
    ensures
        spec_dec_cancel_failure(bytes, pos) == Some((f, pos + spec_enc_cancel_failure(f).len())),
{
    match f {
        CancelJobFailureV::NotFound => {
            assert(bytes[pos] == bytes.subrange(pos, pos + 1)[0]);
        },
        CancelJobFailureV::GetJob(m) => {
            lemma_split2(bytes, pos, seq![1u8], spec_enc_hrm(m));
            assert(bytes[pos] == bytes.subrange(pos, pos + 1)[0]);
            lemma_dec_enc_hrm(bytes, pos + 1, m);
        },
        CancelJobFailureV::CancelJob(m) => {
            lemma_split2(bytes, pos, seq![2u8], spec_enc_hrm(m));
            assert(bytes[pos] == bytes.subrange(pos, pos + 1)[0]);
            lemma_dec_enc_hrm(bytes, pos + 1, m);
        },
        CancelJobFailureV::OtherBITS(m) => {
            lemma_split2(bytes, pos, seq![3u8], spec_enc_hrm(m));
            assert(bytes[pos] == bytes.subrange(pos, pos + 1)[0]);
            lemma_dec_enc_hrm(bytes, pos + 1, m);
        },
        CancelJobFailureV::Other(s) => {
            lemma_split2(bytes, pos, seq![4u8], spec_enc_str(s));
            assert(bytes[pos] == bytes.subrange(pos, pos + 1)[0]);
            lemma_dec_enc_str(bytes, pos + 1, s);
        },
    }
}

} // verus!

// === Responses ============================================================

verus! {

pub open spec fn spec_enc_start_success(s: StartJobSuccess) -> Seq<u8> {
    spec_enc_guid(s.guid)
}

pub open spec fn spec_dec_start_success(bytes: Seq<u8>, pos: int) -> Option<
    (StartJobSuccess, int),
> {
    match spec_dec_guid(bytes, pos) {
        None => None,
        Some((guid, p1)) => Some((StartJobSuccess { guid }, p1)),
    }
}

pub fn enc_start_success(out: &mut Vec<u8>, s: &StartJobSuccess)
    ensures
        final(out)@ == old(out)@ + spec_enc_start_success(*s),
{
    enc_guid(out, &s.guid);
}

pub fn dec_start_success(buf: &[u8], pos: usize) -> (r: Option<(StartJobSuccess, usize)>)
    ensures
        match r {
            Some((v, end)) => spec_dec_start_success(buf@, pos as int) == Some((v, end as int)),
            None => spec_dec_start_success(buf@, pos as int) is None,
        },
{
    match dec_guid(buf, pos) {
        None => None,
        Some((guid, p1)) => Some((StartJobSuccess { guid }, p1)),
    }
}

pub proof fn lemma_dec_enc_start_success(bytes: Seq<u8>, pos: int, s: StartJobSuccess)
    requires
        0 <= pos,
        pos + spec_enc_start_success(s).len() <= bytes.len(),
        bytes.subrange(pos, pos + spec_enc_start_success(s).len()) == spec_enc_start_success(s),
    ensures
        spec_dec_start_success(bytes, pos) == Some((s, pos + spec_enc_start_success(s).len())),
{
    lemma_enc_guid_len(s.guid);
    lemma_dec_enc_guid(bytes, pos, s.guid);
}

/// The ghost value of a `start` response.
pub open spec fn start_response_view(r: Result<StartJobSuccess, StartJobFailure>) -> Result<
    StartJobSuccess,
    StartJobFailureV,
> {
    match r {
        Ok(s) => Ok(s),
        Err(f) => Err(f@),
    }
}

pub open spec fn spec_enc_start_response(r: Result<StartJobSuccess, StartJobFailureV>) -> Seq<
    u8,
> {
    match r {
        Ok(s) => seq![0u8] + spec_enc_start_success(s),
        Err(f) => seq![1u8] + spec_enc_start_failure(f),
    }
}

pub open spec fn spec_dec_start_response(bytes: Seq<u8>, pos: int) -> Option<
    (Result<StartJobSuccess, StartJobFailureV>, int),
> {
    if 0 <= pos && pos + 1 <= bytes.len() {
        if bytes[pos] == 0u8 {
            match spec_dec_start_success(bytes, pos + 1) {
                None => None,
                Some((s, p1)) => Some((Ok(s), p1)),
            }
        } else if bytes[pos] == 1u8 {
            match spec_dec_start_failure(bytes, pos + 1) {
                None => None,
                Some((f, p1)) => Some((Err(f), p1)),
            }
        } else {
            None
        }
    } else {
        None
    }
}

pub open spec fn start_response_wf(r: Result<StartJobSuccess, StartJobFailureV>) -> bool {
    r matches Err(f) ==> start_failure_wf(f)
}

pub fn enc_start_response(out: &mut Vec<u8>, r: &Result<StartJobSuccess, StartJobFailure>)
    ensures
        final(out)@ == old(out)@ + spec_enc_start_response(start_response_view(*r)),
{
    match r {
        Ok(s) => {
            out.push(0u8);
            enc_start_success(out, s);
        },
        Err(f) => {
            out.push(1u8);
            enc_start_failure(out, f);
        },
    }
    assert(final(out)@ =~= old(out)@ + spec_enc_start_response(start_response_view(*r)));
}

pub fn dec_start_response(buf: &[u8], pos: usize) -> (r: Option<
    (Result<StartJobSuccess, StartJobFailure>, usize),
>)
    ensures
        match r {
            Some((v, end)) => spec_dec_start_response(buf@, pos as int) == Some(
                (start_response_view(v), end as int),
            ),
            None => spec_dec_start_response(buf@, pos as int) is None,
        },
{
    if pos >= buf.len() {
        return None;
    }
    let tag = buf[pos];
    if tag == 0 {
        match dec_start_success(buf, pos + 1) {
            None => None,
            Some((s, p1)) => Some((Ok(s), p1)),
        }
    } else if tag == 1 {
        match dec_start_failure(buf, pos + 1) {
            None => None,
            Some((f, p1)) => Some((Err(f), p1)),
        }
    } else {
        None
    }
}

pub proof fn lemma_dec_enc_start_response(
    bytes: Seq<u8>,
    pos: int,
    r: Result<StartJobSuccess, StartJobFailureV>,
)
    requires
        0 <= pos,
        start_response_wf(r),
        pos + spec_enc_start_response(r).len() <= bytes.len(),
        bytes.subrange(pos, pos + spec_enc_start_response(r).len()) == spec_enc_start_response(r),
    ensures
        spec_dec_start_response(bytes, pos) == Some((r, pos + spec_enc_start_response(r).len())),
{
    match r {
        Ok(s) => {
            lemma_split2(bytes, pos, seq![0u8], spec_enc_start_success(s));
            assert(bytes[pos] == bytes.subrange(pos, pos + 1)[0]);
            lemma_dec_enc_start_success(bytes, pos + 1, s);
        },
        Err(f) => {
            lemma_split2(bytes, pos, seq![1u8], spec_enc_start_failure(f));
            assert(bytes[pos] == bytes.subrange(pos, pos + 1)[0]);
            lemma_dec_enc_start_failure(bytes, pos + 1, f);
        },
    }
}

/// The ghost value of a response that carries no success payload.
pub ghost enum UnitResponseV<F> {
    Success,
    Failure(F),
}

/// The ghost value of a `monitor` response.
pub open spec fn monitor_response_view(r: Result<(), MonitorJobFailure>) -> UnitResponseV<MonitorJobFailureV> {
    match r {
        Ok(_) => UnitResponseV::Success,
        Err(f) => UnitResponseV::Failure(f@),
    }
}

pub open spec fn spec_enc_monitor_response(r: UnitResponseV<MonitorJobFailureV>) -> Seq<u8> {
    match r {
        UnitResponseV::Success => seq![0u8],
        UnitResponseV::Failure(f) => seq![1u8] + spec_enc_monitor_failure(f),
    }
}

pub open spec fn spec_dec_monitor_response(bytes: Seq<u8>, pos: int) -> Option<
    (UnitResponseV<MonitorJobFailureV>, int),
> {
    if 0 <= pos && pos + 1 <= bytes.len() {
        if bytes[pos] == 0u8 {
            Some((UnitResponseV::Success, pos + 1))
        } else if bytes[pos] == 1u8 {
            match spec_dec_monitor_failure(bytes, pos + 1) {
                None => None,
                Some((f, p1)) => Some((UnitResponseV::Failure(f), p1)),
            }
        } else {
            None
        }
    } else {
        None
    }
}

pub open spec fn monitor_response_wf(r: UnitResponseV<MonitorJobFailureV>) -> bool {
    r matches UnitResponseV::Failure(f) ==> monitor_failure_wf(f)
}

pub fn enc_monitor_response(out: &mut Vec<u8>, r: &Result<(), MonitorJobFailure>)
    ensures
        final(out)@ == old(out)@ + spec_enc_monitor_response(monitor_response_view(*r)),
{
    match r {
        Ok(_) => {
            out.push(0u8);
        },
        Err(f) => {
            out.push(1u8);
            enc_monitor_failure(out, f);
        },
    }
    assert(final(out)@ =~= old(out)@ + spec_enc_monitor_response(monitor_response_view(*r)));
}

pub fn dec_monitor_response(buf: &[u8], pos: usize) -> (r: Option<(Result<(), MonitorJobFailure>, usize)>)
    ensures
        match r {
            Some((v, end)) => spec_dec_monitor_response(buf@, pos as int) == Some(
                (monitor_response_view(v), end as int),
            ),
            None => spec_dec_monitor_response(buf@, pos as int) is None,
        },
{
    if pos >= buf.len() {
        return None;
    }
    let tag = buf[pos];
    if tag == 0 {
        Some((Ok(()), pos + 1))
    } else if tag == 1 {
        match dec_monitor_failure(buf, pos + 1) {
            None => None,
            Some((f, p1)) => Some((Err(f), p1)),
        }
    } else {
        None
    }
}

pub proof fn lemma_dec_enc_monitor_response(bytes: Seq<u8>, pos: int, r: UnitResponseV<MonitorJobFailureV>)
    requires
        0 <= pos,
        monitor_response_wf(r),
        pos + spec_enc_monitor_response(r).len() <= bytes.len(),
        bytes.subrange(pos, pos + spec_enc_monitor_response(r).len()) == spec_enc_monitor_response(r),
    ensures
        spec_dec_monitor_response(bytes, pos) == Some((r, pos + spec_enc_monitor_response(r).len())),
{
    match r {
        UnitResponseV::Success => {
            assert(bytes[pos] == bytes.subrange(pos, pos + 1)[0]);
        },
        UnitResponseV::Failure(f) => {
            lemma_split2(bytes, pos, seq![1u8], spec_enc_monitor_failure(f));
            assert(bytes[pos] == bytes.subrange(pos, pos + 1)[0]);
            lemma_dec_enc_monitor_failure(bytes, pos + 1, f);
        },
    }
}

/// The ghost value of a `suspend` response.
pub open spec fn suspend_response_view(r: Result<(), SuspendJobFailure>) -> UnitResponseV<SuspendJobFailureV> {
    match r {
        Ok(_) => UnitResponseV::Success,
        Err(f) => UnitResponseV::Failure(f@),
    }
}

pub open spec fn spec_enc_suspend_response(r: UnitResponseV<SuspendJobFailureV>) -> Seq<u8> {
    match r {
        UnitResponseV::Success => seq![0u8],
        UnitResponseV::Failure(f) => seq![1u8] + spec_enc_suspend_failure(f),
    }
}

pub open spec fn spec_dec_suspend_response(bytes: Seq<u8>, pos: int) -> Option<
    (UnitResponseV<SuspendJobFailureV>, int),
> {
    if 0 <= pos && pos + 1 <= bytes.len() {
        if bytes[pos] == 0u8 {
            Some((UnitResponseV::Success, pos + 1))
        } else if bytes[pos] == 1u8 {
            match spec_dec_suspend_failure(bytes, pos + 1) {
                None => None,
                Some((f, p1)) => Some((UnitResponseV::Failure(f), p1)),
            }
        } else {
            None
        }
    } else {
        None
    }
}

pub open spec fn suspend_response_wf(r: UnitResponseV<SuspendJobFailureV>) -> bool {
    r matches UnitResponseV::Failure(f) ==> suspend_failure_wf(f)
}

pub fn enc_suspend_response(out: &mut Vec<u8>, r: &Result<(), SuspendJobFailure>)
    ensures
        final(out)@ == old(out)@ + spec_enc_suspend_response(suspend_response_view(*r)),
{
    match r {
        Ok(_) => {
            out.push(0u8);
        },
        Err(f) => {
            out.push(1u8);
            enc_suspend_failure(out, f);
        },
    }
    assert(final(out)@ =~= old(out)@ + spec_enc_suspend_response(suspend_response_view(*r)));
}

pub fn dec_suspend_response(buf: &[u8], pos: usize) -> (r: Option<(Result<(), SuspendJobFailure>, usize)>)
    ensures
        match r {
            Some((v, end)) => spec_dec_suspend_response(buf@, pos as int) == Some(
                (suspend_response_view(v), end as int),
            ),
            None => spec_dec_suspend_response(buf@, pos as int) is None,
        },
{
    if pos >= buf.len() {
        return None;
    }
    let tag = buf[pos];
    if tag == 0 {
        Some((Ok(()), pos + 1))
    } else if tag == 1 {
        match dec_suspend_failure(buf, pos + 1) {
            None => None,
            Some((f, p1)) => Some((Err(f), p1)),
        }
    } else {
        None
    }
}

pub proof fn lemma_dec_enc_suspend_response(bytes: Seq<u8>, pos: int, r: UnitResponseV<SuspendJobFailureV>)
    requires
        0 <= pos,
        suspend_response_wf(r),
        pos + spec_enc_suspend_response(r).len() <= bytes.len(),
        bytes.subrange(pos, pos + spec_enc_suspend_response(r).len()) == spec_enc_suspend_response(r),
    ensures
        spec_dec_suspend_response(bytes, pos) == Some((r, pos + spec_enc_suspend_response(r).len())),
{
    match r {
        UnitResponseV::Success => {
            assert(bytes[pos] == bytes.subrange(pos, pos + 1)[0]);
        },
        UnitResponseV::Failure(f) => {
            lemma_split2(bytes, pos, seq![1u8], spec_enc_suspend_failure(f));
            assert(bytes[pos] == bytes.subrange(pos, pos + 1)[0]);
            lemma_dec_enc_suspend_failure(bytes, pos + 1, f);
        },
    }
}

/// The ghost value of a `resume` response.
pub open spec fn resume_response_view(r: Result<(), ResumeJobFailure>) -> UnitResponseV<ResumeJobFailureV> {
    match r {
        Ok(_) => UnitResponseV::Success,
        Err(f) => UnitResponseV::Failure(f@),
    }
}

pub open spec fn spec_enc_resume_response(r: UnitResponseV<ResumeJobFailureV>) -> Seq<u8> {
    match r {
        UnitResponseV::Success => seq![0u8],
        UnitResponseV::Failure(f) => seq![1u8] + spec_enc_resume_failure(f),
    }
}

pub open spec fn spec_dec_resume_response(bytes: Seq<u8>, pos: int) -> Option<
    (UnitResponseV<ResumeJobFailureV>, int),
> {
    if 0 <= pos && pos + 1 <= bytes.len() {
        if bytes[pos] == 0u8 {
            Some((UnitResponseV::Success, pos + 1))
        } else if bytes[pos] == 1u8 {
            match spec_dec_resume_failure(bytes, pos + 1) {
                None => None,
                Some((f, p1)) => Some((UnitResponseV::Failure(f), p1)),
            }
        } else {
            None
        }
    } else {
        None
    }
}

pub open spec fn resume_response_wf(r: UnitResponseV<ResumeJobFailureV>) -> bool {
    r matches UnitResponseV::Failure(f) ==> resume_failure_wf(f)
}

pub fn enc_resume_response(out: &mut Vec<u8>, r: &Result<(), ResumeJobFailure>)
    ensures
        final(out)@ == old(out)@ + spec_enc_resume_response(resume_response_view(*r)),
{
    match r {
        Ok(_) => {
            out.push(0u8);
        },
        Err(f) => {
            out.push(1u8);
            enc_resume_failure(out, f);
        },
    }
    assert(final(out)@ =~= old(out)@ + spec_enc_resume_response(resume_response_view(*r)));
}

pub fn dec_resume_response(buf: &[u8], pos: usize) -> (r: Option<(Result<(), ResumeJobFailure>, usize)>)
    ensures
        match r {
            Some((v, end)) => spec_dec_resume_response(buf@, pos as int) == Some(
                (resume_response_view(v), end as int),
            ),
            None => spec_dec_resume_response(buf@, pos as int) is None,
        },
{
    if pos >= buf.len() {
        return None;
    }
    let tag = buf[pos];
    if tag == 0 {
        Some((Ok(()), pos + 1))
    } else if tag == 1 {
        match dec_resume_failure(buf, pos + 1) {
            None => None,
            Some((f, p1)) => Some((Err(f), p1)),
        }
    } else {
        None
    }
}

pub proof fn lemma_dec_enc_resume_response(bytes: Seq<u8>, pos: int, r: UnitResponseV<ResumeJobFailureV>)
    requires
        0 <= pos,
        resume_response_wf(r),
        pos + spec_enc_resume_response(r).len() <= bytes.len(),
        bytes.subrange(pos, pos + spec_enc_resume_response(r).len()) == spec_enc_resume_response(r),
    ensures
        spec_dec_resume_response(bytes, pos) == Some((r, pos + spec_enc_resume_response(r).len())),
{
    match r {
        UnitResponseV::Success => {
            assert(bytes[pos] == bytes.subrange(pos, pos + 1)[0]);
        },
        UnitResponseV::Failure(f) => {
            lemma_split2(bytes, pos, seq![1u8], spec_enc_resume_failure(f));
            assert(bytes[pos] == bytes.subrange(pos, pos + 1)[0]);
            lemma_dec_enc_resume_failure(bytes, pos + 1, f);
        },
    }
}

/// The ghost value of a `set_priority` response.
pub open spec fn set_priority_response_view(r: Result<(), SetJobPriorityFailure>) -> UnitResponseV<SetJobPriorityFailureV> {
    match r {
        Ok(_) => UnitResponseV::Success,
        Err(f) => UnitResponseV::Failure(f@),
    }
}

pub open spec fn spec_enc_set_priority_response(r: UnitResponseV<SetJobPriorityFailureV>) -> Seq<u8> {
    match r {
        UnitResponseV::Success => seq![0u8],
        UnitResponseV::Failure(f) => seq![1u8] + spec_enc_set_priority_failure(f),
    }
}

pub open spec fn spec_dec_set_priority_response(bytes: Seq<u8>, pos: int) -> Option<
    (UnitResponseV<SetJobPriorityFailureV>, int),
> {
    if 0 <= pos && pos + 1 <= bytes.len() {
        if bytes[pos] == 0u8 {
            Some((UnitResponseV::Success, pos + 1))
        } else if bytes[pos] == 1u8 {
            match spec_dec_set_priority_failure(bytes, pos + 1) {
                None => None,
                Some((f, p1)) => Some((UnitResponseV::Failure(f), p1)),
            }
        } else {
            None
        }
    } else {
        None
    }
}

pub open spec fn set_priority_response_wf(r: UnitResponseV<SetJobPriorityFailureV>) -> bool {
    r matches UnitResponseV::Failure(f) ==> set_priority_failure_wf(f)
}

pub fn enc_set_priority_response(out: &mut Vec<u8>, r: &Result<(), SetJobPriorityFailure>)
    ensures
        final(out)@ == old(out)@ + spec_enc_set_priority_response(set_priority_response_view(*r)),
{
    match r {
        Ok(_) => {
            out.push(0u8);
        },
        Err(f) => {
            out.push(1u8);
            enc_set_priority_failure(out, f);
        },
    }
    assert(final(out)@ =~= old(out)@ + spec_enc_set_priority_response(set_priority_response_view(*r)));
}

pub fn dec_set_priority_response(buf: &[u8], pos: usize) -> (r: Option<(Result<(), SetJobPriorityFailure>, usize)>)
    ensures
        match r {
            Some((v, end)) => spec_dec_set_priority_response(buf@, pos as int) == Some(
                (set_priority_response_view(v), end as int),
            ),
            None => spec_dec_set_priority_response(buf@, pos as int) is None,
        },
{
    if pos >= buf.len() {
        return None;
    }
    let tag = buf[pos];
    if tag == 0 {
        Some((Ok(()), pos + 1))
    } else if tag == 1 {
        match dec_set_priority_failure(buf, pos + 1) {
            None => None,
            Some((f, p1)) => Some((Err(f), p1)),
        }
    } else {
        None
    }
}

pub proof fn lemma_dec_enc_set_priority_response(bytes: Seq<u8>, pos: int, r: UnitResponseV<SetJobPriorityFailureV>)
    requires
        0 <= pos,
        set_priority_response_wf(r),
        pos + spec_enc_set_priority_response(r).len() <= bytes.len(),
        bytes.subrange(pos, pos + spec_enc_set_priority_response(r).len()) == spec_enc_set_priority_response(r),
    ensures
        spec_dec_set_priority_response(bytes, pos) == Some((r, pos + spec_enc_set_priority_response(r).len())),
{
    match r {
        UnitResponseV::Success => {
            assert(bytes[pos] == bytes.subrange(pos, pos + 1)[0]);
        },
        UnitResponseV::Failure(f) => {
            lemma_split2(bytes, pos, seq![1u8], spec_enc_set_priority_failure(f));
            assert(bytes[pos] == bytes.subrange(pos, pos + 1)[0]);
            lemma_dec_enc_set_priority_failure(bytes, pos + 1, f);
        },
    }
}

/// The ghost value of a `set_interval` response.
pub open spec fn set_interval_response_view(r: Result<(), SetUpdateIntervalFailure>) -> UnitResponseV<SetUpdateIntervalFailureV> {
    match r {
        Ok(_) => UnitResponseV::Success,
        Err(f) => UnitResponseV::Failure(f@),
    }
}

pub open spec fn spec_enc_set_interval_response(r: UnitResponseV<SetUpdateIntervalFailureV>) -> Seq<u8> {
    match r {
        UnitResponseV::Success => seq![0u8],
        UnitResponseV::Failure(f) => seq![1u8] + spec_enc_set_interval_failure(f),
    }
}

pub open spec fn spec_dec_set_interval_response(bytes: Seq<u8>, pos: int) -> Option<
    (UnitResponseV<SetUpdateIntervalFailureV>, int),
> {
    if 0 <= pos && pos + 1 <= bytes.len() {
        if bytes[pos] == 0u8 {
            Some((UnitResponseV::Success, pos + 1))
        } else if bytes[pos] == 1u8 {
            match spec_dec_set_interval_failure(bytes, pos + 1) {
                None => None,
                Some((f, p1)) => Some((UnitResponseV::Failure(f), p1)),
            }
        } else {
            None
        }
    } else {
        None
    }
}

pub open spec fn set_interval_response_wf(r: UnitResponseV<SetUpdateIntervalFailureV>) -> bool {
    r matches UnitResponseV::Failure(f) ==> set_interval_failure_wf(f)
}

pub fn enc_set_interval_response(out: &mut Vec<u8>, r: &Result<(), SetUpdateIntervalFailure>)
    ensures
        final(out)@ == old(out)@ + spec_enc_set_interval_response(set_interval_response_view(*r)),
{
    match r {
        Ok(_) => {
            out.push(0u8);
        },
        Err(f) => {
            out.push(1u8);
            enc_set_interval_failure(out, f);
        },
    }
    assert(final(out)@ =~= old(out)@ + spec_enc_set_interval_response(set_interval_response_view(*r)));
}

pub fn dec_set_interval_response(buf: &[u8], pos: usize) -> (r: Option<(Result<(), SetUpdateIntervalFailure>, usize)>)
    ensures
        match r {
            Some((v, end)) => spec_dec_set_interval_response(buf@, pos as int) == Some(
                (set_interval_response_view(v), end as int),
            ),
            None => spec_dec_set_interval_response(buf@, pos as int) is None,
        },
{
    if pos >= buf.len() {
        return None;
    }
    let tag = buf[pos];
    if tag == 0 {
        Some((Ok(()), pos + 1))
    } else if tag == 1 {
        match dec_set_interval_failure(buf, pos + 1) {
            None => None,
            Some((f, p1)) => Some((Err(f), p1)),
        }
    } else {
        None
    }
}

pub proof fn lemma_dec_enc_set_interval_response(bytes: Seq<u8>, pos: int, r: UnitResponseV<SetUpdateIntervalFailureV>)
    requires
        0 <= pos,
        set_interval_response_wf(r),
        pos + spec_enc_set_interval_response(r).len() <= bytes.len(),
        bytes.subrange(pos, pos + spec_enc_set_interval_response(r).len()) == spec_enc_set_interval_response(r),
    ensures
        spec_dec_set_interval_response(bytes, pos) == Some((r, pos + spec_enc_set_interval_response(r).len())),
{
    match r {
        UnitResponseV::Success => {
            assert(bytes[pos] == bytes.subrange(pos, pos + 1)[0]);
        },
        UnitResponseV::Failure(f) => {
            lemma_split2(bytes, pos, seq![1u8], spec_enc_set_interval_failure(f));
            assert(bytes[pos] == bytes.subrange(pos, pos + 1)[0]);
            lemma_dec_enc_set_interval_failure(bytes, pos + 1, f);
        },
    }
}

/// The ghost value of a `complete` response.
pub open spec fn complete_response_view(r: Result<(), CompleteJobFailure>) -> UnitResponseV<CompleteJobFailureV> {
    match r {
        Ok(_) => UnitResponseV::Success,
        Err(f) => UnitResponseV::Failure(f@),
    }
}

pub open spec fn spec_enc_complete_response(r: UnitResponseV<CompleteJobFailureV>) -> Seq<u8> {
    match r {
        UnitResponseV::Success => seq![0u8],
        UnitResponseV::Failure(f) => seq![1u8] + spec_enc_complete_failure(f),
    }
}

pub open spec fn spec_dec_complete_response(bytes: Seq<u8>, pos: int) -> Option<
    (UnitResponseV<CompleteJobFailureV>, int),
> {
    if 0 <= pos && pos + 1 <= bytes.len() {
        if bytes[pos] == 0u8 {
            Some((UnitResponseV::Success, pos + 1))
        } else if bytes[pos] == 1u8 {
            match spec_dec_complete_failure(bytes, pos + 1) {
                None => None,
                Some((f, p1)) => Some((UnitResponseV::Failure(f), p1)),
            }
        } else {
            None
        }
    } else {
        None
    }
}

pub open spec fn complete_response_wf(r: UnitResponseV<CompleteJobFailureV>) -> bool {
    r matches UnitResponseV::Failure(f) ==> complete_failure_wf(f)
}

pub fn enc_complete_response(out: &mut Vec<u8>, r: &Result<(), CompleteJobFailure>)
    ensures
        final(out)@ == old(out)@ + spec_enc_complete_response(complete_response_view(*r)),
{
    match r {
        Ok(_) => {
            out.push(0u8);
        },
        Err(f) => {
            out.push(1u8);
            enc_complete_failure(out, f);
        },
    }
    assert(final(out)@ =~= old(out)@ + spec_enc_complete_response(complete_response_view(*r)));
}

pub fn dec_complete_response(buf: &[u8], pos: usize) -> (r: Option<(Result<(), CompleteJobFailure>, usize)>)
    ensures
        match r {
            Some((v, end)) => spec_dec_complete_response(buf@, pos as int) == Some(
                (complete_response_view(v), end as int),
            ),
            None => spec_dec_complete_response(buf@, pos as int) is None,
        },
{
    if pos >= buf.len() {
        return None;
    }
    let tag = buf[pos];
    if tag == 0 {
        Some((Ok(()), pos + 1))
    } else if tag == 1 {
        match dec_complete_failure(buf, pos + 1) {
            None => None,
            Some((f, p1)) => Some((Err(f), p1)),
        }
    } else {
        None
    }
}

pub proof fn lemma_dec_enc_complete_response(bytes: Seq<u8>, pos: int, r: UnitResponseV<CompleteJobFailureV>)
    requires
        0 <= pos,
        complete_response_wf(r),
        pos + spec_enc_complete_response(r).len() <= bytes.len(),
        bytes.subrange(pos, pos + spec_enc_complete_response(r).len()) == spec_enc_complete_response(r),
    ensures
        spec_dec_complete_response(bytes, pos) == Some((r, pos + spec_enc_complete_response(r).len())),
{
    match r {
        UnitResponseV::Success => {
            assert(bytes[pos] == bytes.subrange(pos, pos + 1)[0]);
        },
        UnitResponseV::Failure(f) => {
            lemma_split2(bytes, pos, seq![1u8], spec_enc_complete_failure(f));
            assert(bytes[pos] == bytes.subrange(pos, pos + 1)[0]);
            lemma_dec_enc_complete_failure(bytes, pos + 1, f);
        },
    }
}

/// The ghost value of a `cancel` response.
pub open spec fn cancel_response_view(r: Result<(), CancelJobFailure>) -> UnitResponseV<CancelJobFailureV> {
    match r {
        Ok(_) => UnitResponseV::Success,
        Err(f) => UnitResponseV::Failure(f@),
    }
}

pub open spec fn spec_enc_cancel_response(r: UnitResponseV<CancelJobFailureV>) -> Seq<u8> {
    match r {
        UnitResponseV::Success => seq![0u8],
        UnitResponseV::Failure(f) => seq![1u8] + spec_enc_cancel_failure(f),
    }
}

pub open spec fn spec_dec_cancel_response(bytes: Seq<u8>, pos: int) -> Option<
    (UnitResponseV<CancelJobFailureV>, int),
> {
    if 0 <= pos && pos + 1 <= bytes.len() {
        if bytes[pos] == 0u8 {
            Some((UnitResponseV::Success, pos + 1))
        } else if bytes[pos] == 1u8 {
            match spec_dec_cancel_failure(bytes, pos + 1) {
                None => None,
                Some((f, p1)) => Some((UnitResponseV::Failure(f), p1)),
            }
        } else {
            None
        }
    } else {
        None
    }
}

pub open spec fn cancel_response_wf(r: UnitResponseV<CancelJobFailureV>) -> bool {
    r matches UnitResponseV::Failure(f) ==> cancel_failure_wf(f)
}

pub fn enc_cancel_response(out: &mut Vec<u8>, r: &Result<(), CancelJobFailure>)
    ensures
        final(out)@ == old(out)@ + spec_enc_cancel_response(cancel_response_view(*r)),
{
    match r {
        Ok(_) => {
            out.push(0u8);
        },
        Err(f) => {
            out.push(1u8);
            enc_cancel_failure(out, f);
        },
    }
    assert(final(out)@ =~= old(out)@ + spec_enc_cancel_response(cancel_response_view(*r)));
}

pub fn dec_cancel_response(buf: &[u8], pos: usize) -> (r: Option<(Result<(), CancelJobFailure>, usize)>)
    ensures
        match r {
            Some((v, end)) => spec_dec_cancel_response(buf@, pos as int) == Some(
                (cancel_response_view(v), end as int),
            ),
            None => spec_dec_cancel_response(buf@, pos as int) is None,
        },
{
    if pos >= buf.len() {
        return None;
    }
    let tag = buf[pos];
    if tag == 0 {
        Some((Ok(()), pos + 1))
    } else if tag == 1 {
        match dec_cancel_failure(buf, pos + 1) {
            None => None,
            Some((f, p1)) => Some((Err(f), p1)),
        }
    } else {
        None
    }
}

pub proof fn lemma_dec_enc_cancel_response(bytes: Seq<u8>, pos: int, r: UnitResponseV<CancelJobFailureV>)
    requires
        0 <= pos,
        cancel_response_wf(r),
        pos + spec_enc_cancel_response(r).len() <= bytes.len(),
        bytes.subrange(pos, pos + spec_enc_cancel_response(r).len()) == spec_enc_cancel_response(r),
    ensures
        spec_dec_cancel_response(bytes, pos) == Some((r, pos + spec_enc_cancel_response(r).len())),
{
    match r {
        UnitResponseV::Success => {
            assert(bytes[pos] == bytes.subrange(pos, pos + 1)[0]);
        },
        UnitResponseV::Failure(f) => {
            lemma_split2(bytes, pos, seq![1u8], spec_enc_cancel_failure(f));
            assert(bytes[pos] == bytes.subrange(pos, pos + 1)[0]);
            lemma_dec_enc_cancel_failure(bytes, pos + 1, f);
        },
    }
}

} // verus!

// === Status reports =======================================================

use crate::protocol::{JobError, JobErrorV, JobStatus, JobStatusV};
use crate::status::{BitsErrorContext, BitsJobProgress, BitsJobState, BitsJobTimes, FileTime};

verus! {

pub proof fn lemma_split5(
    bytes: Seq<u8>,
    pos: int,
    a: Seq<u8>,
    b: Seq<u8>,
    c: Seq<u8>,
    d: Seq<u8>,
    e: Seq<u8>,
)
    requires
        0 <= pos,
        pos + a.len() + b.len() + c.len() + d.len() + e.len() <= bytes.len(),
        bytes.subrange(pos, pos + a.len() + b.len() + c.len() + d.len() + e.len()) == a + b + c + d
            + e,
    ensures
        bytes.subrange(pos, pos + a.len()) == a,
        bytes.subrange(pos + a.len(), pos + a.len() + b.len()) == b,
        bytes.subrange(pos + a.len() + b.len(), pos + a.len() + b.len() + c.len()) == c,
        bytes.subrange(
            pos + a.len() + b.len() + c.len(),
            pos + a.len() + b.len() + c.len() + d.len(),
        ) == d,
        bytes.subrange(
            pos + a.len() + b.len() + c.len() + d.len(),
            pos + a.len() + b.len() + c.len() + d.len() + e.len(),
        ) == e,
{
    assert(a + b + c + d + e =~= a + (b + c + d + e));
    lemma_split2(bytes, pos, a, b + c + d + e);
    lemma_split4(bytes, pos + a.len(), b, c, d, e);
}

pub proof fn lemma_split6(
    bytes: Seq<u8>,
    pos: int,
    a: Seq<u8>,
    b: Seq<u8>,
    c: Seq<u8>,
    d: Seq<u8>,
    e: Seq<u8>,
    f: Seq<u8>,
)
    requires
        0 <= pos,
        pos + a.len() + b.len() + c.len() + d.len() + e.len() + f.len() <= bytes.len(),
        bytes.subrange(pos, pos + a.len() + b.len() + c.len() + d.len() + e.len() + f.len()) == a
            + b + c + d + e + f,
    ensures
        bytes.subrange(pos, pos + a.len()) == a,
        bytes.subrange(pos + a.len(), pos + a.len() + b.len()) == b,
        bytes.subrange(pos + a.len() + b.len(), pos + a.len() + b.len() + c.len()) == c,
        bytes.subrange(
            pos + a.len() + b.len() + c.len(),
            pos + a.len() + b.len() + c.len() + d.len(),
        ) == d,
        bytes.subrange(
            pos + a.len() + b.len() + c.len() + d.len(),
            pos + a.len() + b.len() + c.len() + d.len() + e.len(),
        ) == e,
        bytes.subrange(
            pos + a.len() + b.len() + c.len() + d.len() + e.len(),
            pos + a.len() + b.len() + c.len() + d.len() + e.len() + f.len(),
        ) == f,
{
    assert(a + b + c + d + e + f =~= a + (b + c + d + e + f));
    lemma_split2(bytes, pos, a, b + c + d + e + f);
    lemma_split5(bytes, pos + a.len(), b, c, d, e, f);
}

pub proof fn lemma_enc_u64_len(v: u64)
    ensures
        spec_enc_u64(v).len() == 8,
{
    lemma_enc_uint_len(v as int, 8);
}

// === BitsJobState =========================================================

pub open spec fn spec_enc_job_state(s: BitsJobState) -> Seq<u8> {
    match s {
        BitsJobState::Queued => seq![0u8],
        BitsJobState::Connecting => seq![1u8],
        BitsJobState::Transferring => seq![2u8],
        BitsJobState::Suspended => seq![3u8],
        BitsJobState::Error => seq![4u8],
        BitsJobState::TransientError => seq![5u8],
        BitsJobState::Transferred => seq![6u8],
        BitsJobState::Acknowledged => seq![7u8],
        BitsJobState::Cancelled => seq![8u8],
        BitsJobState::Other(code) => seq![9u8] + spec_enc_u32(code),
    }
}

pub open spec fn spec_dec_job_state(bytes: Seq<u8>, pos: int) -> Option<(BitsJobState, int)> {
    if 0 <= pos && pos + 1 <= bytes.len() {
        let tag = bytes[pos];
        if tag == 0u8 {
            Some((BitsJobState::Queued, pos + 1))
        } else if tag == 1u8 {
            Some((BitsJobState::Connecting, pos + 1))
        } else if tag == 2u8 {
            Some((BitsJobState::Transferring, pos + 1))
        } else if tag == 3u8 {
            Some((BitsJobState::Suspended, pos + 1))
        } else if tag == 4u8 {
            Some((BitsJobState::Error, pos + 1))
        } else if tag == 5u8 {
            Some((BitsJobState::TransientError, pos + 1))
        } else if tag == 6u8 {
            Some((BitsJobState::Transferred, pos + 1))
        } else if tag == 7u8 {
            Some((BitsJobState::Acknowledged, pos + 1))
        } else if tag == 8u8 {
            Some((BitsJobState::Cancelled, pos + 1))
        } else if tag == 9u8 {
            match spec_dec_u32(bytes, pos + 1) {
                None => None,
                Some((code, p1)) => Some((BitsJobState::Other(code), p1)),
            }
        } else {
            None
        }
    } else {
        None
    }
}

pub fn enc_job_state(out: &mut Vec<u8>, s: BitsJobState)
    ensures
        final(out)@ == old(out)@ + spec_enc_job_state(s),
{
    match s {
        BitsJobState::Queued => out.push(0u8),
        BitsJobState::Connecting => out.push(1u8),
        BitsJobState::Transferring => out.push(2u8),
        BitsJobState::Suspended => out.push(3u8),
        BitsJobState::Error => out.push(4u8),
        BitsJobState::TransientError => out.push(5u8),
        BitsJobState::Transferred => out.push(6u8),
        BitsJobState::Acknowledged => out.push(7u8),
        BitsJobState::Cancelled => out.push(8u8),
        BitsJobState::Other(code) => {
            out.push(9u8);
            enc_u32(out, code);
        },
    }
    assert(final(out)@ =~= old(out)@ + spec_enc_job_state(s));
}

pub fn dec_job_state(buf: &[u8], pos: usize) -> (r: Option<(BitsJobState, usize)>)
    ensures
        match r {
            Some((v, end)) => spec_dec_job_state(buf@, pos as int) == Some((v, end as int)),
            None => spec_dec_job_state(buf@, pos as int) is None,
        },
{
    if pos >= buf.len() {
        return None;
    }
    let tag = buf[pos];
    if tag == 0 {
        Some((BitsJobState::Queued, pos + 1))
    } else if tag == 1 {
        Some((BitsJobState::Connecting, pos + 1))
    } else if tag == 2 {
        Some((BitsJobState::Transferring, pos + 1))
    } else if tag == 3 {
        Some((BitsJobState::Suspended, pos + 1))
    } else if tag == 4 {
        Some((BitsJobState::Error, pos + 1))
    } else if tag == 5 {
        Some((BitsJobState::TransientError, pos + 1))
    } else if tag == 6 {
        Some((BitsJobState::Transferred, pos + 1))
    } else if tag == 7 {
        Some((BitsJobState::Acknowledged, pos + 1))
    } else if tag == 8 {
        Some((BitsJobState::Cancelled, pos + 1))
    } else if tag == 9 {
        match dec_u32(buf, pos + 1) {
            None => None,
            Some((code, p1)) => Some((BitsJobState::Other(code), p1)),
        }
    } else {
        None
    }
}

pub proof fn lemma_dec_enc_job_state(bytes: Seq<u8>, pos: int, s: BitsJobState)
    requires
        0 <= pos,
        pos + spec_enc_job_state(s).len() <= bytes.len(),
        bytes.subrange(pos, pos + spec_enc_job_state(s).len()) == spec_enc_job_state(s),
    ensures
        spec_dec_job_state(bytes, pos) == Some((s, pos + spec_enc_job_state(s).len())),
{
    match s {
        BitsJobState::Other(code) => {
            lemma_enc_u32_len(code);
            lemma_split2(bytes, pos, seq![9u8], spec_enc_u32(code));
            assert(bytes[pos] == bytes.subrange(pos, pos + 1)[0]);
            lemma_dec_enc_u32(bytes, pos + 1, code);
        },
        _ => {
            assert(bytes[pos] == bytes.subrange(pos, pos + 1)[0]);
        },
    }
}

// === BitsErrorContext =====================================================

pub open spec fn spec_enc_error_context(c: BitsErrorContext) -> Seq<u8> {
    match c {
        BitsErrorContext::NoContext => seq![0u8],
        BitsErrorContext::Unknown => seq![1u8],
        BitsErrorContext::GeneralQueueManager => seq![2u8],
        BitsErrorContext::QueueManagerNotification => seq![3u8],
        BitsErrorContext::LocalFile => seq![4u8],
        BitsErrorContext::RemoteFile => seq![5u8],
        BitsErrorContext::GeneralTransport => seq![6u8],
        BitsErrorContext::RemoteApplication => seq![7u8],
        BitsErrorContext::Other(code) => seq![8u8] + spec_enc_u32(code),
    }
}

pub open spec fn spec_dec_error_context(bytes: Seq<u8>, pos: int) -> Option<
    (BitsErrorContext, int),
> {
    if 0 <= pos && pos + 1 <= bytes.len() {
        let tag = bytes[pos];
        if tag == 0u8 {
            Some((BitsErrorContext::NoContext, pos + 1))
        } else if tag == 1u8 {
            Some((BitsErrorContext::Unknown, pos + 1))
        } else if tag == 2u8 {
            Some((BitsErrorContext::GeneralQueueManager, pos + 1))
        } else if tag == 3u8 {
            Some((BitsErrorContext::QueueManagerNotification, pos + 1))
        } else if tag == 4u8 {
            Some((BitsErrorContext::LocalFile, pos + 1))
        } else if tag == 5u8 {
            Some((BitsErrorContext::RemoteFile, pos + 1))
        } else if tag == 6u8 {
            Some((BitsErrorContext::GeneralTransport, pos + 1))
        } else if tag == 7u8 {
            Some((BitsErrorContext::RemoteApplication, pos + 1))
        } else if tag == 8u8 {
            match spec_dec_u32(bytes, pos + 1) {
                None => None,
                Some((code, p1)) => Some((BitsErrorContext::Other(code), p1)),
            }
        } else {
            None
        }
    } else {
        None
    }
}

pub fn enc_error_context(out: &mut Vec<u8>, c: BitsErrorContext)
    ensures
        final(out)@ == old(out)@ + spec_enc_error_context(c),
{
    match c {
        BitsErrorContext::NoContext => out.push(0u8),
        BitsErrorContext::Unknown => out.push(1u8),
        BitsErrorContext::GeneralQueueManager => out.push(2u8),
        BitsErrorContext::QueueManagerNotification => out.push(3u8),
        BitsErrorContext::LocalFile => out.push(4u8),
        BitsErrorContext::RemoteFile => out.push(5u8),
        BitsErrorContext::GeneralTransport => out.push(6u8),
        BitsErrorContext::RemoteApplication => out.push(7u8),
        BitsErrorContext::Other(code) => {
            out.push(8u8);
            enc_u32(out, code);
        },
    }
    assert(final(out)@ =~= old(out)@ + spec_enc_error_context(c));
}

pub fn dec_error_context(buf: &[u8], pos: usize) -> (r: Option<(BitsErrorContext, usize)>)
    ensures
        match r {
            Some((v, end)) => spec_dec_error_context(buf@, pos as int) == Some((v, end as int)),
            None => spec_dec_error_context(buf@, pos as int) is None,
        },
{
    if pos >= buf.len() {
        return None;
    }
    let tag = buf[pos];
    if tag == 0 {
        Some((BitsErrorContext::NoContext, pos + 1))
    } else if tag == 1 {
        Some((BitsErrorContext::Unknown, pos + 1))
    } else if tag == 2 {
        Some((BitsErrorContext::GeneralQueueManager, pos + 1))
    } else if tag == 3 {
        Some((BitsErrorContext::QueueManagerNotification, pos + 1))
    } else if tag == 4 {
        Some((BitsErrorContext::LocalFile, pos + 1))
    } else if tag == 5 {
        Some((BitsErrorContext::RemoteFile, pos + 1))
    } else if tag == 6 {
        Some((BitsErrorContext::GeneralTransport, pos + 1))
    } else if tag == 7 {
        Some((BitsErrorContext::RemoteApplication, pos + 1))
    } else if tag == 8 {
        match dec_u32(buf, pos + 1) {
            None => None,
            Some((code, p1)) => Some((BitsErrorContext::Other(code), p1)),
        }
    } else {
        None
    }
}

pub proof fn lemma_dec_enc_error_context(bytes: Seq<u8>, pos: int, c: BitsErrorContext)
    requires
        0 <= pos,
        pos + spec_enc_error_context(c).len() <= bytes.len(),
        bytes.subrange(pos, pos + spec_enc_error_context(c).len()) == spec_enc_error_context(c),
    ensures
        spec_dec_error_context(bytes, pos) == Some((c, pos + spec_enc_error_context(c).len())),
{
    match c {
        BitsErrorContext::Other(code) => {
            lemma_enc_u32_len(code);
            lemma_split2(bytes, pos, seq![8u8], spec_enc_u32(code));
            assert(bytes[pos] == bytes.subrange(pos, pos + 1)[0]);
            lemma_dec_enc_u32(bytes, pos + 1, code);
        },
        _ => {
            assert(bytes[pos] == bytes.subrange(pos, pos + 1)[0]);
        },
    }
}

// === FileTime and times ===================================================

pub open spec fn spec_enc_filetime(t: FileTime) -> Seq<u8> {
    spec_enc_u32(t.low) + spec_enc_u32(t.high)
}

pub open spec fn spec_dec_filetime(bytes: Seq<u8>, pos: int) -> Option<(FileTime, int)> {
    match spec_dec_u32(bytes, pos) {
        None => None,
        Some((low, p1)) => match spec_dec_u32(bytes, p1) {
            None => None,
            Some((high, p2)) => Some((FileTime { low, high }, p2)),
        },
    }
}

pub fn enc_filetime(out: &mut Vec<u8>, t: FileTime)
    ensures
        final(out)@ == old(out)@ + spec_enc_filetime(t),
{
    enc_u32(out, t.low);
    enc_u32(out, t.high);
    assert(final(out)@ =~= old(out)@ + spec_enc_filetime(t));
}

pub fn dec_filetime(buf: &[u8], pos: usize) -> (r: Option<(FileTime, usize)>)
    ensures
        match r {
            Some((v, end)) => spec_dec_filetime(buf@, pos as int) == Some((v, end as int)),
            None => spec_dec_filetime(buf@, pos as int) is None,
        },
{
    match dec_u32(buf, pos) {
        None => None,
        Some((low, p1)) => match dec_u32(buf, p1) {
            None => None,
            Some((high, p2)) => Some((FileTime { low, high }, p2)),
        },
    }
}

pub proof fn lemma_dec_enc_filetime(bytes: Seq<u8>, pos: int, t: FileTime)
    requires
        0 <= pos,
        pos + spec_enc_filetime(t).len() <= bytes.len(),
        bytes.subrange(pos, pos + spec_enc_filetime(t).len()) == spec_enc_filetime(t),
    ensures
        spec_dec_filetime(bytes, pos) == Some((t, pos + spec_enc_filetime(t).len())),
{
    lemma_enc_u32_len(t.low);
    lemma_enc_u32_len(t.high);
    lemma_split2(bytes, pos, spec_enc_u32(t.low), spec_enc_u32(t.high));
    lemma_dec_enc_u32(bytes, pos, t.low);
    lemma_dec_enc_u32(bytes, pos + 4, t.high);
}

pub proof fn lemma_enc_filetime_len(t: FileTime)
    ensures
        spec_enc_filetime(t).len() == 8,
{
    lemma_enc_u32_len(t.low);
    lemma_enc_u32_len(t.high);
}

pub open spec fn spec_enc_opt_filetime(t: Option<FileTime>) -> Seq<u8> {
    match t {
        None => seq![0u8],
        Some(x) => seq![1u8] + spec_enc_filetime(x),
    }
}

pub open spec fn spec_dec_opt_filetime(bytes: Seq<u8>, pos: int) -> Option<
    (Option<FileTime>, int),
> {
    if 0 <= pos && pos + 1 <= bytes.len() {
        if bytes[pos] == 0u8 {
            Some((None, pos + 1))
        } else if bytes[pos] == 1u8 {
            match spec_dec_filetime(bytes, pos + 1) {
                None => None,
                Some((x, p1)) => Some((Some(x), p1)),
            }
        } else {
            None
        }
    } else {
        None
    }
}

pub fn enc_opt_filetime(out: &mut Vec<u8>, t: &Option<FileTime>)
    ensures
        final(out)@ == old(out)@ + spec_enc_opt_filetime(*t),
{
    match t {
        None => out.push(0u8),
        Some(x) => {
            out.push(1u8);
            enc_filetime(out, *x);
        },
    }
    assert(final(out)@ =~= old(out)@ + spec_enc_opt_filetime(*t));
}

pub fn dec_opt_filetime(buf: &[u8], pos: usize) -> (r: Option<(Option<FileTime>, usize)>)
    ensures
        match r {
            Some((v, end)) => spec_dec_opt_filetime(buf@, pos as int) == Some((v, end as int)),
            None => spec_dec_opt_filetime(buf@, pos as int) is None,
        },
{
    if pos >= buf.len() {
        return None;
    }
    let b = buf[pos];
    if b == 0 {
        Some((None, pos + 1))
    } else if b == 1 {
        match dec_filetime(buf, pos + 1) {
            None => None,
            Some((x, p1)) => Some((Some(x), p1)),
        }
    } else {
        None
    }
}

pub proof fn lemma_dec_enc_opt_filetime(bytes: Seq<u8>, pos: int, t: Option<FileTime>)
    requires
        0 <= pos,
        pos + spec_enc_opt_filetime(t).len() <= bytes.len(),
        bytes.subrange(pos, pos + spec_enc_opt_filetime(t).len()) == spec_enc_opt_filetime(t),
    ensures
        spec_dec_opt_filetime(bytes, pos) == Some((t, pos + spec_enc_opt_filetime(t).len())),
{
    match t {
        None => {
            assert(bytes[pos] == bytes.subrange(pos, pos + 1)[0]);
        },
        Some(x) => {
            lemma_split2(bytes, pos, seq![1u8], spec_enc_filetime(x));
            assert(bytes[pos] == bytes.subrange(pos, pos + 1)[0]);
            lemma_dec_enc_filetime(bytes, pos + 1, x);
        },
    }
}

pub open spec fn spec_enc_times(t: BitsJobTimes) -> Seq<u8> {
    spec_enc_filetime(t.creation) + spec_enc_filetime(t.modification) + spec_enc_opt_filetime(
        t.transfer_completion,
    )
}

pub open spec fn spec_dec_times(bytes: Seq<u8>, pos: int) -> Option<(BitsJobTimes, int)> {
    match spec_dec_filetime(bytes, pos) {
        None => None,
        Some((creation, p1)) => match spec_dec_filetime(bytes, p1) {
            None => None,
            Some((modification, p2)) => match spec_dec_opt_filetime(bytes, p2) {
                None => None,
                Some((transfer_completion, p3)) => Some(
                    (BitsJobTimes { creation, modification, transfer_completion }, p3),
                ),
            },
        },
    }
}

pub fn enc_times(out: &mut Vec<u8>, t: &BitsJobTimes)
    ensures
        final(out)@ == old(out)@ + spec_enc_times(*t),
{
    enc_filetime(out, t.creation);
    enc_filetime(out, t.modification);
    enc_opt_filetime(out, &t.transfer_completion);
    assert(final(out)@ =~= old(out)@ + spec_enc_times(*t));
}

pub fn dec_times(buf: &[u8], pos: usize) -> (r: Option<(BitsJobTimes, usize)>)
    ensures
        match r {
            Some((v, end)) => spec_dec_times(buf@, pos as int) == Some((v, end as int)),
            None => spec_dec_times(buf@, pos as int) is None,
        },
{
    match dec_filetime(buf, pos) {
        None => None,
        Some((creation, p1)) => match dec_filetime(buf, p1) {
            None => None,
            Some((modification, p2)) => match dec_opt_filetime(buf, p2) {
                None => None,
                Some((transfer_completion, p3)) => Some(
                    (BitsJobTimes { creation, modification, transfer_completion }, p3),
                ),
            },
        },
    }
}

pub proof fn lemma_dec_enc_times(bytes: Seq<u8>, pos: int, t: BitsJobTimes)
    requires
        0 <= pos,
        pos + spec_enc_times(t).len() <= bytes.len(),
        bytes.subrange(pos, pos + spec_enc_times(t).len()) == spec_enc_times(t),
    ensures
        spec_dec_times(bytes, pos) == Some((t, pos + spec_enc_times(t).len())),
{
    let e1 = spec_enc_filetime(t.creation);
    let e2 = spec_enc_filetime(t.modification);
    let e3 = spec_enc_opt_filetime(t.transfer_completion);
    lemma_enc_filetime_len(t.creation);
    lemma_enc_filetime_len(t.modification);
    lemma_split3(bytes, pos, e1, e2, e3);
    lemma_dec_enc_filetime(bytes, pos, t.creation);
    lemma_dec_enc_filetime(bytes, pos + 8, t.modification);
    lemma_dec_enc_opt_filetime(bytes, pos + 16, t.transfer_completion);
}

// === Progress =============================================================

pub open spec fn spec_enc_opt_u64(v: Option<u64>) -> Seq<u8> {
    match v {
        None => seq![0u8],
        Some(x) => seq![1u8] + spec_enc_u64(x),
    }
}

pub open spec fn spec_dec_opt_u64(bytes: Seq<u8>, pos: int) -> Option<(Option<u64>, int)> {
    if 0 <= pos && pos + 1 <= bytes.len() {
        if bytes[pos] == 0u8 {
            Some((None, pos + 1))
        } else if bytes[pos] == 1u8 {
            match spec_dec_u64(bytes, pos + 1) {
                None => None,
                Some((x, p1)) => Some((Some(x), p1)),
            }
        } else {
            None
        }
    } else {
        None
    }
}

pub fn enc_opt_u64(out: &mut Vec<u8>, v: &Option<u64>)
    ensures
        final(out)@ == old(out)@ + spec_enc_opt_u64(*v),
{
    match v {
        None => out.push(0u8),
        Some(x) => {
            out.push(1u8);
            enc_u64(out, *x);
        },
    }
    assert(final(out)@ =~= old(out)@ + spec_enc_opt_u64(*v));
}

pub fn dec_opt_u64(buf: &[u8], pos: usize) -> (r: Option<(Option<u64>, usize)>)
    ensures
        match r {
            Some((v, end)) => spec_dec_opt_u64(buf@, pos as int) == Some((v, end as int)),
            None => spec_dec_opt_u64(buf@, pos as int) is None,
        },
{
    if pos >= buf.len() {
        return None;
    }
    let b = buf[pos];
    if b == 0 {
        Some((None, pos + 1))
    } else if b == 1 {
        match dec_u64(buf, pos + 1) {
            None => None,
            Some((x, p1)) => Some((Some(x), p1)),
        }
    } else {
        None
    }
}

pub proof fn lemma_dec_enc_opt_u64(bytes: Seq<u8>, pos: int, v: Option<u64>)
    requires
        0 <= pos,
        pos + spec_enc_opt_u64(v).len() <= bytes.len(),
        bytes.subrange(pos, pos + spec_enc_opt_u64(v).len()) == spec_enc_opt_u64(v),
    ensures
        spec_dec_opt_u64(bytes, pos) == Some((v, pos + spec_enc_opt_u64(v).len())),
{
    match v {
        None => {
            assert(bytes[pos] == bytes.subrange(pos, pos + 1)[0]);
        },
        Some(x) => {
            lemma_enc_u64_len(x);
            lemma_split2(bytes, pos, seq![1u8], spec_enc_u64(x));
            assert(bytes[pos] == bytes.subrange(pos, pos + 1)[0]);
            lemma_dec_enc_u64(bytes, pos + 1, x);
        },
    }
}

pub open spec fn spec_enc_progress(p: BitsJobProgress) -> Seq<u8> {
    spec_enc_opt_u64(p.total_bytes) + spec_enc_u64(p.transferred_bytes) + spec_enc_u32(
        p.total_files,
    ) + spec_enc_u32(p.transferred_files)
}

pub open spec fn spec_dec_progress(bytes: Seq<u8>, pos: int) -> Option<(BitsJobProgress, int)> {
    match spec_dec_opt_u64(bytes, pos) {
        None => None,
        Some((total_bytes, p1)) => match spec_dec_u64(bytes, p1) {
            None => None,
            Some((transferred_bytes, p2)) => match spec_dec_u32(bytes, p2) {
                None => None,
                Some((total_files, p3)) => match spec_dec_u32(bytes, p3) {
                    None => None,
                    Some((transferred_files, p4)) => Some(
                        (
                            BitsJobProgress {
                                total_bytes,
                                transferred_bytes,
                                total_files,
                                transferred_files,
                            },
                            p4,
                        ),
                    ),
                },
            },
        },
    }
}

pub fn enc_progress(out: &mut Vec<u8>, p: &BitsJobProgress)
    ensures
        final(out)@ == old(out)@ + spec_enc_progress(*p),
{
    enc_opt_u64(out, &p.total_bytes);
    enc_u64(out, p.transferred_bytes);
    enc_u32(out, p.total_files);
    enc_u32(out, p.transferred_files);
    assert(final(out)@ =~= old(out)@ + spec_enc_progress(*p));
}

pub fn dec_progress(buf: &[u8], pos: usize) -> (r: Option<(BitsJobProgress, usize)>)
    ensures
        match r {
            Some((v, end)) => spec_dec_progress(buf@, pos as int) == Some((v, end as int)),
            None => spec_dec_progress(buf@, pos as int) is None,
        },
{
    match dec_opt_u64(buf, pos) {
        None => None,
        Some((total_bytes, p1)) => match dec_u64(buf, p1) {
            None => None,
            Some((transferred_bytes, p2)) => match dec_u32(buf, p2) {
                None => None,
                Some((total_files, p3)) => match dec_u32(buf, p3) {
                    None => None,
                    Some((transferred_files, p4)) => Some(
                        (
                            BitsJobProgress {
                                total_bytes,
                                transferred_bytes,
                                total_files,
                                transferred_files,
                            },
                            p4,
                        ),
                    ),
                },
            },
        },
    }
}

pub proof fn lemma_dec_enc_progress(bytes: Seq<u8>, pos: int, p: BitsJobProgress)
    requires
        0 <= pos,
        pos + spec_enc_progress(p).len() <= bytes.len(),
        bytes.subrange(pos, pos + spec_enc_progress(p).len()) == spec_enc_progress(p),
    ensures
        spec_dec_progress(bytes, pos) == Some((p, pos + spec_enc_progress(p).len())),
{
    let e1 = spec_enc_opt_u64(p.total_bytes);
    let e2 = spec_enc_u64(p.transferred_bytes);
    let e3 = spec_enc_u32(p.total_files);
    let e4 = spec_enc_u32(p.transferred_files);
    lemma_enc_u64_len(p.transferred_bytes);
    lemma_enc_u32_len(p.total_files);
    lemma_enc_u32_len(p.transferred_files);
    lemma_split4(bytes, pos, e1, e2, e3, e4);
    lemma_dec_enc_opt_u64(bytes, pos, p.total_bytes);
    lemma_dec_enc_u64(bytes, pos + e1.len(), p.transferred_bytes);
    lemma_dec_enc_u32(bytes, pos + e1.len() + 8, p.total_files);
    lemma_dec_enc_u32(bytes, pos + e1.len() + 12, p.transferred_files);
}

} // verus!

verus! {

// === JobError and JobStatus ===============================================

pub open spec fn spec_enc_job_error(e: JobErrorV) -> Seq<u8> {
    spec_enc_error_context(e.context) + spec_enc_str(e.context_str) + spec_enc_hrm(e.error)
}

pub open spec fn spec_dec_job_error(bytes: Seq<u8>, pos: int) -> Option<(JobErrorV, int)> {
    match spec_dec_error_context(bytes, pos) {
        None => None,
        Some((context, p1)) => match spec_dec_str(bytes, p1) {
            None => None,
            Some((context_str, p2)) => match spec_dec_hrm(bytes, p2) {
                None => None,
                Some((error, p3)) => Some((JobErrorV { context, context_str, error }, p3)),
            },
        },
    }
}

pub open spec fn job_error_wf(e: JobErrorV) -> bool {
    str_fits(e.context_str) && hrm_wf(e.error)
}

pub fn enc_job_error(out: &mut Vec<u8>, e: &JobError)
    ensures
        final(out)@ == old(out)@ + spec_enc_job_error(e@),
{
    enc_error_context(out, e.context);
    enc_str(out, e.context_str.as_str());
    enc_hrm(out, &e.error);
    assert(final(out)@ =~= old(out)@ + spec_enc_job_error(e@));
}

pub fn dec_job_error(buf: &[u8], pos: usize) -> (r: Option<(JobError, usize)>)
    ensures
        match r {
            Some((v, end)) => spec_dec_job_error(buf@, pos as int) == Some((v@, end as int)),
            None => spec_dec_job_error(buf@, pos as int) is None,
        },
{
    match dec_error_context(buf, pos) {
        None => None,
        Some((context, p1)) => match dec_str(buf, p1) {
            None => None,
            Some((context_str, p2)) => match dec_hrm(buf, p2) {
                None => None,
                Some((error, p3)) => Some((JobError { context, context_str, error }, p3)),
            },
        },
    }
}

pub proof fn lemma_dec_enc_job_error(bytes: Seq<u8>, pos: int, e: JobErrorV)
    requires
        0 <= pos,
        job_error_wf(e),
        pos + spec_enc_job_error(e).len() <= bytes.len(),
        bytes.subrange(pos, pos + spec_enc_job_error(e).len()) == spec_enc_job_error(e),
    ensures
        spec_dec_job_error(bytes, pos) == Some((e, pos + spec_enc_job_error(e).len())),
{
    let e1 = spec_enc_error_context(e.context);
    let e2 = spec_enc_str(e.context_str);
    let e3 = spec_enc_hrm(e.error);
    lemma_split3(bytes, pos, e1, e2, e3);
    lemma_dec_enc_error_context(bytes, pos, e.context);
    lemma_dec_enc_str(bytes, pos + e1.len(), e.context_str);
    lemma_dec_enc_hrm(bytes, pos + e1.len() + e2.len(), e.error);
}

pub open spec fn spec_enc_opt_job_error(e: Option<JobErrorV>) -> Seq<u8> {
    match e {
        None => seq![0u8],
        Some(x) => seq![1u8] + spec_enc_job_error(x),
    }
}

pub open spec fn spec_dec_opt_job_error(bytes: Seq<u8>, pos: int) -> Option<
    (Option<JobErrorV>, int),
> {
    if 0 <= pos && pos + 1 <= bytes.len() {
        if bytes[pos] == 0u8 {
            Some((None, pos + 1))
        } else if bytes[pos] == 1u8 {
            match spec_dec_job_error(bytes, pos + 1) {
                None => None,
                Some((x, p1)) => Some((Some(x), p1)),
            }
        } else {
            None
        }
    } else {
        None
    }
}

pub fn enc_opt_job_error(out: &mut Vec<u8>, e: &Option<JobError>)
    ensures
        final(out)@ == old(out)@ + spec_enc_opt_job_error(
            match e {
                Some(x) => Some(x@),
                None => None,
            },
        ),
{
    match e {
        None => out.push(0u8),
        Some(x) => {
            out.push(1u8);
            enc_job_error(out, x);
        },
    }
    assert(final(out)@ =~= old(out)@ + spec_enc_opt_job_error(
        match e {
            Some(x) => Some(x@),
            None => None,
        },
    ));
}

pub fn dec_opt_job_error(buf: &[u8], pos: usize) -> (r: Option<(Option<JobError>, usize)>)
    ensures
        match r {
            Some((v, end)) => spec_dec_opt_job_error(buf@, pos as int) == Some(
                (
                    match v {
                        Some(x) => Some(x@),
                        None => None,
                    },
                    end as int,
                ),
            ),
            None => spec_dec_opt_job_error(buf@, pos as int) is None,
        },
{
    if pos >= buf.len() {
        return None;
    }
    let b = buf[pos];
    if b == 0 {
        Some((None, pos + 1))
    } else if b == 1 {
        match dec_job_error(buf, pos + 1) {
            None => None,
            Some((x, p1)) => Some((Some(x), p1)),
        }
    } else {
        None
    }
}

pub proof fn lemma_dec_enc_opt_job_error(bytes: Seq<u8>, pos: int, e: Option<JobErrorV>)
    requires
        0 <= pos,
        e matches Some(x) ==> job_error_wf(x),
        pos + spec_enc_opt_job_error(e).len() <= bytes.len(),
        bytes.subrange(pos, pos + spec_enc_opt_job_error(e).len()) == spec_enc_opt_job_error(e),
    ensures
        spec_dec_opt_job_error(bytes, pos) == Some((e, pos + spec_enc_opt_job_error(e).len())),
{
    match e {
        None => {
            assert(bytes[pos] == bytes.subrange(pos, pos + 1)[0]);
        },
        Some(x) => {
            lemma_split2(bytes, pos, seq![1u8], spec_enc_job_error(x));
            assert(bytes[pos] == bytes.subrange(pos, pos + 1)[0]);
            lemma_dec_enc_job_error(bytes, pos + 1, x);
        },
    }
}

pub open spec fn spec_enc_opt_str(s: Option<Seq<char>>) -> Seq<u8> {
    match s {
        None => seq![0u8],
        Some(x) => seq![1u8] + spec_enc_str(x),
    }
}

pub open spec fn spec_dec_opt_str(bytes: Seq<u8>, pos: int) -> Option<(Option<Seq<char>>, int)> {
    if 0 <= pos && pos + 1 <= bytes.len() {
        if bytes[pos] == 0u8 {
            Some((None, pos + 1))
        } else if bytes[pos] == 1u8 {
            match spec_dec_str(bytes, pos + 1) {
                None => None,
                Some((x, p1)) => Some((Some(x), p1)),
            }
        } else {
            None
        }
    } else {
        None
    }
}

pub fn enc_opt_str(out: &mut Vec<u8>, s: &Option<String>)
    ensures
        final(out)@ == old(out)@ + spec_enc_opt_str(
            match s {
                Some(x) => Some(x@),
                None => None,
            },
        ),
{
    match s {
        None => out.push(0u8),
        Some(x) => {
            out.push(1u8);
            enc_str(out, x.as_str());
        },
    }
    assert(final(out)@ =~= old(out)@ + spec_enc_opt_str(
        match s {
            Some(x) => Some(x@),
            None => None,
        },
    ));
}

pub fn dec_opt_str(buf: &[u8], pos: usize) -> (r: Option<(Option<String>, usize)>)
    ensures
        match r {
            Some((v, end)) => spec_dec_opt_str(buf@, pos as int) == Some(
                (
                    match v {
                        Some(ref x) => Some(x@),
                        None => None,
                    },
                    end as int,
                ),
            ),
            None => spec_dec_opt_str(buf@, pos as int) is None,
        },
{
    if pos >= buf.len() {
        return None;
    }
    let b = buf[pos];
    if b == 0 {
        Some((None, pos + 1))
    } else if b == 1 {
        match dec_str(buf, pos + 1) {
            None => None,
            Some((x, p1)) => Some((Some(x), p1)),
        }
    } else {
        None
    }
}

pub proof fn lemma_dec_enc_opt_str(bytes: Seq<u8>, pos: int, s: Option<Seq<char>>)
    requires
        0 <= pos,
        s matches Some(x) ==> str_fits(x),
        pos + spec_enc_opt_str(s).len() <= bytes.len(),
        bytes.subrange(pos, pos + spec_enc_opt_str(s).len()) == spec_enc_opt_str(s),
    ensures
        spec_dec_opt_str(bytes, pos) == Some((s, pos + spec_enc_opt_str(s).len())),
{
    match s {
        None => {
            assert(bytes[pos] == bytes.subrange(pos, pos + 1)[0]);
        },
        Some(x) => {
            lemma_split2(bytes, pos, seq![1u8], spec_enc_str(x));
            assert(bytes[pos] == bytes.subrange(pos, pos + 1)[0]);
            lemma_dec_enc_str(bytes, pos + 1, x);
        },
    }
}

pub open spec fn spec_enc_job_status(s: JobStatusV) -> Seq<u8> {
    spec_enc_job_state(s.state) + spec_enc_progress(s.progress) + spec_enc_u32(s.error_count)
        + spec_enc_opt_job_error(s.error) + spec_enc_times(s.times) + spec_enc_opt_str(s.url)
}

pub open spec fn spec_dec_job_status(bytes: Seq<u8>, pos: int) -> Option<(JobStatusV, int)> {
    match spec_dec_job_state(bytes, pos) {
        None => None,
        Some((state, p1)) => match spec_dec_progress(bytes, p1) {
            None => None,
            Some((progress, p2)) => match spec_dec_u32(bytes, p2) {
                None => None,
                Some((error_count, p3)) => match spec_dec_opt_job_error(bytes, p3) {
                    None => None,
                    Some((error, p4)) => match spec_dec_times(bytes, p4) {
                        None => None,
                        Some((times, p5)) => match spec_dec_opt_str(bytes, p5) {
                            None => None,
                            Some((url, p6)) => Some(
                                (
                                    JobStatusV {
                                        state,
                                        progress,
                                        error_count,
                                        error,
                                        times,
                                        url,
                                    },
                                    p6,
                                ),
                            ),
                        },
                    },
                },
            },
        },
    }
}

pub open spec fn job_status_wf(s: JobStatusV) -> bool {
    &&& (s.error matches Some(e) ==> job_error_wf(e))
    &&& (s.url matches Some(u) ==> str_fits(u))
}

pub fn enc_job_status(out: &mut Vec<u8>, s: &JobStatus)
    ensures
        final(out)@ == old(out)@ + spec_enc_job_status(s@),
{
    enc_job_state(out, s.state);
    enc_progress(out, &s.progress);
    enc_u32(out, s.error_count);
    enc_opt_job_error(out, &s.error);
    enc_times(out, &s.times);
    enc_opt_str(out, &s.url);
    assert(final(out)@ =~= old(out)@ + spec_enc_job_status(s@));
}

pub fn dec_job_status(buf: &[u8], pos: usize) -> (r: Option<(JobStatus, usize)>)
    ensures
        match r {
            Some((v, end)) => spec_dec_job_status(buf@, pos as int) == Some((v@, end as int)),
            None => spec_dec_job_status(buf@, pos as int) is None,
        },
{
    match dec_job_state(buf, pos) {
        None => None,
        Some((state, p1)) => match dec_progress(buf, p1) {
            None => None,
            Some((progress, p2)) => match dec_u32(buf, p2) {
                None => None,
                Some((error_count, p3)) => match dec_opt_job_error(buf, p3) {
                    None => None,
                    Some((error, p4)) => match dec_times(buf, p4) {
                        None => None,
                        Some((times, p5)) => match dec_opt_str(buf, p5) {
                            None => None,
                            Some((url, p6)) => Some(
                                (
                                    JobStatus {
                                        state,
                                        progress,
                                        error_count,
                                        error,
                                        times,
                                        url,
                                    },
                                    p6,
                                ),
                            ),
                        },
                    },
                },
            },
        },
    }
}

pub proof fn lemma_dec_enc_job_status(bytes: Seq<u8>, pos: int, s: JobStatusV)
    requires
        0 <= pos,
        job_status_wf(s),
        pos + spec_enc_job_status(s).len() <= bytes.len(),
        bytes.subrange(pos, pos + spec_enc_job_status(s).len()) == spec_enc_job_status(s),
    ensures
        spec_dec_job_status(bytes, pos) == Some((s, pos + spec_enc_job_status(s).len())),
{
    let e1 = spec_enc_job_state(s.state);
    let e2 = spec_enc_progress(s.progress);
    let e3 = spec_enc_u32(s.error_count);
    let e4 = spec_enc_opt_job_error(s.error);
    let e5 = spec_enc_times(s.times);
    let e6 = spec_enc_opt_str(s.url);
    lemma_enc_u32_len(s.error_count);
    lemma_split6(bytes, pos, e1, e2, e3, e4, e5, e6);
    lemma_dec_enc_job_state(bytes, pos, s.state);
    lemma_dec_enc_progress(bytes, pos + e1.len(), s.progress);
    lemma_dec_enc_u32(bytes, pos + e1.len() + e2.len(), s.error_count);
    lemma_dec_enc_opt_job_error(bytes, pos + e1.len() + e2.len() + 4, s.error);
    lemma_dec_enc_times(bytes, pos + e1.len() + e2.len() + 4 + e4.len(), s.times);
    lemma_dec_enc_opt_str(bytes, pos + e1.len() + e2.len() + 4 + e4.len() + e5.len(), s.url);
}

} // verus!

// === Frames ===============================================================

use crate::protocol::{ProtocolError, MAX_COMMAND, MAX_RESPONSE};

verus! {

/// A request frame holds exactly one encoded command.
pub open spec fn spec_dec_command_frame(bytes: Seq<u8>) -> Option<CommandV> {
    match spec_dec_command(bytes, 0) {
        Some((c, end)) => if end == bytes.len() {
            Some(c)
        } else {
            None
        },
        None => None,
    }
}

/// Encodes one command as a request frame, refusing one that would not fit.
pub fn encode_command_frame(c: &Command) -> (r: Result<Vec<u8>, ProtocolError>)
    ensures
        spec_enc_command(c@).len() <= MAX_COMMAND ==> (r matches Ok(v) && v@ == spec_enc_command(
            c@,
        )),
        spec_enc_command(c@).len() > MAX_COMMAND ==> (r matches Err(e) && e
            == ProtocolError::Oversized),
{
    let mut out: Vec<u8> = Vec::new();
    enc_command(&mut out, c);
    if out.len() <= MAX_COMMAND {
        Ok(out)
    } else {
        Err(ProtocolError::Oversized)
    }
}

/// Decodes a request frame into the one command it holds.
pub fn decode_command_frame(buf: &[u8]) -> (r: Result<Command, ProtocolError>)
    ensures
        match spec_dec_command_frame(buf@) {
            Some(cv) => r matches Ok(c) && c@ == cv,
            None => r matches Err(e) && e == ProtocolError::Undecodable,
        },
{
    match dec_command(buf, 0) {
        Some((c, end)) => {
            if end == buf.len() {
                Ok(c)
            } else {
                Err(ProtocolError::Undecodable)
            }
        },
        None => Err(ProtocolError::Undecodable),
    }
}

/// Decoding a command frame encoded from `c` yields `c` again: frames are
/// never merged, split or misread.
pub proof fn lemma_command_frame_round_trip(c: CommandV)
    requires
        command_wf(c),
    ensures
        spec_dec_command_frame(spec_enc_command(c)) == Some(c),
{
    let bytes = spec_enc_command(c);
    assert(bytes.subrange(0, bytes.len() as int) =~= bytes);
    lemma_dec_enc_command(bytes, 0, c);
}

/// A `start` response frame holds exactly one encoded response.
pub open spec fn spec_dec_start_response_frame(bytes: Seq<u8>) -> Option<
    Result<StartJobSuccess, StartJobFailureV>,
> {
    match spec_dec_start_response(bytes, 0) {
        Some((v, end)) => if end == bytes.len() {
            Some(v)
        } else {
            None
        },
        None => None,
    }
}

pub fn encode_start_response_frame(r: &Result<StartJobSuccess, StartJobFailure>) -> (res: Result<
    Vec<u8>,
    ProtocolError,
>)
    ensures
        spec_enc_start_response(start_response_view(*r)).len() <= MAX_RESPONSE ==> (res matches Ok(
            v,
        ) && v@ == spec_enc_start_response(start_response_view(*r))),
        spec_enc_start_response(start_response_view(*r)).len() > MAX_RESPONSE ==> (res matches Err(
            e,
        ) && e == ProtocolError::Oversized),
{
    let mut out: Vec<u8> = Vec::new();
    enc_start_response(&mut out, r);
    if out.len() <= MAX_RESPONSE {
        Ok(out)
    } else {
        Err(ProtocolError::Oversized)
    }
}

pub fn decode_start_response_frame(buf: &[u8]) -> (res: Result<
    Result<StartJobSuccess, StartJobFailure>,
    ProtocolError,
>)
    ensures
        match spec_dec_start_response_frame(buf@) {
            Some(rv) => res matches Ok(v) && start_response_view(v) == rv,
            None => res matches Err(e) && e == ProtocolError::Undecodable,
        },
{
    match dec_start_response(buf, 0) {
        Some((v, end)) => {
            if end == buf.len() {
                Ok(v)
            } else {
                Err(ProtocolError::Undecodable)
            }
        },
        None => Err(ProtocolError::Undecodable),
    }
}

/// Decoding a `start` response frame encoded from `r` yields `r` again.
pub proof fn lemma_start_response_frame_round_trip(r: Result<StartJobSuccess, StartJobFailureV>)
    requires
        start_response_wf(r),
    ensures
        spec_dec_start_response_frame(spec_enc_start_response(r)) == Some(r),
{
    let bytes = spec_enc_start_response(r);
    assert(bytes.subrange(0, bytes.len() as int) =~= bytes);
    lemma_dec_enc_start_response(bytes, 0, r);
}

/// A `monitor` response frame holds exactly one encoded response.
pub open spec fn spec_dec_monitor_response_frame(bytes: Seq<u8>) -> Option<UnitResponseV<MonitorJobFailureV>> {
    match spec_dec_monitor_response(bytes, 0) {
        Some((v, end)) => if end == bytes.len() {
            Some(v)
        } else {
            None
        },
        None => None,
    }
}

pub fn encode_monitor_response_frame(r: &Result<(), MonitorJobFailure>) -> (res: Result<Vec<u8>, ProtocolError>)
    ensures
        spec_enc_monitor_response(monitor_response_view(*r)).len() <= MAX_RESPONSE ==> (res matches Ok(
            v,
        ) && v@ == spec_enc_monitor_response(monitor_response_view(*r))),
        spec_enc_monitor_response(monitor_response_view(*r)).len() > MAX_RESPONSE ==> (res matches Err(
            e,
        ) && e == ProtocolError::Oversized),
{
    let mut out: Vec<u8> = Vec::new();
    enc_monitor_response(&mut out, r);
    if out.len() <= MAX_RESPONSE {
        Ok(out)
    } else {
        Err(ProtocolError::Oversized)
    }
}

pub fn decode_monitor_response_frame(buf: &[u8]) -> (res: Result<
    Result<(), MonitorJobFailure>,
    ProtocolError,
>)
    ensures
        match spec_dec_monitor_response_frame(buf@) {
            Some(rv) => res matches Ok(v) && monitor_response_view(v) == rv,
            None => res matches Err(e) && e == ProtocolError::Undecodable,
        },
{
    match dec_monitor_response(buf, 0) {
        Some((v, end)) => {
            if end == buf.len() {
                Ok(v)
            } else {
                Err(ProtocolError::Undecodable)
            }
        },
        None => Err(ProtocolError::Undecodable),
    }
}

/// Decoding a `monitor` response frame encoded from `r` yields `r` again.
pub proof fn lemma_monitor_response_frame_round_trip(r: UnitResponseV<MonitorJobFailureV>)
    requires
        monitor_response_wf(r),
    ensures
        spec_dec_monitor_response_frame(spec_enc_monitor_response(r)) == Some(r),
{
    let bytes = spec_enc_monitor_response(r);
    assert(bytes.subrange(0, bytes.len() as int) =~= bytes);
    lemma_dec_enc_monitor_response(bytes, 0, r);
}

/// A `suspend` response frame holds exactly one encoded response.
pub open spec fn spec_dec_suspend_response_frame(bytes: Seq<u8>) -> Option<UnitResponseV<SuspendJobFailureV>> {
    match spec_dec_suspend_response(bytes, 0) {
        Some((v, end)) => if end == bytes.len() {
            Some(v)
        } else {
            None
        },
        None => None,
    }
}

pub fn encode_suspend_response_frame(r: &Result<(), SuspendJobFailure>) -> (res: Result<Vec<u8>, ProtocolError>)
    ensures
        spec_enc_suspend_response(suspend_response_view(*r)).len() <= MAX_RESPONSE ==> (res matches Ok(
            v,
        ) && v@ == spec_enc_suspend_response(suspend_response_view(*r))),
        spec_enc_suspend_response(suspend_response_view(*r)).len() > MAX_RESPONSE ==> (res matches Err(
            e,
        ) && e == ProtocolError::Oversized),
{
    let mut out: Vec<u8> = Vec::new();
    enc_suspend_response(&mut out, r);
    if out.len() <= MAX_RESPONSE {
        Ok(out)
    } else {
        Err(ProtocolError::Oversized)
    }
}

pub fn decode_suspend_response_frame(buf: &[u8]) -> (res: Result<
    Result<(), SuspendJobFailure>,
    ProtocolError,
>)
    ensures
        match spec_dec_suspend_response_frame(buf@) {
            Some(rv) => res matches Ok(v) && suspend_response_view(v) == rv,
            None => res matches Err(e) && e == ProtocolError::Undecodable,
        },
{
    match dec_suspend_response(buf, 0) {
        Some((v, end)) => {
            if end == buf.len() {
                Ok(v)
            } else {
                Err(ProtocolError::Undecodable)
            }
        },
        None => Err(ProtocolError::Undecodable),
    }
}

/// Decoding a `suspend` response frame encoded from `r` yields `r` again.
pub proof fn lemma_suspend_response_frame_round_trip(r: UnitResponseV<SuspendJobFailureV>)
    requires
        suspend_response_wf(r),
    ensures
        spec_dec_suspend_response_frame(spec_enc_suspend_response(r)) == Some(r),
{
    let bytes = spec_enc_suspend_response(r);
    assert(bytes.subrange(0, bytes.len() as int) =~= bytes);
    lemma_dec_enc_suspend_response(bytes, 0, r);
}

/// A `resume` response frame holds exactly one encoded response.
pub open spec fn spec_dec_resume_response_frame(bytes: Seq<u8>) -> Option<UnitResponseV<ResumeJobFailureV>> {
    match spec_dec_resume_response(bytes, 0) {
        Some((v, end)) => if end == bytes.len() {
            Some(v)
        } else {
            None
        },
        None => None,
    }
}

pub fn encode_resume_response_frame(r: &Result<(), ResumeJobFailure>) -> (res: Result<Vec<u8>, ProtocolError>)
    ensures
        spec_enc_resume_response(resume_response_view(*r)).len() <= MAX_RESPONSE ==> (res matches Ok(
            v,
        ) && v@ == spec_enc_resume_response(resume_response_view(*r))),
        spec_enc_resume_response(resume_response_view(*r)).len() > MAX_RESPONSE ==> (res matches Err(
            e,
        ) && e == ProtocolError::Oversized),
{
    let mut out: Vec<u8> = Vec::new();
    enc_resume_response(&mut out, r);
    if out.len() <= MAX_RESPONSE {
        Ok(out)
    } else {
        Err(ProtocolError::Oversized)
    }
}

pub fn decode_resume_response_frame(buf: &[u8]) -> (res: Result<
    Result<(), ResumeJobFailure>,
    ProtocolError,
>)
    ensures
        match spec_dec_resume_response_frame(buf@) {
            Some(rv) => res matches Ok(v) && resume_response_view(v) == rv,
            None => res matches Err(e) && e == ProtocolError::Undecodable,
        },
{
    match dec_resume_response(buf, 0) {
        Some((v, end)) => {
            if end == buf.len() {
                Ok(v)
            } else {
                Err(ProtocolError::Undecodable)
            }
        },
        None => Err(ProtocolError::Undecodable),
    }
}

/// Decoding a `resume` response frame encoded from `r` yields `r` again.
pub proof fn lemma_resume_response_frame_round_trip(r: UnitResponseV<ResumeJobFailureV>)
    requires
        resume_response_wf(r),
    ensures
        spec_dec_resume_response_frame(spec_enc_resume_response(r)) == Some(r),
{
    let bytes = spec_enc_resume_response(r);
    assert(bytes.subrange(0, bytes.len() as int) =~= bytes);
    lemma_dec_enc_resume_response(bytes, 0, r);
}

/// A `set_priority` response frame holds exactly one encoded response.
pub open spec fn spec_dec_set_priority_response_frame(bytes: Seq<u8>) -> Option<UnitResponseV<SetJobPriorityFailureV>> {
    match spec_dec_set_priority_response(bytes, 0) {
        Some((v, end)) => if end == bytes.len() {
            Some(v)
        } else {
            None
        },
        None => None,
    }
}

pub fn encode_set_priority_response_frame(r: &Result<(), SetJobPriorityFailure>) -> (res: Result<Vec<u8>, ProtocolError>)
    ensures
        spec_enc_set_priority_response(set_priority_response_view(*r)).len() <= MAX_RESPONSE ==> (res matches Ok(
            v,
        ) && v@ == spec_enc_set_priority_response(set_priority_response_view(*r))),
        spec_enc_set_priority_response(set_priority_response_view(*r)).len() > MAX_RESPONSE ==> (res matches Err(
            e,
        ) && e == ProtocolError::Oversized),
{
    let mut out: Vec<u8> = Vec::new();
    enc_set_priority_response(&mut out, r);
    if out.len() <= MAX_RESPONSE {
        Ok(out)
    } else {
        Err(ProtocolError::Oversized)
    }
}

pub fn decode_set_priority_response_frame(buf: &[u8]) -> (res: Result<
    Result<(), SetJobPriorityFailure>,
    ProtocolError,
>)
    ensures
        match spec_dec_set_priority_response_frame(buf@) {
            Some(rv) => res matches Ok(v) && set_priority_response_view(v) == rv,
            None => res matches Err(e) && e == ProtocolError::Undecodable,
        },
{
    match dec_set_priority_response(buf, 0) {
        Some((v, end)) => {
            if end == buf.len() {
                Ok(v)
            } else {
                Err(ProtocolError::Undecodable)
            }
        },
        None => Err(ProtocolError::Undecodable),
    }
}

/// Decoding a `set_priority` response frame encoded from `r` yields `r` again.
pub proof fn lemma_set_priority_response_frame_round_trip(r: UnitResponseV<SetJobPriorityFailureV>)
    requires
        set_priority_response_wf(r),
    ensures
        spec_dec_set_priority_response_frame(spec_enc_set_priority_response(r)) == Some(r),
{
    let bytes = spec_enc_set_priority_response(r);
    assert(bytes.subrange(0, bytes.len() as int) =~= bytes);
    lemma_dec_enc_set_priority_response(bytes, 0, r);
}

/// A `set_interval` response frame holds exactly one encoded response.
pub open spec fn spec_dec_set_interval_response_frame(bytes: Seq<u8>) -> Option<UnitResponseV<SetUpdateIntervalFailureV>> {
    match spec_dec_set_interval_response(bytes, 0) {
        Some((v, end)) => if end == bytes.len() {
            Some(v)
        } else {
            None
        },
        None => None,
    }
}

pub fn encode_set_interval_response_frame(r: &Result<(), SetUpdateIntervalFailure>) -> (res: Result<Vec<u8>, ProtocolError>)
    ensures
        spec_enc_set_interval_response(set_interval_response_view(*r)).len() <= MAX_RESPONSE ==> (res matches Ok(
            v,
        ) && v@ == spec_enc_set_interval_response(set_interval_response_view(*r))),
        spec_enc_set_interval_response(set_interval_response_view(*r)).len() > MAX_RESPONSE ==> (res matches Err(
            e,
        ) && e == ProtocolError::Oversized),
{
    let mut out: Vec<u8> = Vec::new();
    enc_set_interval_response(&mut out, r);
    if out.len() <= MAX_RESPONSE {
        Ok(out)
    } else {
        Err(ProtocolError::Oversized)
    }
}

pub fn decode_set_interval_response_frame(buf: &[u8]) -> (res: Result<
    Result<(), SetUpdateIntervalFailure>,
    ProtocolError,
>)
    ensures
        match spec_dec_set_interval_response_frame(buf@) {
            Some(rv) => res matches Ok(v) && set_interval_response_view(v) == rv,
            None => res matches Err(e) && e == ProtocolError::Undecodable,
        },
{
    match dec_set_interval_response(buf, 0) {
        Some((v, end)) => {
            if end == buf.len() {
                Ok(v)
            } else {
                Err(ProtocolError::Undecodable)
            }
        },
        None => Err(ProtocolError::Undecodable),
    }
}

/// Decoding a `set_interval` response frame encoded from `r` yields `r` again.
pub proof fn lemma_set_interval_response_frame_round_trip(r: UnitResponseV<SetUpdateIntervalFailureV>)
    requires
        set_interval_response_wf(r),
    ensures
        spec_dec_set_interval_response_frame(spec_enc_set_interval_response(r)) == Some(r),
{
    let bytes = spec_enc_set_interval_response(r);
    assert(bytes.subrange(0, bytes.len() as int) =~= bytes);
    lemma_dec_enc_set_interval_response(bytes, 0, r);
}

/// A `complete` response frame holds exactly one encoded response.
pub open spec fn spec_dec_complete_response_frame(bytes: Seq<u8>) -> Option<UnitResponseV<CompleteJobFailureV>> {
    match spec_dec_complete_response(bytes, 0) {
        Some((v, end)) => if end == bytes.len() {
            Some(v)
        } else {
            None
        },
        None => None,
    }
}

pub fn encode_complete_response_frame(r: &Result<(), CompleteJobFailure>) -> (res: Result<Vec<u8>, ProtocolError>)
    ensures
        spec_enc_complete_response(complete_response_view(*r)).len() <= MAX_RESPONSE ==> (res matches Ok(
            v,
        ) && v@ == spec_enc_complete_response(complete_response_view(*r))),
        spec_enc_complete_response(complete_response_view(*r)).len() > MAX_RESPONSE ==> (res matches Err(
            e,
        ) && e == ProtocolError::Oversized),
{
    let mut out: Vec<u8> = Vec::new();
    enc_complete_response(&mut out, r);
    if out.len() <= MAX_RESPONSE {
        Ok(out)
    } else {
        Err(ProtocolError::Oversized)
    }
}

pub fn decode_complete_response_frame(buf: &[u8]) -> (res: Result<
    Result<(), CompleteJobFailure>,
    ProtocolError,
>)
    ensures
        match spec_dec_complete_response_frame(buf@) {
            Some(rv) => res matches Ok(v) && complete_response_view(v) == rv,
            None => res matches Err(e) && e == ProtocolError::Undecodable,
        },
{
    match dec_complete_response(buf, 0) {
        Some((v, end)) => {
            if end == buf.len() {
                Ok(v)
            } else {
                Err(ProtocolError::Undecodable)
            }
        },
        None => Err(ProtocolError::Undecodable),
    }
}

/// Decoding a `complete` response frame encoded from `r` yields `r` again.
pub proof fn lemma_complete_response_frame_round_trip(r: UnitResponseV<CompleteJobFailureV>)
    requires
        complete_response_wf(r),
    ensures
        spec_dec_complete_response_frame(spec_enc_complete_response(r)) == Some(r),
{
    let bytes = spec_enc_complete_response(r);
    assert(bytes.subrange(0, bytes.len() as int) =~= bytes);
    lemma_dec_enc_complete_response(bytes, 0, r);
}

/// A `cancel` response frame holds exactly one encoded response.
pub open spec fn spec_dec_cancel_response_frame(bytes: Seq<u8>) -> Option<UnitResponseV<CancelJobFailureV>> {
    match spec_dec_cancel_response(bytes, 0) {
        Some((v, end)) => if end == bytes.len() {
            Some(v)
        } else {
            None
        },
        None => None,
    }
}

pub fn encode_cancel_response_frame(r: &Result<(), CancelJobFailure>) -> (res: Result<Vec<u8>, ProtocolError>)
    ensures
        spec_enc_cancel_response(cancel_response_view(*r)).len() <= MAX_RESPONSE ==> (res matches Ok(
            v,
        ) && v@ == spec_enc_cancel_response(cancel_response_view(*r))),
        spec_enc_cancel_response(cancel_response_view(*r)).len() > MAX_RESPONSE ==> (res matches Err(
            e,
        ) && e == ProtocolError::Oversized),
{
    let mut out: Vec<u8> = Vec::new();
    enc_cancel_response(&mut out, r);
    if out.len() <= MAX_RESPONSE {
        Ok(out)
    } else {
        Err(ProtocolError::Oversized)
    }
}

pub fn decode_cancel_response_frame(buf: &[u8]) -> (res: Result<
    Result<(), CancelJobFailure>,
    ProtocolError,
>)
    ensures
        match spec_dec_cancel_response_frame(buf@) {
            Some(rv) => res matches Ok(v) && cancel_response_view(v) == rv,
            None => res matches Err(e) && e == ProtocolError::Undecodable,
        },
{
    match dec_cancel_response(buf, 0) {
        Some((v, end)) => {
            if end == buf.len() {
                Ok(v)
            } else {
                Err(ProtocolError::Undecodable)
            }
        },
        None => Err(ProtocolError::Undecodable),
    }
}

/// Decoding a `cancel` response frame encoded from `r` yields `r` again.
pub proof fn lemma_cancel_response_frame_round_trip(r: UnitResponseV<CancelJobFailureV>)
    requires
        cancel_response_wf(r),
    ensures
        spec_dec_cancel_response_frame(spec_enc_cancel_response(r)) == Some(r),
{
    let bytes = spec_enc_cancel_response(r);
    assert(bytes.subrange(0, bytes.len() as int) =~= bytes);
    lemma_dec_enc_cancel_response(bytes, 0, r);
}

/// A status frame on the monitor pipe holds exactly one encoded report.
pub open spec fn spec_dec_job_status_frame(bytes: Seq<u8>) -> Option<JobStatusV> {
    match spec_dec_job_status(bytes, 0) {
        Some((v, end)) => if end == bytes.len() {
            Some(v)
        } else {
            None
        },
        None => None,
    }
}

pub fn encode_job_status_frame(s: &JobStatus) -> (res: Result<Vec<u8>, ProtocolError>)
    ensures
        spec_enc_job_status(s@).len() <= MAX_RESPONSE ==> (res matches Ok(v) && v@
            == spec_enc_job_status(s@)),
        spec_enc_job_status(s@).len() > MAX_RESPONSE ==> (res matches Err(e) && e
            == ProtocolError::Oversized),
{
    let mut out: Vec<u8> = Vec::new();
    enc_job_status(&mut out, s);
    if out.len() <= MAX_RESPONSE {
        Ok(out)
    } else {
        Err(ProtocolError::Oversized)
    }
}

pub fn decode_job_status_frame(buf: &[u8]) -> (res: Result<JobStatus, ProtocolError>)
    ensures
        match spec_dec_job_status_frame(buf@) {
            Some(sv) => res matches Ok(s) && s@ == sv,
            None => res matches Err(e) && e == ProtocolError::Undecodable,
        },
{
    match dec_job_status(buf, 0) {
        Some((s, end)) => {
            if end == buf.len() {
                Ok(s)
            } else {
                Err(ProtocolError::Undecodable)
            }
        },
        None => Err(ProtocolError::Undecodable),
    }
}

/// Decoding a status frame encoded from `s` yields `s` again.
pub proof fn lemma_job_status_frame_round_trip(s: JobStatusV)
    requires
        job_status_wf(s),
    ensures
        spec_dec_job_status_frame(spec_enc_job_status(s)) == Some(s),
{
    let bytes = spec_enc_job_status(s);
    assert(bytes.subrange(0, bytes.len() as int) =~= bytes);
    lemma_dec_enc_job_status(bytes, 0, s);
}

} // verus!
