//! 128-bit job identifiers.
//!
//! A job is correlated between the client and the transfer service by an
//! opaque 128-bit identifier, kept here as four plain integer fields in the
//! usual 4-2-2-8 layout so that contracts can speak about every bit of it.

use vstd::prelude::*;

use vstd::string::StringExecFns;

verus! {

/// A 128-bit identifier for a transfer job.
///
/// `data4` holds the final eight bytes in big-endian order, so the canonical
/// text form can be read off the fields directly.
#[derive(Clone, Copy, Debug, PartialEq, Eq, Structural)]
pub struct Guid {
    pub data1: u32,
    pub data2: u16,
    pub data3: u16,
    pub data4: u64,
}

/// The hex digit (lower case) for a value below 16.
pub open spec fn spec_hex_digit(v: int) -> char {
    if v == 0 {
        '0'
    } else if v == 1 {
        '1'
    } else if v == 2 {
        '2'
    } else if v == 3 {
        '3'
    } else if v == 4 {
        '4'
    } else if v == 5 {
        '5'
    } else if v == 6 {
        '6'
    } else if v == 7 {
        '7'
    } else if v == 8 {
        '8'
    } else if v == 9 {
        '9'
    } else if v == 10 {
        'a'
    } else if v == 11 {
        'b'
    } else if v == 12 {
        'c'
    } else if v == 13 {
        'd'
    } else if v == 14 {
        'e'
    } else {
        'f'
    }
}

/// `width` hex digits of `v`, most significant first.
pub open spec fn spec_hex(v: int, width: nat) -> Seq<char>
    decreases width,
{
    if width == 0 {
        Seq::empty()
    } else {
        spec_hex(v / 16, (width - 1) as nat).push(spec_hex_digit(v % 16))
    }
}

/// A lower-case hexadecimal digit.
pub open spec fn is_hex_digit(c: char) -> bool {
    ('0' <= c && c <= '9') || ('a' <= c && c <= 'f')
}

/// Hex text consists of hex digits, one per position.
pub proof fn lemma_spec_hex_digits(v: int, width: nat)
    ensures
        spec_hex(v, width).len() == width,
        forall|i: int| 0 <= i < width ==> is_hex_digit(#[trigger] spec_hex(v, width)[i]),
    decreases width,
{
    if width > 0 {
        lemma_spec_hex_digits(v / 16, (width - 1) as nat);
    }
}

/// The single-character text of one hex digit.
pub(crate) fn hex_digit_str(d: u64) -> (r: &'static str)
    requires
        d < 16,
    ensures
        r@ == seq![spec_hex_digit(d as int)],
{
    proof {
        reveal_strlit("0");
        reveal_strlit("1");
        reveal_strlit("2");
        reveal_strlit("3");
        reveal_strlit("4");
        reveal_strlit("5");
        reveal_strlit("6");
        reveal_strlit("7");
        reveal_strlit("8");
        reveal_strlit("9");
        reveal_strlit("a");
        reveal_strlit("b");
        reveal_strlit("c");
        reveal_strlit("d");
        reveal_strlit("e");
        reveal_strlit("f");
    }
    let r: &'static str = if d == 0 {
        "0"
    } else if d == 1 {
        "1"
    } else if d == 2 {
        "2"
    } else if d == 3 {
        "3"
    } else if d == 4 {
        "4"
    } else if d == 5 {
        "5"
    } else if d == 6 {
        "6"
    } else if d == 7 {
        "7"
    } else if d == 8 {
        "8"
    } else if d == 9 {
        "9"
    } else if d == 10 {
        "a"
    } else if d == 11 {
        "b"
    } else if d == 12 {
        "c"
    } else if d == 13 {
        "d"
    } else if d == 14 {
        "e"
    } else {
        "f"
    };
    assert(r@ =~= seq![spec_hex_digit(d as int)]);
    r
}

/// Appends `width` hex digits of `v`, most significant first.
pub(crate) fn push_hex(out: &mut String, v: u64, width: u8)
    requires
        width <= 16,
    ensures
        final(out)@ == old(out)@ + spec_hex(v as int, width as nat),
    decreases width,
{
    if width == 0 {
        assert(out@ =~= out@ + spec_hex(v as int, 0));
        return ;
    }
    push_hex(out, v / 16, (width - 1) as u8);
    let d: u64 = v % 16;
    out.append(hex_digit_str(d));
    assert(final(out)@ =~= old(out)@ + spec_hex(v as int, width as nat));
}

/// The braced text form of a `Guid`:
/// `{xxxxxxxx-xxxx-xxxx-xxxx-xxxxxxxxxxxx}` with lower-case hex digits.
pub open spec fn spec_guid_text(g: Guid) -> Seq<char> {
    seq!['{'] + spec_hex(g.data1 as int, 8) + seq!['-'] + spec_hex(g.data2 as int, 4) + seq!['-']
        + spec_hex(g.data3 as int, 4) + seq!['-'] + spec_hex((g.data4 >> 48) as int, 4)
        + seq!['-'] + spec_hex((g.data4 & 0xffff_ffff_ffff) as int, 12) + seq!['}']
}

impl Guid {
    /// The canonical braced text form, e.g.
    /// `{12345678-9abc-def0-1234-56789abcdef0}`.
    pub fn to_text(&self) -> (r: String)
        ensures
            r@ == spec_guid_text(*self),
    {
        proof {
            reveal_strlit("{");
            reveal_strlit("-");
            reveal_strlit("}");
        }
        let mut out = String::new();
        out.append("{");
        push_hex(&mut out, self.data1 as u64, 8);
        out.append("-");
        push_hex(&mut out, self.data2 as u64, 4);
        out.append("-");
        push_hex(&mut out, self.data3 as u64, 4);
        out.append("-");
        push_hex(&mut out, self.data4 >> 48, 4);
        out.append("-");
        push_hex(&mut out, self.data4 & 0xffff_ffff_ffff, 12);
        out.append("}");
        assert(out@ =~= spec_guid_text(*self));
        out
    }
}

} // verus!

verus! {

/// The numeric value of a lower-case hex digit; 16 marks a non-digit.
pub open spec fn spec_hex_val(c: char) -> int {
    if '0' <= c && c <= '9' {
        c as int - 48
    } else if 'a' <= c && c <= 'f' {
        c as int - 87
    } else {
        16
    }
}

pub proof fn lemma_hex_digit_val(d: int)
    requires
        0 <= d < 16,
    ensures
        spec_hex_val(spec_hex_digit(d)) == d,
{
}

pub proof fn lemma_hex_val_digit(c: char)
    requires
        is_hex_digit(c),
    ensures
        0 <= spec_hex_val(c) < 16,
        spec_hex_digit(spec_hex_val(c)) == c,
{
}

/// 16 to the `width`: the number of values `width` hex digits can spell.
pub open spec fn pow16(width: nat) -> int
    decreases width,
{
    if width == 0 {
        1
    } else {
        16 * pow16((width - 1) as nat)
    }
}

pub proof fn lemma_pow16_pos(width: nat)
    ensures
        pow16(width) >= 1,
    decreases width,
{
    if width > 0 {
        lemma_pow16_pos((width - 1) as nat);
    }
}

/// The value of hex text, most significant digit first.
pub open spec fn spec_hex_value(chars: Seq<char>) -> int
    decreases chars.len(),
{
    if chars.len() == 0 {
        0
    } else {
        spec_hex_value(chars.drop_last()) * 16 + spec_hex_val(chars.last())
    }
}

pub proof fn lemma_hex_value_bound(chars: Seq<char>)
    requires
        forall|i: int| 0 <= i < chars.len() ==> is_hex_digit(#[trigger] chars[i]),
    ensures
        0 <= spec_hex_value(chars) < pow16(chars.len()),
    decreases chars.len(),
{
    if chars.len() > 0 {
        let front = chars.drop_last();
        assert(forall|i: int| 0 <= i < front.len() ==> is_hex_digit(#[trigger] front[i]));
        lemma_hex_value_bound(front);
        lemma_hex_val_digit(chars.last());
    }
}

/// Writing a value back as hex text yields the text it was read from.
pub proof fn lemma_hex_value_enc(chars: Seq<char>)
    requires
        forall|i: int| 0 <= i < chars.len() ==> is_hex_digit(#[trigger] chars[i]),
    ensures
        spec_hex(spec_hex_value(chars), chars.len()) == chars,
    decreases chars.len(),
{
    if chars.len() > 0 {
        let front = chars.drop_last();
        let last = chars.last();
        assert(forall|i: int| 0 <= i < front.len() ==> is_hex_digit(#[trigger] front[i]));
        lemma_hex_value_enc(front);
        lemma_hex_value_bound(front);
        lemma_hex_val_digit(last);
        let v = spec_hex_value(chars);
        assert(v % 16 == spec_hex_val(last));
        assert(v / 16 == spec_hex_value(front));
        assert(spec_hex(v, chars.len()) =~= chars);
    }
}

/// Reading hex text back from a value yields the value.
pub proof fn lemma_hex_value_of_hex(v: int, width: nat)
    requires
        0 <= v < pow16(width),
    ensures
        spec_hex_value(spec_hex(v, width)) == v,
    decreases width,
{
    if width == 0 {
    } else {
        lemma_pow16_pos((width - 1) as nat);
        lemma_hex_value_of_hex(v / 16, (width - 1) as nat);
        lemma_hex_digit_val(v % 16);
        let text = spec_hex(v, width);
        assert(text.drop_last() =~= spec_hex(v / 16, (width - 1) as nat));
        assert(text.last() == spec_hex_digit(v % 16));
    }
}

/// The shape of a `Guid`'s text: 38 characters, braces, hyphens at the
/// fixed positions, hex digits everywhere else, spelling the four fields.
pub proof fn lemma_guid_text_shape(g: Guid)
    ensures
        spec_guid_text(g).len() == 38,
        spec_guid_text(g)[0] == '{',
        spec_guid_text(g)[9] == '-',
        spec_guid_text(g)[14] == '-',
        spec_guid_text(g)[19] == '-',
        spec_guid_text(g)[24] == '-',
        spec_guid_text(g)[37] == '}',
        forall|i: int|
            (1 <= i < 9 || 10 <= i < 14 || 15 <= i < 19 || 20 <= i < 24 || 25 <= i < 37)
                ==> is_hex_digit(#[trigger] spec_guid_text(g)[i]),
        spec_hex_value(spec_guid_text(g).subrange(1, 9)) == g.data1,
        spec_hex_value(spec_guid_text(g).subrange(10, 14)) == g.data2,
        spec_hex_value(spec_guid_text(g).subrange(15, 19)) == g.data3,
        spec_hex_value(spec_guid_text(g).subrange(20, 24)) == g.data4 >> 48,
        spec_hex_value(spec_guid_text(g).subrange(25, 37)) == g.data4 & 0xffff_ffff_ffff,
{
    let text = spec_guid_text(g);
    let h1 = spec_hex(g.data1 as int, 8);
    let h2 = spec_hex(g.data2 as int, 4);
    let h3 = spec_hex(g.data3 as int, 4);
    let h4 = spec_hex((g.data4 >> 48) as int, 4);
    let h5 = spec_hex((g.data4 & 0xffff_ffff_ffff) as int, 12);
    lemma_spec_hex_digits(g.data1 as int, 8);
    lemma_spec_hex_digits(g.data2 as int, 4);
    lemma_spec_hex_digits(g.data3 as int, 4);
    lemma_spec_hex_digits((g.data4 >> 48) as int, 4);
    lemma_spec_hex_digits((g.data4 & 0xffff_ffff_ffff) as int, 12);
    assert(text.subrange(1, 9) =~= h1);
    assert(text.subrange(10, 14) =~= h2);
    assert(text.subrange(15, 19) =~= h3);
    assert(text.subrange(20, 24) =~= h4);
    assert(text.subrange(25, 37) =~= h5);
    reveal_with_fuel(pow16, 13);
    let d4 = g.data4;
    assert((d4 >> 48) < 0x1_0000 && (d4 & 0xffff_ffff_ffff) < 0x1_0000_0000_0000) by (bit_vector);
    lemma_hex_value_of_hex(g.data1 as int, 8);
    lemma_hex_value_of_hex(g.data2 as int, 4);
    lemma_hex_value_of_hex(g.data3 as int, 4);
    lemma_hex_value_of_hex((g.data4 >> 48) as int, 4);
    lemma_hex_value_of_hex((g.data4 & 0xffff_ffff_ffff) as int, 12);
}

/// Upper-case hex digits folded to lower case; everything else unchanged.
pub open spec fn spec_lower_hex(c: char) -> char {
    if c == 'A' {
        'a'
    } else if c == 'B' {
        'b'
    } else if c == 'C' {
        'c'
    } else if c == 'D' {
        'd'
    } else if c == 'E' {
        'e'
    } else if c == 'F' {
        'f'
    } else {
        c
    }
}

pub open spec fn spec_lower_seq(s: Seq<char>) -> Seq<char> {
    s.map_values(|c: char| spec_lower_hex(c))
}

/// `s` equals `t` up to the case of hex digits (`t` canonical lower case).
pub open spec fn spec_matches_ci(s: Seq<char>, t: Seq<char>) -> bool {
    s.len() == t.len() && forall|i: int|
        0 <= i < s.len() ==> spec_lower_hex(#[trigger] s[i]) == t[i]
}

/// The texts that name `g`: its braced canonical text up to hex-digit
/// case, or the same text without the braces.
pub open spec fn spec_guid_text_accepted(s: Seq<char>, g: Guid) -> bool {
    spec_matches_ci(s, spec_guid_text(g)) || spec_matches_ci(s, spec_guid_text(g).subrange(1, 37))
}

/// The numeric value of one hex digit character, either case.
fn hex_val(c: char) -> (r: Option<u64>)
    ensures
        r is Some <==> is_hex_digit(spec_lower_hex(c)),
        r matches Some(v) ==> v == spec_hex_val(spec_lower_hex(c)) && v < 16,
{
    let u = c as u32;
    if 48 <= u && u <= 57 {
        Some((u - 48) as u64)
    } else if 97 <= u && u <= 102 {
        Some((u - 87) as u64)
    } else if 65 <= u && u <= 70 {
        Some((u - 55) as u64)
    } else {
        None
    }
}

/// Reads `width` hex digits of `s` (either case) starting at `start`,
/// most significant first.
fn parse_hex(s: &str, start: usize, width: usize) -> (r: Option<u64>)
    requires
        start + width <= s@.len(),
        start + width <= usize::MAX,
        width <= 16,
    ensures
        match r {
            Some(v) => (forall|i: int|
                start <= i < start + width ==> is_hex_digit(spec_lower_hex(#[trigger] s@[i])))
                && v == spec_hex_value(
                spec_lower_seq(s@.subrange(start as int, start as int + width as int)),
            ) && v < pow16(width as nat),
            None => exists|i: int|
                start <= i < start + width && !is_hex_digit(spec_lower_hex(#[trigger] s@[i])),
        },
{
    proof {
        reveal_with_fuel(pow16, 17);
    }
    let mut v: u64 = 0;
    let mut k: usize = 0;
    while k < width
        invariant
            start + width <= s@.len(),
            start + width <= usize::MAX,
            width <= 16,
            k <= width,
            forall|i: int| start <= i < start + k ==> is_hex_digit(spec_lower_hex(#[trigger] s@[i])),
            v == spec_hex_value(spec_lower_seq(s@.subrange(start as int, start as int + k as int))),
            v < pow16(k as nat),
            pow16(16) == 0x1_0000_0000_0000_0000,
        decreases width - k,
    {
        let c = s.get_char(start + k);
        match hex_val(c) {
            None => {
                return None;
            },
            Some(d) => {
                proof {
                    lemma_pow16_pos(k as nat);
                    lemma_pow16_mono_guid(k as nat, 15);
                    let pre = spec_lower_seq(s@.subrange(start as int, start as int + k as int));
                    let ext = spec_lower_seq(
                        s@.subrange(start as int, start as int + k as int + 1),
                    );
                    assert(ext.drop_last() =~= pre);
                    assert(ext.last() == spec_lower_hex(s@[start as int + k as int]));
                }
                v = v * 16 + d;
                k = k + 1;
            },
        }
    }
    proof {
        assert(s@.subrange(start as int, start as int + width as int) == s@.subrange(
            start as int,
            start as int + k as int,
        ));
    }
    Some(v)
}

pub proof fn lemma_pow16_mono_guid(w1: nat, w2: nat)
    requires
        w1 <= w2,
    ensures
        pow16(w1) <= pow16(w2),
    decreases w2,
{
    if w1 < w2 {
        lemma_pow16_mono_guid(w1, (w2 - 1) as nat);
        lemma_pow16_pos((w2 - 1) as nat);
    }
}

impl Guid {
    /// Reads a text form back: the braced canonical text with hex digits
    /// of either case, or the same text without braces.  `Some` exactly
    /// on the texts that name some identifier.
    pub fn from_text(s: &str) -> (r: Option<Guid>)
        ensures
            r matches Some(g) ==> spec_guid_text_accepted(s@, g),
            r is None ==> forall|g: Guid| !spec_guid_text_accepted(s@, g),
    {
        let n = s.unicode_len();
        let b: usize = if n == 38 {
            1
        } else if n == 36 {
            0
        } else {
            proof {
                assert forall|g: Guid| !spec_guid_text_accepted(s@, g) by {
                    lemma_guid_text_shape(g);
                }
            }
            return None;
        };
        let braces_ok = if b == 1 {
            s.get_char(0) == '{' && s.get_char(37) == '}'
        } else {
            true
        };
        if !(braces_ok && s.get_char(b + 8) == '-' && s.get_char(b + 13) == '-' && s.get_char(
            b + 18,
        ) == '-' && s.get_char(b + 23) == '-') {
            proof {
                assert forall|g: Guid| !spec_guid_text_accepted(s@, g) by {
                    lemma_guid_text_shape(g);
                }
            }
            return None;
        }
        let p1 = parse_hex(s, b, 8);
        let p2 = parse_hex(s, b + 9, 4);
        let p3 = parse_hex(s, b + 14, 4);
        let p4 = parse_hex(s, b + 19, 4);
        let p5 = parse_hex(s, b + 24, 12);
        match (p1, p2, p3, p4, p5) {
            (Some(v1), Some(v2), Some(v3), Some(v4), Some(v5)) => {
                proof {
                    reveal_with_fuel(pow16, 13);
                }
                let data4: u64 = (v4 << 48u64) | v5;
                let g = Guid { data1: v1 as u32, data2: v2 as u16, data3: v3 as u16, data4 };
                proof {
                    assert(data4 >> 48 == v4 && data4 & 0xffff_ffff_ffff == v5) by (bit_vector)
                        requires
                            data4 == (v4 << 48u64) | v5,
                            v4 < 0x1_0000,
                            v5 < 0x1_0000_0000_0000,
                    ;
                    lemma_guid_parse_assemble(
                        s@,
                        g,
                        b as int,
                        v1 as int,
                        v2 as int,
                        v3 as int,
                        v4 as int,
                        v5 as int,
                    );
                }
                Some(g)
            },
            _ => {
                proof {
                    assert forall|g: Guid| !spec_guid_text_accepted(s@, g) by {
                        lemma_guid_text_shape(g);
                    }
                }
                None
            },
        }
    }
}

/// A text of the right shape whose digit groups (after case folding)
/// spell the fields of `g` names `g`: it is the braced text up to case
/// when `b` is 1, the unbraced text up to case when `b` is 0.
proof fn lemma_guid_parse_assemble(
    s: Seq<char>,
    g: Guid,
    b: int,
    v1: int,
    v2: int,
    v3: int,
    v4: int,
    v5: int,
)
    requires
        b == 0 || b == 1,
        s.len() == 36 + 2 * b,
        b == 1 ==> s[0] == '{' && s[37] == '}',
        s[b + 8] == '-',
        s[b + 13] == '-',
        s[b + 18] == '-',
        s[b + 23] == '-',
        forall|i: int| b <= i < b + 8 ==> is_hex_digit(spec_lower_hex(#[trigger] s[i])),
        forall|i: int| b + 9 <= i < b + 13 ==> is_hex_digit(spec_lower_hex(#[trigger] s[i])),
        forall|i: int| b + 14 <= i < b + 18 ==> is_hex_digit(spec_lower_hex(#[trigger] s[i])),
        forall|i: int| b + 19 <= i < b + 23 ==> is_hex_digit(spec_lower_hex(#[trigger] s[i])),
        forall|i: int| b + 24 <= i < b + 36 ==> is_hex_digit(spec_lower_hex(#[trigger] s[i])),
        v1 == spec_hex_value(spec_lower_seq(s.subrange(b, b + 8))),
        v2 == spec_hex_value(spec_lower_seq(s.subrange(b + 9, b + 13))),
        v3 == spec_hex_value(spec_lower_seq(s.subrange(b + 14, b + 18))),
        v4 == spec_hex_value(spec_lower_seq(s.subrange(b + 19, b + 23))),
        v5 == spec_hex_value(spec_lower_seq(s.subrange(b + 24, b + 36))),
        g.data1 == v1,
        g.data2 == v2,
        g.data3 == v3,
        g.data4 >> 48 == v4,
        g.data4 & 0xffff_ffff_ffff == v5,
    ensures
        spec_guid_text_accepted(s, g),
{
    let s1 = spec_lower_seq(s.subrange(b, b + 8));
    let s2 = spec_lower_seq(s.subrange(b + 9, b + 13));
    let s3 = spec_lower_seq(s.subrange(b + 14, b + 18));
    let s4 = spec_lower_seq(s.subrange(b + 19, b + 23));
    let s5 = spec_lower_seq(s.subrange(b + 24, b + 36));
    assert(forall|i: int| 0 <= i < s1.len() ==> is_hex_digit(#[trigger] s1[i]));
    assert(forall|i: int| 0 <= i < s2.len() ==> is_hex_digit(#[trigger] s2[i]));
    assert(forall|i: int| 0 <= i < s3.len() ==> is_hex_digit(#[trigger] s3[i]));
    assert(forall|i: int| 0 <= i < s4.len() ==> is_hex_digit(#[trigger] s4[i]));
    assert(forall|i: int| 0 <= i < s5.len() ==> is_hex_digit(#[trigger] s5[i]));
    lemma_hex_value_enc(s1);
    lemma_hex_value_enc(s2);
    lemma_hex_value_enc(s3);
    lemma_hex_value_enc(s4);
    lemma_hex_value_enc(s5);
    assert(spec_hex(g.data1 as int, 8) == s1);
    assert(spec_hex(g.data2 as int, 4) == s2);
    assert(spec_hex(g.data3 as int, 4) == s3);
    assert(spec_hex((g.data4 >> 48) as int, 4) == s4);
    assert(spec_hex((g.data4 & 0xffff_ffff_ffff) as int, 12) == s5);
    let text = spec_guid_text(g);
    lemma_guid_text_shape(g);
    if b == 1 {
        assert(spec_matches_ci(s, text)) by {
            assert forall|i: int| 0 <= i < s.len() implies spec_lower_hex(#[trigger] s[i])
                == text[i] by {
                lemma_guid_region(s, g, b, i);
            }
        }
    } else {
        let t = text.subrange(1, 37);
        assert(spec_matches_ci(s, t)) by {
            assert forall|i: int| 0 <= i < s.len() implies spec_lower_hex(#[trigger] s[i])
                == t[i] by {
                assert(t[i] == text[i + 1]);
                lemma_guid_region(s, g, b, i);
            }
        }
    }
}

/// One position of the per-character comparison behind
/// `lemma_guid_parse_assemble`: the canonical text's character at the
/// position matching `s[i]` is `spec_lower_hex(s[i])`.
proof fn lemma_guid_region(s: Seq<char>, g: Guid, b: int, i: int)
    requires
        b == 0 || b == 1,
        s.len() == 36 + 2 * b,
        0 <= i < s.len(),
        b == 1 ==> s[0] == '{' && s[37] == '}',
        s[b + 8] == '-',
        s[b + 13] == '-',
        s[b + 18] == '-',
        s[b + 23] == '-',
        spec_hex(g.data1 as int, 8) == spec_lower_seq(s.subrange(b, b + 8)),
        spec_hex(g.data2 as int, 4) == spec_lower_seq(s.subrange(b + 9, b + 13)),
        spec_hex(g.data3 as int, 4) == spec_lower_seq(s.subrange(b + 14, b + 18)),
        spec_hex((g.data4 >> 48) as int, 4) == spec_lower_seq(s.subrange(b + 19, b + 23)),
        spec_hex((g.data4 & 0xffff_ffff_ffff) as int, 12) == spec_lower_seq(
            s.subrange(b + 24, b + 36),
        ),
    ensures
        spec_lower_hex(s[i]) == spec_guid_text(g)[i + 1 - b],
{
    let text = spec_guid_text(g);
    lemma_guid_text_shape(g);
    let j = i + 1 - b;
    if b <= i < b + 8 {
        assert(text.subrange(1, 9)[j - 1] == text[j]);
        assert(spec_lower_seq(s.subrange(b, b + 8))[i - b] == spec_lower_hex(s[i]));
    } else if b + 9 <= i < b + 13 {
        assert(text.subrange(10, 14)[j - 10] == text[j]);
        assert(spec_lower_seq(s.subrange(b + 9, b + 13))[i - (b + 9)] == spec_lower_hex(s[i]));
    } else if b + 14 <= i < b + 18 {
        assert(text.subrange(15, 19)[j - 15] == text[j]);
        assert(spec_lower_seq(s.subrange(b + 14, b + 18))[i - (b + 14)] == spec_lower_hex(s[i]));
    } else if b + 19 <= i < b + 23 {
        assert(text.subrange(20, 24)[j - 20] == text[j]);
        assert(spec_lower_seq(s.subrange(b + 19, b + 23))[i - (b + 19)] == spec_lower_hex(s[i]));
    } else if b + 24 <= i < b + 36 {
        assert(text.subrange(25, 37)[j - 25] == text[j]);
        assert(spec_lower_seq(s.subrange(b + 24, b + 36))[i - (b + 24)] == spec_lower_hex(s[i]));
    }
}

/// The canonical text always names its own identifier: writing a `Guid`
/// out and reading the text back is the identity.
pub proof fn lemma_guid_text_self_accepted(g: Guid)
    ensures
        spec_guid_text_accepted(spec_guid_text(g), g),
{
    lemma_guid_text_shape(g);
    let t = spec_guid_text(g);
    assert(spec_matches_ci(t, t)) by {
        assert forall|i: int| 0 <= i < t.len() implies spec_lower_hex(#[trigger] t[i]) == t[i] by {
            if 1 <= i < 9 || 10 <= i < 14 || 15 <= i < 19 || 20 <= i < 24 || 25 <= i < 37 {
                assert(is_hex_digit(t[i]));
            }
        }
    }
}

/// Distinct identifiers have distinct texts, so reading a text back
/// recovers exactly the identifier it was written from.
pub proof fn lemma_guid_text_injective(a: Guid, b: Guid)
    requires
        spec_guid_text(a) == spec_guid_text(b),
    ensures
        a == b,
{
    lemma_guid_text_shape(a);
    lemma_guid_text_shape(b);
    let d4a = a.data4;
    let d4b = b.data4;
    assert(d4a >> 48 == d4b >> 48 && (d4a & 0xffff_ffff_ffff) == (d4b & 0xffff_ffff_ffff)
        ==> d4a == d4b) by (bit_vector);
}

} // verus!
