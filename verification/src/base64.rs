//! Standard base64 (RFC 4648 alphabet, `=` padding), used to hand captured
//! PNG frames back as text.

use vstd::prelude::*;
use crate::text::push_char;

verus! {

/// The character that encodes the 6-bit group `v` (0 ..= 63).
pub open spec fn sextet_char(v: int) -> char {
    if v < 26 {
        (v + 65) as char
    } else if v < 52 {
        (v - 26 + 97) as char
    } else if v < 62 {
        (v - 52 + 48) as char
    } else if v == 62 {
        '+'
    } else {
        '/'
    }
}

/// The four output characters of one input group: `n` (1, 2 or 3) real bytes
/// `b0 b1 b2`, read as one 24-bit number, missing bytes taken as zero, and
/// the output positions past the real data replaced by `=`.
pub open spec fn encode_group(b0: u8, b1: u8, b2: u8, n: int) -> Seq<char> {
    let v = b0 * 65536 + b1 * 256 + b2;
    seq![
        sextet_char(v / 262144),
        sextet_char((v / 4096) % 64),
        if n > 1 { sextet_char((v / 64) % 64) } else { '=' },
        if n > 2 { sextet_char(v % 64) } else { '=' },
    ]
}

/// Base64 text of `data`: each group of three bytes becomes four characters,
/// the final group of one or two bytes is padded with `=`.
pub open spec fn base64(data: Seq<u8>) -> Seq<char>
    decreases data.len(),
{
    if data.len() == 0 {
        seq![]
    } else if data.len() == 1 {
        encode_group(data[0], 0, 0, 1)
    } else if data.len() == 2 {
        encode_group(data[0], data[1], 0, 2)
    } else {
        encode_group(data[0], data[1], data[2], 3) + base64(data.skip(3))
    }
}

/// The characters that `base64` can produce.
pub open spec fn is_base64_char(c: char) -> bool {
    ('A' <= c <= 'Z') || ('a' <= c <= 'z') || ('0' <= c <= '9') || c == '+' || c == '/' || c == '='
}

proof fn lemma_group_bits(b0: u8, b1: u8, b2: u8)
    ensures
        (b0 >> 2u8) as int == (b0 * 65536 + b1 * 256 + b2) / 262144,
        (((b0 & 3u8) << 4u8) | (b1 >> 4u8)) as int == ((b0 * 65536 + b1 * 256 + b2) / 4096) % 64,
        (((b1 & 15u8) << 2u8) | (b2 >> 6u8)) as int == ((b0 * 65536 + b1 * 256 + b2) / 64) % 64,
        (b2 & 63u8) as int == (b0 * 65536 + b1 * 256 + b2) % 64,
{
    assert((b0 >> 2u8) as int == (b0 * 65536 + b1 * 256 + b2) / 262144) by (bit_vector);
    assert((((b0 & 3u8) << 4u8) | (b1 >> 4u8)) as int == ((b0 * 65536 + b1 * 256 + b2) / 4096)
        % 64) by (bit_vector);
    assert((((b1 & 15u8) << 2u8) | (b2 >> 6u8)) as int == ((b0 * 65536 + b1 * 256 + b2) / 64)
        % 64) by (bit_vector);
    assert((b2 & 63u8) as int == (b0 * 65536 + b1 * 256 + b2) % 64) by (bit_vector);
}

/// The alphabet character for a 6-bit group.
fn sextet(v: u8) -> (c: char)
    requires
        v < 64,
    ensures
        c == sextet_char(v as int),
{
    if v < 26 {
        (v + 65) as char
    } else if v < 52 {
        (v - 26 + 97) as char
    } else if v < 62 {
        (v - 52 + 48) as char
    } else if v == 62 {
        '+'
    } else {
        '/'
    }
}

/// Encodes `data` as base64 text with `=` padding.
pub fn base64_encode(data: &[u8]) -> (out: String)
    ensures
        out@ == base64(data@),
{
    let mut out = String::new();
    let len = data.len();
    let mut i: usize = 0;
    assert(data@.skip(0) =~= data@);
    while i < len
        invariant
            len == data@.len(),
            i <= len,
            out@ + base64(data@.skip(i as int)) == base64(data@),
        decreases len - i,
    {
        let rest = len - i;
        let b0 = data[i];
        let b1: u8 = if rest > 1 { data[i + 1] } else { 0 };
        let b2: u8 = if rest > 2 { data[i + 2] } else { 0 };
        proof {
            lemma_group_bits(b0, b1, b2);
        }
        let ghost before = out@;
        let ghost tail = data@.skip(i as int);
        let ghost n: int = if rest > 2 { 3 } else { rest as int };
        assert(0 <= (b0 >> 2u8) < 64 && 0 <= (((b0 & 3u8) << 4u8) | (b1 >> 4u8)) < 64
            && 0 <= (((b1 & 15u8) << 2u8) | (b2 >> 6u8)) < 64 && 0 <= (b2 & 63u8) < 64)
            by (bit_vector);
        push_char(&mut out, sextet(b0 >> 2));
        push_char(&mut out, sextet(((b0 & 3) << 4) | (b1 >> 4)));
        if rest > 1 {
            push_char(&mut out, sextet(((b1 & 15) << 2) | (b2 >> 6)));
        } else {
            push_char(&mut out, '=');
        }
        if rest > 2 {
            push_char(&mut out, sextet(b2 & 63));
        } else {
            push_char(&mut out, '=');
        }
        assert(out@ =~= before + encode_group(b0, b1, b2, n));
        if rest > 2 {
            assert(tail.skip(3) =~= data@.skip(i + 3));
            assert(base64(tail) == encode_group(tail[0], tail[1], tail[2], 3) + base64(tail.skip(3)));
            i = i + 3;
        } else {
            assert(base64(tail) == encode_group(b0, b1, b2, n));
            assert(data@.skip(len as int) =~= Seq::<u8>::empty());
            i = len;
        }
    }
    assert(data@.skip(len as int) =~= Seq::<u8>::empty());
    out
}

/// Law: the encoding of `n` bytes is `4 * ceil(n / 3)` characters long.
pub proof fn lemma_base64_len(data: Seq<u8>)
    ensures
        base64(data).len() == 4 * ((data.len() + 2) / 3),
    decreases data.len(),
{
    if data.len() >= 3 {
        lemma_base64_len(data.skip(3));
    }
}

proof fn lemma_sextet_char_in_alphabet(v: int)
    requires
        0 <= v < 64,
    ensures
        is_base64_char(sextet_char(v)),
        sextet_char(v) != '=',
{
}

proof fn lemma_group_in_alphabet(b0: u8, b1: u8, b2: u8, n: int)
    ensures
        forall|i: int| 0 <= i < 4 ==> is_base64_char(#[trigger] encode_group(b0, b1, b2, n)[i]),
{
    let v = b0 * 65536 + b1 * 256 + b2;
    assert(0 <= v / 262144 < 64);
    lemma_sextet_char_in_alphabet(v / 262144);
    lemma_sextet_char_in_alphabet((v / 4096) % 64);
    lemma_sextet_char_in_alphabet((v / 64) % 64);
    lemma_sextet_char_in_alphabet(v % 64);
}

/// Law: every character of an encoding is a letter, a digit, `+`, `/` or `=`.
pub proof fn lemma_base64_alphabet(data: Seq<u8>)
    ensures
        forall|i: int| 0 <= i < base64(data).len() ==> is_base64_char(#[trigger] base64(data)[i]),
    decreases data.len(),
{
    if data.len() == 0 {
    } else if data.len() == 1 {
        lemma_group_in_alphabet(data[0], 0, 0, 1);
    } else if data.len() == 2 {
        lemma_group_in_alphabet(data[0], data[1], 0, 2);
    } else {
        lemma_group_in_alphabet(data[0], data[1], data[2], 3);
        lemma_base64_alphabet(data.skip(3));
        let g = encode_group(data[0], data[1], data[2], 3);
        let t = base64(data.skip(3));
        assert forall|i: int| 0 <= i < base64(data).len() implies is_base64_char(
            #[trigger] base64(data)[i],
        ) by {
            if i < 4 {
                assert(base64(data)[i] == g[i]);
            } else {
                assert(base64(data)[i] == t[i - 4]);
            }
        }
    }
}

/// Law: input split after a whole number of 3-byte groups encodes piecewise,
/// so the encoding of a concatenation is the concatenation of the encodings.
pub proof fn lemma_base64_concat(a: Seq<u8>, b: Seq<u8>)
    requires
        a.len() % 3 == 0,
    ensures
        base64(a + b) == base64(a) + base64(b),
    decreases a.len(),
{
    if a.len() == 0 {
        assert(a + b =~= b);
        assert(base64(a) =~= Seq::<char>::empty());
        assert(base64(a) + base64(b) =~= base64(b));
    } else {
        let ab = a + b;
        assert(ab.skip(3) =~= a.skip(3) + b);
        lemma_base64_concat(a.skip(3), b);
        assert(ab[0] == a[0] && ab[1] == a[1] && ab[2] == a[2]);
        assert(base64(ab) =~= base64(a) + base64(b));
    }
}

proof fn lemma_sextet_char_injective(x: int, y: int)
    requires
        0 <= x < 64,
        0 <= y < 64,
        sextet_char(x) == sextet_char(y),
    ensures
        x == y,
{
}

proof fn lemma_group_injective(a0: u8, a1: u8, a2: u8, na: int, b0: u8, b1: u8, b2: u8, nb: int)
    requires
        1 <= na <= 3,
        1 <= nb <= 3,
        na < 3 ==> a2 == 0,
        na < 2 ==> a1 == 0,
        nb < 3 ==> b2 == 0,
        nb < 2 ==> b1 == 0,
        encode_group(a0, a1, a2, na) == encode_group(b0, b1, b2, nb),
    ensures
        na == nb,
        a0 == b0,
        a1 == b1,
        a2 == b2,
{
    let va = a0 * 65536 + a1 * 256 + a2;
    let vb = b0 * 65536 + b1 * 256 + b2;
    let ga = encode_group(a0, a1, a2, na);
    let gb = encode_group(b0, b1, b2, nb);
    assert(ga[0] == gb[0] && ga[1] == gb[1] && ga[2] == gb[2] && ga[3] == gb[3]);
    lemma_sextet_char_in_alphabet(va / 262144);
    lemma_sextet_char_in_alphabet((va / 4096) % 64);
    lemma_sextet_char_in_alphabet((va / 64) % 64);
    lemma_sextet_char_in_alphabet(va % 64);
    lemma_sextet_char_in_alphabet(vb / 262144);
    lemma_sextet_char_in_alphabet((vb / 4096) % 64);
    lemma_sextet_char_in_alphabet((vb / 64) % 64);
    lemma_sextet_char_in_alphabet(vb % 64);
    assert(na == nb);
    lemma_sextet_char_injective(va / 262144, vb / 262144);
    lemma_sextet_char_injective((va / 4096) % 64, (vb / 4096) % 64);
    if na > 1 {
        lemma_sextet_char_injective((va / 64) % 64, (vb / 64) % 64);
    }
    if na > 2 {
        lemma_sextet_char_injective(va % 64, vb % 64);
    }
    assert(va == vb) by (nonlinear_arith)
        requires
            0 <= va < 16777216,
            0 <= vb < 16777216,
            va / 262144 == vb / 262144,
            (va / 4096) % 64 == (vb / 4096) % 64,
            na > 1 ==> (va / 64) % 64 == (vb / 64) % 64,
            na > 2 ==> va % 64 == vb % 64,
            na <= 2 ==> va % 64 == 0 && vb % 64 == 0,
            na <= 1 ==> (va / 64) % 64 == 0 && (vb / 64) % 64 == 0,
    {
    }
    assert(a0 == b0 && a1 == b1 && a2 == b2) by (nonlinear_arith)
        requires
            va == a0 * 65536 + a1 * 256 + a2,
            vb == b0 * 65536 + b1 * 256 + b2,
            va == vb,
            0 <= a0 < 256, 0 <= a1 < 256, 0 <= a2 < 256,
            0 <= b0 < 256, 0 <= b1 < 256, 0 <= b2 < 256,
    {
    }
}

/// Law: the encoding loses nothing; distinct inputs have distinct encodings.
pub proof fn lemma_base64_injective(a: Seq<u8>, b: Seq<u8>)
    requires
        base64(a) == base64(b),
    ensures
        a == b,
    decreases a.len(),
{
    lemma_base64_len(a);
    lemma_base64_len(b);
    if a.len() == 0 {
        assert(b.len() == 0);
        assert(a =~= b);
    } else {
        assert(b.len() > 0);
        let na: int = if a.len() >= 3 { 3 } else { a.len() as int };
        let nb: int = if b.len() >= 3 { 3 } else { b.len() as int };
        let a0 = a[0];
        let a1: u8 = if na > 1 { a[1] } else { 0 };
        let a2: u8 = if na > 2 { a[2] } else { 0 };
        let b0 = b[0];
        let b1: u8 = if nb > 1 { b[1] } else { 0 };
        let b2: u8 = if nb > 2 { b[2] } else { 0 };
        let ga = encode_group(a0, a1, a2, na);
        let gb = encode_group(b0, b1, b2, nb);
        assert(base64(a).subrange(0, 4) =~= ga);
        assert(base64(b).subrange(0, 4) =~= gb);
        lemma_group_injective(a0, a1, a2, na, b0, b1, b2, nb);
        if a.len() >= 3 && b.len() >= 3 {
            assert(base64(a.skip(3)) =~= base64(a).skip(4));
            assert(base64(b.skip(3)) =~= base64(b).skip(4));
            lemma_base64_injective(a.skip(3), b.skip(3));
            assert(a =~= b) by {
                assert forall|i: int| 0 <= i < a.len() implies a[i] == b[i] by {
                    if i >= 3 {
                        assert(a[i] == a.skip(3)[i - 3]);
                        assert(b[i] == b.skip(3)[i - 3]);
                    }
                }
            }
        } else {
            assert(a.len() == b.len());
            assert(a =~= b);
        }
    }
}

/// The 6-bit group that an alphabet character stands for (0 for any other
/// character, `=` included).
pub open spec fn sextet_value(c: char) -> int {
    if 'A' <= c <= 'Z' {
        c as int - 65
    } else if 'a' <= c <= 'z' {
        c as int - 97 + 26
    } else if '0' <= c <= '9' {
        c as int - 48 + 52
    } else if c == '+' {
        62
    } else if c == '/' {
        63
    } else {
        0
    }
}

/// The bytes of one group of four characters: one byte where the third is
/// `=`, two where only the fourth is, three otherwise.
pub open spec fn decode_group(g: Seq<char>) -> Seq<u8> {
    let v = sextet_value(g[0]) * 262144 + sextet_value(g[1]) * 4096 + sextet_value(g[2]) * 64
        + sextet_value(g[3]);
    let b0 = (v / 65536) as u8;
    let b1 = ((v / 256) % 256) as u8;
    let b2 = (v % 256) as u8;
    if g[2] == '=' {
        seq![b0]
    } else if g[3] == '=' {
        seq![b0, b1]
    } else {
        seq![b0, b1, b2]
    }
}

/// Standard base64 decoding of text made of groups of four characters.
pub open spec fn base64_decode(text: Seq<char>) -> Seq<u8>
    decreases text.len(),
{
    if text.len() < 4 {
        Seq::empty()
    } else {
        decode_group(text.take(4)) + base64_decode(text.skip(4))
    }
}

proof fn lemma_sextet_round_trip(v: int)
    requires
        0 <= v < 64,
    ensures
        sextet_value(sextet_char(v)) == v,
{
}

proof fn lemma_group_round_trip(b0: u8, b1: u8, b2: u8, n: int)
    requires
        1 <= n <= 3,
        n < 3 ==> b2 == 0,
        n < 2 ==> b1 == 0,
    ensures
        decode_group(encode_group(b0, b1, b2, n)) == seq![b0, b1, b2].take(n),
{
    let v = b0 * 65536 + b1 * 256 + b2;
    let g = encode_group(b0, b1, b2, n);
    let s0 = v / 262144;
    let s1 = (v / 4096) % 64;
    let s2 = (v / 64) % 64;
    let s3 = v % 64;
    assert(0 <= s0 < 64 && 0 <= s1 < 64 && 0 <= s2 < 64 && 0 <= s3 < 64) by (nonlinear_arith)
        requires
            v == b0 * 65536 + b1 * 256 + b2,
            0 <= b0 < 256, 0 <= b1 < 256, 0 <= b2 < 256,
            s0 == v / 262144, s1 == (v / 4096) % 64, s2 == (v / 64) % 64, s3 == v % 64,
    {
    }
    lemma_sextet_round_trip(s0);
    lemma_sextet_round_trip(s1);
    lemma_sextet_round_trip(s2);
    lemma_sextet_round_trip(s3);
    lemma_sextet_char_in_alphabet(s2);
    lemma_sextet_char_in_alphabet(s3);
    assert(n < 3 ==> s3 == 0) by (nonlinear_arith)
        requires
            v == b0 * 65536 + b1 * 256 + b2,
            n < 3 ==> b2 == 0,
            s3 == v % 64,
    {
    }
    assert(n < 2 ==> s2 == 0) by (nonlinear_arith)
        requires
            v == b0 * 65536 + b1 * 256 + b2,
            n < 2 ==> b1 == 0 && b2 == 0,
            s2 == (v / 64) % 64,
    {
    }
    let w = sextet_value(g[0]) * 262144 + sextet_value(g[1]) * 4096 + sextet_value(g[2]) * 64
        + sextet_value(g[3]);
    assert(sextet_value(g[2]) == s2);
    assert(sextet_value(g[3]) == s3);
    assert(w == v) by (nonlinear_arith)
        requires
            w == s0 * 262144 + s1 * 4096 + s2 * 64 + s3,
            0 <= v < 16777216,
            s0 == v / 262144, s1 == (v / 4096) % 64, s2 == (v / 64) % 64, s3 == v % 64,
    {
    }
    assert(v / 65536 == b0 && (v / 256) % 256 == b1 && v % 256 == b2) by (nonlinear_arith)
        requires
            v == b0 * 65536 + b1 * 256 + b2,
            0 <= b0 < 256, 0 <= b1 < 256, 0 <= b2 < 256,
    {
    }
    assert(decode_group(g) =~= seq![b0, b1, b2].take(n));
}

/// Law: decoding an encoding gives back the bytes that were encoded.
pub proof fn lemma_base64_round_trip(data: Seq<u8>)
    ensures
        base64_decode(base64(data)) == data,
    decreases data.len(),
{
    let e = base64(data);
    if data.len() == 0 {
        assert(base64_decode(e) =~= data);
    } else {
        let n: int = if data.len() >= 3 { 3 } else { data.len() as int };
        let b1: u8 = if n > 1 { data[1] } else { 0 };
        let b2: u8 = if n > 2 { data[2] } else { 0 };
        let g = encode_group(data[0], b1, b2, n);
        let rest = data.skip(n);
        assert(e == g + base64(rest)) by {
            if n < 3 {
                assert(rest.len() == 0);
                assert(base64(rest) =~= Seq::<char>::empty());
                assert(g + base64(rest) =~= g);
            }
        }
        assert((g + base64(rest)).take(4) =~= g);
        assert((g + base64(rest)).skip(4) =~= base64(rest));
        assert(base64_decode(e) == decode_group(g) + base64_decode(base64(rest)));
        lemma_group_round_trip(data[0], b1, b2, n);
        lemma_base64_round_trip(rest);
        assert(seq![data[0], b1, b2].take(n) + rest =~= data);
    }
}

} // verus!
