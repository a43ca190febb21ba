//! Standard-alphabet base64: the encoder used for HTTP basic credentials
//! and the decoder used on file contents returned by the repository API.

use vstd::prelude::*;
use crate::text::push_char;
use vstd::string::StringSliceAdditionalSpecFns;

verus! {

/// The byte of the standard alphabet that stands for the six-bit value `v`.
pub open spec fn symbol_byte(v: u32) -> u8 {
    if v < 26 {
        (65 + v) as u8
    } else if v < 52 {
        (97 + (v - 26)) as u8
    } else if v < 62 {
        (48 + (v - 52)) as u8
    } else if v == 62 {
        43u8
    } else {
        47u8
    }
}

/// The six-bit value of an alphabet byte, or `None` for any other byte.
pub open spec fn symbol_value(b: u8) -> Option<u32> {
    if 65 <= b && b <= 90 {
        Some((b - 65) as u32)
    } else if 97 <= b && b <= 122 {
        Some((b - 71) as u32)
    } else if 48 <= b && b <= 57 {
        Some((b + 4) as u32)
    } else if b == 43 {
        Some(62u32)
    } else if b == 47 {
        Some(63u32)
    } else {
        None
    }
}

/// The 24-bit group formed by one to three input bytes (missing bytes are 0).
pub open spec fn group_bits(b: Seq<u8>) -> u32 {
    let b0 = b[0] as u32;
    let b1 = if b.len() > 1 { b[1] as u32 } else { 0u32 };
    let b2 = if b.len() > 2 { b[2] as u32 } else { 0u32 };
    (b0 << 16u32) | (b1 << 8u32) | b2
}

/// The four output characters of one to three input bytes, `=`-padded.
pub open spec fn encode_group(b: Seq<u8>) -> Seq<char> {
    let n = group_bits(b);
    seq![
        symbol_byte((n >> 18u32) & 0x3Fu32) as char,
        symbol_byte((n >> 12u32) & 0x3Fu32) as char,
        if b.len() > 1 { symbol_byte((n >> 6u32) & 0x3Fu32) as char } else { '=' },
        if b.len() > 2 { symbol_byte(n & 0x3Fu32) as char } else { '=' },
    ]
}

/// Base64 of a byte sequence: groups of three bytes, the last one padded.
pub open spec fn b64_encode(s: Seq<u8>) -> Seq<char>
    decreases s.len(),
{
    if s.len() == 0 {
        seq![]
    } else if s.len() <= 3 {
        encode_group(s)
    } else {
        encode_group(s.take(3)) + b64_encode(s.skip(3))
    }
}

/// The input with every `=` byte removed, wherever it stands.
pub open spec fn strip_padding(s: Seq<u8>) -> Seq<u8>
    decreases s.len(),
{
    if s.len() == 0 {
        seq![]
    } else if s.last() == 61u8 {
        strip_padding(s.drop_last())
    } else {
        strip_padding(s.drop_last()).push(s.last())
    }
}

/// Every byte belongs to the alphabet.
pub open spec fn all_symbols(s: Seq<u8>) -> bool {
    forall|i: int| 0 <= i < s.len() ==> (#[trigger] symbol_value(s[i])) is Some
}

/// The value of the `i`-th symbol of a group, 0 where the group is shorter.
pub open spec fn value_at(v: Seq<u8>, i: int) -> u32 {
    if i < v.len() {
        symbol_value(v[i]).unwrap()
    } else {
        0u32
    }
}

/// The 24 bits carried by one to four symbols.
pub open spec fn symbol_bits(v: Seq<u8>) -> u32 {
    (value_at(v, 0) << 18u32) | (value_at(v, 1) << 12u32) | (value_at(v, 2) << 6u32) | value_at(
        v,
        3,
    )
}

/// The bytes carried by one group of one to four symbols: the first byte
/// always, the second from three symbols on, the third from four.
pub open spec fn decode_group(v: Seq<u8>) -> Seq<u8> {
    let t = symbol_bits(v);
    seq![((t >> 16u32) & 0xFFu32) as u8] + (if v.len() > 2 {
        seq![((t >> 8u32) & 0xFFu32) as u8]
    } else {
        seq![]
    }) + (if v.len() > 3 {
        seq![(t & 0xFFu32) as u8]
    } else {
        seq![]
    })
}

/// Decoding of a padding-free symbol sequence, four symbols at a time.
pub open spec fn decode_groups(v: Seq<u8>) -> Seq<u8>
    decreases v.len(),
{
    if v.len() == 0 {
        seq![]
    } else if v.len() <= 4 {
        decode_group(v)
    } else {
        decode_group(v.take(4)) + decode_groups(v.skip(4))
    }
}

/// What decoding gives: `None` when a byte other than `=` lies outside the
/// alphabet, otherwise the bytes of the padding-free symbols.
pub open spec fn b64_decode(s: Seq<u8>) -> Option<Seq<u8>> {
    let t = strip_padding(s);
    if all_symbols(t) {
        Some(decode_groups(t))
    } else {
        None
    }
}

fn symbol(v: u32) -> (c: char)
    requires
        v < 64,
    ensures
        c == symbol_byte(v) as char,
{
    if v < 26 {
        ((65 + v) as u8) as char
    } else if v < 52 {
        ((97 + (v - 26)) as u8) as char
    } else if v < 62 {
        ((48 + (v - 52)) as u8) as char
    } else if v == 62 {
        '+'
    } else {
        '/'
    }
}

fn value_of(b: u8) -> (r: Option<u32>)
    ensures
        r == symbol_value(b),
{
    if 65 <= b && b <= 90 {
        Some((b - 65) as u32)
    } else if 97 <= b && b <= 122 {
        Some((b - 71) as u32)
    } else if 48 <= b && b <= 57 {
        Some((b + 4) as u32)
    } else if b == 43 {
        Some(62u32)
    } else if b == 47 {
        Some(63u32)
    } else {
        None
    }
}

/// Base64 of `input` in the standard alphabet with `=` padding.
pub fn basic_b64(input: &[u8]) -> (out: String)
    ensures
        out@ == b64_encode(input@),
{
    let mut out = String::new();
    let len = input.len();
    let mut i: usize = 0;
    assert(input@.skip(0) =~= input@);
    while i < len
        invariant
            len == input@.len(),
            i <= len,
            b64_encode(input@) == out@ + b64_encode(input@.skip(i as int)),
        decreases len - i,
    {
        let ghost rest = input@.skip(i as int);
        let k: usize = if len - i >= 3 { 3 } else { len - i };
        let b0 = input[i] as u32;
        let b1 = if k > 1 { input[i + 1] as u32 } else { 0u32 };
        let b2 = if k > 2 { input[i + 2] as u32 } else { 0u32 };
        let n: u32 = (b0 << 16u32) | (b1 << 8u32) | b2;
        assert((n >> 18u32) & 0x3Fu32 < 64 && (n >> 12u32) & 0x3Fu32 < 64 && (n >> 6u32) & 0x3Fu32
            < 64 && n & 0x3Fu32 < 64) by (bit_vector);
        let ghost grp = rest.take(k as int);
        assert(grp.len() == k);
        assert(group_bits(grp) == n);
        let ghost before = out@;
        push_char(&mut out, symbol((n >> 18u32) & 0x3Fu32));
        push_char(&mut out, symbol((n >> 12u32) & 0x3Fu32));
        if k > 1 {
            push_char(&mut out, symbol((n >> 6u32) & 0x3Fu32));
        } else {
            push_char(&mut out, '=');
        }
        if k > 2 {
            push_char(&mut out, symbol(n & 0x3Fu32));
        } else {
            push_char(&mut out, '=');
        }
        assert(out@ == before + encode_group(grp));
        proof {
            if rest.len() <= 3 {
                assert(grp == rest);
                assert(input@.skip((i + k) as int) =~= seq![]);
            } else {
                assert(rest.skip(3) =~= input@.skip((i + k) as int));
            }
        }
        i = i + k;
    }
    out
}

fn symbol_value_of(b: u8) -> (v: u32)
    requires
        symbol_value(b) is Some,
    ensures
        v == symbol_value(b).unwrap(),
        v < 64,
{
    match value_of(b) {
        Some(v) => v,
        None => 0,
    }
}

/// Decodes standard base64. Every `=` is skipped wherever it stands; any
/// other byte outside the alphabet is an error. Symbols are taken four at a
/// time; a final group of two or three symbols gives one or two bytes.
pub fn decode(s: &str) -> (r: Result<Vec<u8>, &'static str>)
    ensures
        match b64_decode(s.spec_bytes()) {
            Some(v) => r matches Ok(out) && out@ == v,
            None => r matches Err(e) && e@ == "invalid base64 character"@,
        },
{
    let raw = s.as_bytes();
    let ghost raw_s = raw@;
    let mut bytes: Vec<u8> = Vec::new();
    let mut i: usize = 0;
    while i < raw.len()
        invariant
            raw@ == raw_s,
            raw_s == s.spec_bytes(),
            i <= raw_s.len(),
            bytes@ == strip_padding(raw_s.take(i as int)),
        decreases raw_s.len() - i,
    {
        assert(raw_s.take(i + 1).drop_last() =~= raw_s.take(i as int));
        if raw[i] != 61u8 {
            bytes.push(raw[i]);
        }
        i = i + 1;
    }
    assert(raw_s.take(raw_s.len() as int) =~= raw_s);
    let ghost t = bytes@;
    let n = bytes.len();
    let mut j: usize = 0;
    while j < n
        invariant
            n == t.len(),
            t == strip_padding(s.spec_bytes()),
            bytes@ == t,
            j <= n,
            forall|k: int| 0 <= k < j ==> (#[trigger] symbol_value(t[k])) is Some,
        decreases n - j,
    {
        if value_of(bytes[j]).is_none() {
            assert(symbol_value(t[j as int]) is None);
            assert(!all_symbols(t));
            return Err("invalid base64 character");
        }
        j = j + 1;
    }
    let mut out: Vec<u8> = Vec::new();
    let mut i: usize = 0;
    assert(t.skip(0) =~= t);
    while i < n
        invariant
            n == t.len(),
            t == strip_padding(s.spec_bytes()),
            bytes@ == t,
            i <= n,
            all_symbols(t),
            decode_groups(t) == out@ + decode_groups(t.skip(i as int)),
        decreases n - i,
    {
        let ghost rest = t.skip(i as int);
        let k: usize = if n - i >= 4 { 4 } else { n - i };
        let ghost grp = rest.take(k as int);
        assert(grp.len() == k);
        let n0 = symbol_value_of(bytes[i]);
        let n1 = if k > 1 { symbol_value_of(bytes[i + 1]) } else { 0u32 };
        let n2 = if k > 2 { symbol_value_of(bytes[i + 2]) } else { 0u32 };
        let n3 = if k > 3 { symbol_value_of(bytes[i + 3]) } else { 0u32 };
        let triple: u32 = (n0 << 18u32) | (n1 << 12u32) | (n2 << 6u32) | n3;
        assert(value_at(grp, 0) == n0);
        assert(value_at(grp, 1) == n1);
        assert(value_at(grp, 2) == n2);
        assert(value_at(grp, 3) == n3);
        assert(symbol_bits(grp) == triple);
        let ghost before = out@;
        out.push((#[verifier::truncate] (((triple >> 16u32) & 0xFFu32) as u8)));
        if k > 2 {
            out.push((#[verifier::truncate] (((triple >> 8u32) & 0xFFu32) as u8)));
        }
        if k > 3 {
            out.push((#[verifier::truncate] ((triple & 0xFFu32) as u8)));
        }
        assert(out@ =~= before + decode_group(grp));
        proof {
            if rest.len() <= 4 {
                assert(grp == rest);
                assert(t.skip((i + k) as int) =~= seq![]);
            } else {
                assert(rest.skip(4) =~= t.skip((i + k) as int));
            }
        }
        i = i + k;
    }
    Ok(out)
}

/// The bytes of characters below 128, one byte each.
pub open spec fn ascii_bytes(cs: Seq<char>) -> Seq<u8> {
    Seq::new(cs.len(), |i: int| cs[i] as u8)
}

proof fn lemma_symbol_roundtrip(v: u32)
    requires
        v < 64,
    ensures
        symbol_value(symbol_byte(v)) == Some(v),
        symbol_byte(v) != 61u8,
        symbol_byte(v) < 128,
        (symbol_byte(v) as char) as u8 == symbol_byte(v),
{
}

proof fn lemma_encode_ascii(x: Seq<u8>)
    ensures
        vstd::utf8::is_ascii_chars(b64_encode(x)),
    decreases x.len(),
{
    let g = if x.len() <= 3 { x } else { x.take(3) };
    if x.len() > 0 {
        let n = group_bits(g);
        assert((n >> 18u32) & 0x3Fu32 < 64 && (n >> 12u32) & 0x3Fu32 < 64 && (n >> 6u32) & 0x3Fu32
            < 64 && n & 0x3Fu32 < 64) by (bit_vector);
        lemma_symbol_roundtrip((n >> 18u32) & 0x3Fu32);
        lemma_symbol_roundtrip((n >> 12u32) & 0x3Fu32);
        lemma_symbol_roundtrip((n >> 6u32) & 0x3Fu32);
        lemma_symbol_roundtrip(n & 0x3Fu32);
        let e = encode_group(g);
        assert(vstd::utf8::is_ascii_chars(e));
        if x.len() > 3 {
            lemma_encode_ascii(x.skip(3));
            vstd::utf8::is_ascii_chars_concat(b64_encode(x), e, b64_encode(x.skip(3)));
        }
    }
}

proof fn lemma_strip_concat(a: Seq<u8>, b: Seq<u8>)
    ensures
        strip_padding(a + b) == strip_padding(a) + strip_padding(b),
    decreases b.len(),
{
    if b.len() == 0 {
        assert(a + b =~= a);
        assert(strip_padding(a) + strip_padding(b) =~= strip_padding(a));
    } else {
        assert((a + b).drop_last() =~= a + b.drop_last());
        lemma_strip_concat(a, b.drop_last());
        if b.last() != 61u8 {
            assert(strip_padding(a) + strip_padding(b) =~= (strip_padding(a) + strip_padding(
                b.drop_last(),
            )).push(b.last()));
        }
    }
}

proof fn lemma_strip_none(a: Seq<u8>)
    requires
        forall|i: int| 0 <= i < a.len() ==> a[i] != 61u8,
    ensures
        strip_padding(a) == a,
    decreases a.len(),
{
    if a.len() > 0 {
        lemma_strip_none(a.drop_last());
        assert(a.drop_last().push(a.last()) =~= a);
    }
}

proof fn lemma_strip_pads(k: nat)
    requires
        k <= 2,
    ensures
        strip_padding(Seq::new(k, |i: int| 61u8)) == Seq::<u8>::empty(),
{
    reveal_with_fuel(strip_padding, 3);
    if k == 2 {
        assert(Seq::new(k, |i: int| 61u8).drop_last() =~= Seq::new(1, |i: int| 61u8));
        assert(Seq::new(1, |i: int| 61u8).drop_last() =~= Seq::<u8>::empty());
    } else if k == 1 {
        assert(Seq::new(1, |i: int| 61u8).drop_last() =~= Seq::<u8>::empty());
    }
}

proof fn lemma_group_roundtrip(g: Seq<u8>)
    requires
        1 <= g.len() <= 3,
    ensures
        ({
            let v = strip_padding(ascii_bytes(encode_group(g)));
            &&& all_symbols(v)
            &&& v.len() == g.len() + 1
            &&& decode_group(v) == g
        }),
{
    let b0 = g[0];
    let b1: u8 = if g.len() > 1 { g[1] } else { 0u8 };
    let b2: u8 = if g.len() > 2 { g[2] } else { 0u8 };
    let n = group_bits(g);
    assert(n == ((b0 as u32) << 16u32) | ((b1 as u32) << 8u32) | (b2 as u32));
    let v0 = (n >> 18u32) & 0x3Fu32;
    let v1 = (n >> 12u32) & 0x3Fu32;
    let v2 = (n >> 6u32) & 0x3Fu32;
    let v3 = n & 0x3Fu32;
    assert(v0 < 64 && v1 < 64 && v2 < 64 && v3 < 64) by (bit_vector)
        requires
            v0 == (n >> 18u32) & 0x3Fu32,
            v1 == (n >> 12u32) & 0x3Fu32,
            v2 == (n >> 6u32) & 0x3Fu32,
            v3 == n & 0x3Fu32,
    ;
    lemma_symbol_roundtrip(v0);
    lemma_symbol_roundtrip(v1);
    lemma_symbol_roundtrip(v2);
    lemma_symbol_roundtrip(v3);
    let s0 = symbol_byte(v0);
    let s1 = symbol_byte(v1);
    let s2 = symbol_byte(v2);
    let s3 = symbol_byte(v3);
    let k = g.len() + 1;
    let syms: Seq<u8> = if k == 2 {
        seq![s0, s1]
    } else if k == 3 {
        seq![s0, s1, s2]
    } else {
        seq![s0, s1, s2, s3]
    };
    let pads = Seq::new((4 - k) as nat, |i: int| 61u8);
    assert(ascii_bytes(encode_group(g)) =~= syms + pads);
    lemma_strip_concat(syms, pads);
    lemma_strip_none(syms);
    lemma_strip_pads((4 - k) as nat);
    let v = strip_padding(ascii_bytes(encode_group(g)));
    assert(v =~= syms);
    assert(all_symbols(v));
    assert(value_at(v, 0) == v0);
    assert(value_at(v, 1) == v1);
    assert(value_at(v, 2) == (if k > 2 { v2 } else { 0u32 }));
    assert(value_at(v, 3) == (if k > 3 { v3 } else { 0u32 }));
    let t = symbol_bits(v);
    if k == 4 {
        assert(((((v0 << 18u32) | (v1 << 12u32) | (v2 << 6u32) | v3) >> 16u32) & 0xFFu32) as u8
            == b0 && ((((v0 << 18u32) | (v1 << 12u32) | (v2 << 6u32) | v3) >> 8u32) & 0xFFu32) as u8
            == b1 && (((v0 << 18u32) | (v1 << 12u32) | (v2 << 6u32) | v3) & 0xFFu32) as u8 == b2)
            by (bit_vector)
            requires
                n == ((b0 as u32) << 16u32) | ((b1 as u32) << 8u32) | (b2 as u32),
                v0 == (n >> 18u32) & 0x3Fu32,
                v1 == (n >> 12u32) & 0x3Fu32,
                v2 == (n >> 6u32) & 0x3Fu32,
                v3 == n & 0x3Fu32,
        ;
        assert(decode_group(v) =~= g);
    } else if k == 3 {
        assert(((((v0 << 18u32) | (v1 << 12u32) | (v2 << 6u32) | 0u32) >> 16u32) & 0xFFu32) as u8
            == b0 && ((((v0 << 18u32) | (v1 << 12u32) | (v2 << 6u32) | 0u32) >> 8u32) & 0xFFu32)
            as u8 == b1) by (bit_vector)
            requires
                n == ((b0 as u32) << 16u32) | ((b1 as u32) << 8u32) | (b2 as u32),
                b2 == 0,
                v0 == (n >> 18u32) & 0x3Fu32,
                v1 == (n >> 12u32) & 0x3Fu32,
                v2 == (n >> 6u32) & 0x3Fu32,
        ;
        assert(decode_group(v) =~= g);
    } else {
        assert(((((v0 << 18u32) | (v1 << 12u32) | (0u32 << 6u32) | 0u32) >> 16u32) & 0xFFu32)
            as u8 == b0) by (bit_vector)
            requires
                n == ((b0 as u32) << 16u32) | ((b1 as u32) << 8u32) | (b2 as u32),
                b1 == 0,
                b2 == 0,
                v0 == (n >> 18u32) & 0x3Fu32,
                v1 == (n >> 12u32) & 0x3Fu32,
        ;
        assert(decode_group(v) =~= g);
    }
}

proof fn lemma_roundtrip_symbols(x: Seq<u8>)
    ensures
        ({
            let v = strip_padding(ascii_bytes(b64_encode(x)));
            &&& all_symbols(v)
            &&& decode_groups(v) == x
            &&& (x.len() > 0 ==> v.len() >= 2)
        }),
    decreases x.len(),
{
    if x.len() == 0 {
        assert(ascii_bytes(b64_encode(x)) =~= Seq::<u8>::empty());
    } else if x.len() <= 3 {
        lemma_group_roundtrip(x);
    } else {
        let g = x.take(3);
        let r = x.skip(3);
        lemma_group_roundtrip(g);
        lemma_roundtrip_symbols(r);
        let a = ascii_bytes(encode_group(g));
        let b = ascii_bytes(b64_encode(r));
        assert(ascii_bytes(b64_encode(x)) =~= a + b);
        lemma_strip_concat(a, b);
        let va = strip_padding(a);
        let vb = strip_padding(b);
        let v = va + vb;
        assert(v.take(4) =~= va);
        assert(v.skip(4) =~= vb);
        assert(all_symbols(v)) by {
            assert forall|i: int| 0 <= i < v.len() implies (#[trigger] symbol_value(v[i])) is Some by {
                if i < 4 {
                    assert(v[i] == va[i]);
                    assert(symbol_value(va[i]) is Some);
                } else {
                    assert(v[i] == vb[i - 4]);
                    assert(symbol_value(vb[i - 4]) is Some);
                }
            }
        }
        assert(g + r =~= x);
    }
}

/// Law: decoding undoes encoding. For every byte sequence `x`, decoding the
/// UTF-8 bytes of the base64 text of `x` succeeds and gives `x` back.
pub proof fn law_decode_inverts_encode(x: Seq<u8>)
    ensures
        b64_decode(vstd::utf8::encode_utf8(b64_encode(x))) == Some(x),
{
    let e = b64_encode(x);
    lemma_encode_ascii(x);
    vstd::utf8::is_ascii_chars_encode_utf8(e);
    assert(vstd::utf8::encode_utf8(e) =~= ascii_bytes(e));
    lemma_roundtrip_symbols(x);
}


/// The standard base64 alphabet, written out: the byte at position `v`
/// stands for the six-bit value `v`.
pub open spec fn standard_alphabet() -> Seq<u8> {
    seq![65u8, 66u8, 67u8, 68u8, 69u8, 70u8, 71u8, 72u8, 73u8, 74u8, 75u8, 76u8, 77u8, 78u8, 79u8, 80u8, 81u8, 82u8, 83u8, 84u8, 85u8, 86u8, 87u8, 88u8, 89u8, 90u8, 97u8, 98u8, 99u8, 100u8, 101u8, 102u8, 103u8, 104u8, 105u8, 106u8, 107u8, 108u8, 109u8, 110u8, 111u8, 112u8, 113u8, 114u8, 115u8, 116u8, 117u8, 118u8, 119u8, 120u8, 121u8, 122u8, 48u8, 49u8, 50u8, 51u8, 52u8, 53u8, 54u8, 55u8, 56u8, 57u8, 43u8, 47u8]
}

/// The alphabet is the standard one: every six-bit value `v` is written as
/// the `v`-th byte of `ABC…XYZabc…xyz0…9+/` (so `+` is 62 and `/` is 63),
/// and that byte decodes back to `v`; `=` and every byte outside the
/// alphabet decode to nothing.
pub proof fn law_standard_alphabet()
    ensures
        standard_alphabet().len() == 64,
        forall|v: int|
            0 <= v < 64 ==> symbol_byte(v as u32) == #[trigger] standard_alphabet()[v]
                && symbol_value(standard_alphabet()[v]) == Some(v as u32),
        forall|b: u8| !standard_alphabet().contains(b) ==> #[trigger] symbol_value(b) is None,
{
    let a = standard_alphabet();
    assert(a[0] == 65u8);
    assert(a[1] == 66u8);
    assert(a[2] == 67u8);
    assert(a[3] == 68u8);
    assert(a[4] == 69u8);
    assert(a[5] == 70u8);
    assert(a[6] == 71u8);
    assert(a[7] == 72u8);
    assert(a[8] == 73u8);
    assert(a[9] == 74u8);
    assert(a[10] == 75u8);
    assert(a[11] == 76u8);
    assert(a[12] == 77u8);
    assert(a[13] == 78u8);
    assert(a[14] == 79u8);
    assert(a[15] == 80u8);
    assert(a[16] == 81u8);
    assert(a[17] == 82u8);
    assert(a[18] == 83u8);
    assert(a[19] == 84u8);
    assert(a[20] == 85u8);
    assert(a[21] == 86u8);
    assert(a[22] == 87u8);
    assert(a[23] == 88u8);
    assert(a[24] == 89u8);
    assert(a[25] == 90u8);
    assert(a[26] == 97u8);
    assert(a[27] == 98u8);
    assert(a[28] == 99u8);
    assert(a[29] == 100u8);
    assert(a[30] == 101u8);
    assert(a[31] == 102u8);
    assert(a[32] == 103u8);
    assert(a[33] == 104u8);
    assert(a[34] == 105u8);
    assert(a[35] == 106u8);
    assert(a[36] == 107u8);
    assert(a[37] == 108u8);
    assert(a[38] == 109u8);
    assert(a[39] == 110u8);
    assert(a[40] == 111u8);
    assert(a[41] == 112u8);
    assert(a[42] == 113u8);
    assert(a[43] == 114u8);
    assert(a[44] == 115u8);
    assert(a[45] == 116u8);
    assert(a[46] == 117u8);
    assert(a[47] == 118u8);
    assert(a[48] == 119u8);
    assert(a[49] == 120u8);
    assert(a[50] == 121u8);
    assert(a[51] == 122u8);
    assert(a[52] == 48u8);
    assert(a[53] == 49u8);
    assert(a[54] == 50u8);
    assert(a[55] == 51u8);
    assert(a[56] == 52u8);
    assert(a[57] == 53u8);
    assert(a[58] == 54u8);
    assert(a[59] == 55u8);
    assert(a[60] == 56u8);
    assert(a[61] == 57u8);
    assert(a[62] == 43u8);
    assert(a[63] == 47u8);
    assert forall|v: int| 0 <= v < 64 implies symbol_byte(v as u32) == #[trigger] a[v]
        && symbol_value(a[v]) == Some(v as u32) by {
        if v == 0 {
        } else if v == 1 {
        } else if v == 2 {
        } else if v == 3 {
        } else if v == 4 {
        } else if v == 5 {
        } else if v == 6 {
        } else if v == 7 {
        } else if v == 8 {
        } else if v == 9 {
        } else if v == 10 {
        } else if v == 11 {
        } else if v == 12 {
        } else if v == 13 {
        } else if v == 14 {
        } else if v == 15 {
        } else if v == 16 {
        } else if v == 17 {
        } else if v == 18 {
        } else if v == 19 {
        } else if v == 20 {
        } else if v == 21 {
        } else if v == 22 {
        } else if v == 23 {
        } else if v == 24 {
        } else if v == 25 {
        } else if v == 26 {
        } else if v == 27 {
        } else if v == 28 {
        } else if v == 29 {
        } else if v == 30 {
        } else if v == 31 {
        } else if v == 32 {
        } else if v == 33 {
        } else if v == 34 {
        } else if v == 35 {
        } else if v == 36 {
        } else if v == 37 {
        } else if v == 38 {
        } else if v == 39 {
        } else if v == 40 {
        } else if v == 41 {
        } else if v == 42 {
        } else if v == 43 {
        } else if v == 44 {
        } else if v == 45 {
        } else if v == 46 {
        } else if v == 47 {
        } else if v == 48 {
        } else if v == 49 {
        } else if v == 50 {
        } else if v == 51 {
        } else if v == 52 {
        } else if v == 53 {
        } else if v == 54 {
        } else if v == 55 {
        } else if v == 56 {
        } else if v == 57 {
        } else if v == 58 {
        } else if v == 59 {
        } else if v == 60 {
        } else if v == 61 {
        } else if v == 62 {
        } else if v == 63 {
        }
    }
    assert forall|b: u8| !a.contains(b) implies #[trigger] symbol_value(b) is None by {
        if symbol_value(b) is Some {
            let v = symbol_value(b)->0 as int;
            assert(0 <= v < 64);
            assert(symbol_byte(v as u32) == b);
            assert(a[v] == b);
        }
    }
}


/// Three bytes are written as four alphabet characters, six bits each,
/// most significant first: the top six bits of the first byte, its low
/// two bits with the top four of the second, the second's low four with
/// the third's top two, and the third's low six, each looked up in the
/// standard alphabet.
pub proof fn law_encode_three(b0: u8, b1: u8, b2: u8)
    ensures
        b64_encode(seq![b0, b1, b2]) == seq![
            standard_alphabet()[(b0 / 4) as int] as char,
            standard_alphabet()[(b0 % 4) * 16 + b1 / 16] as char,
            standard_alphabet()[(b1 % 16) * 4 + b2 / 64] as char,
            standard_alphabet()[(b2 % 64) as int] as char,
        ],
{
    law_standard_alphabet();
    let x = seq![b0, b1, b2];
    assert(b64_encode(x) == encode_group(x));
    let (c0, c1, c2) = (b0 as u32, b1 as u32, b2 as u32);
    let n = group_bits(x);
    assert(n == (c0 << 16u32) | (c1 << 8u32) | c2);
    assert(((((c0 << 16u32) | (c1 << 8u32) | c2) >> 18u32) & 0x3Fu32) == c0 / 4
        && ((((c0 << 16u32) | (c1 << 8u32) | c2) >> 12u32) & 0x3Fu32) == (c0 % 4) * 16 + c1 / 16
        && ((((c0 << 16u32) | (c1 << 8u32) | c2) >> 6u32) & 0x3Fu32) == (c1 % 16) * 4 + c2 / 64
        && (((c0 << 16u32) | (c1 << 8u32) | c2) & 0x3Fu32) == c2 % 64) by (bit_vector)
        requires
            c0 < 256,
            c1 < 256,
            c2 < 256,
    ;
    let v0 = (b0 / 4) as int;
    let v1 = ((b0 % 4) * 16 + b1 / 16) as int;
    let v2 = ((b1 % 16) * 4 + b2 / 64) as int;
    let v3 = (b2 % 64) as int;
    assert(symbol_byte(v0 as u32) == standard_alphabet()[v0]);
    assert(symbol_byte(v1 as u32) == standard_alphabet()[v1]);
    assert(symbol_byte(v2 as u32) == standard_alphabet()[v2]);
    assert(symbol_byte(v3 as u32) == standard_alphabet()[v3]);
    assert(encode_group(x) =~= seq![
        standard_alphabet()[v0] as char,
        standard_alphabet()[v1] as char,
        standard_alphabet()[v2] as char,
        standard_alphabet()[v3] as char,
    ]);
}

} // verus!
