//! Base64: the standard alphabet with padding for file contents, and the
//! URL-safe alphabet for the payload of sign-in tokens.
use vstd::prelude::*;

use vstd::string::StringSliceAdditionalSpecFns;

use vstd::utf8::{encode_utf8, is_ascii_chars, is_ascii_chars_encode_utf8};

use crate::text::{push_char, split_on, split_all};

verus! {

/// The symbol of the standard alphabet for a value below 64.
pub open spec fn b64_symbol(v: int) -> char {
    if v < 26 {
        ('A' as int + v) as char
    } else if v < 52 {
        ('a' as int + (v - 26)) as char
    } else if v < 62 {
        ('0' as int + (v - 52)) as char
    } else if v == 62 {
        '+'
    } else {
        '/'
    }
}

/// The standard Base64 text of `b`, padded with `=` to a multiple of four.
pub open spec fn encoded(b: Seq<u8>) -> Seq<char>
    decreases b.len(),
{
    if b.len() == 0 {
        seq![]
    } else if b.len() == 1 {
        let x = b[0] as int;
        seq![b64_symbol(x / 4), b64_symbol((x % 4) * 16), '=', '=']
    } else if b.len() == 2 {
        let x = b[0] as int;
        let y = b[1] as int;
        seq![b64_symbol(x / 4), b64_symbol((x % 4) * 16 + y / 16), b64_symbol((y % 16) * 4), '=']
    } else {
        let x = b[0] as int;
        let y = b[1] as int;
        let z = b[2] as int;
        seq![
            b64_symbol(x / 4),
            b64_symbol((x % 4) * 16 + y / 16),
            b64_symbol((y % 16) * 4 + z / 64),
            b64_symbol(z % 64),
        ] + encoded(b.skip(3))
    }
}

/// The symbol for a value below 64.
fn symbol(v: u8) -> (r: char)
    requires
        v < 64,
    ensures
        r == b64_symbol(v as int),
{
    if v < 26 {
        ((65 + v) as u8) as char
    } else if v < 52 {
        ((97 + (v - 26)) as u8) as char
    } else if v < 62 {
        ((48 + (v - 52)) as u8) as char
    } else if v == 62 {
        '+'
    } else {
        '/'
    }
}

/// The standard Base64 text of `bytes`, padded with `=`.
pub fn encode_base64(bytes: &[u8]) -> (r: String)
    ensures
        r@ == encoded(bytes@),
{
    let mut out = String::new();
    let n = bytes.len();
    let mut i: usize = 0;
    assert(bytes@.skip(0) == bytes@);
    while i < n
        invariant
            i <= n,
            n == bytes@.len(),
            encoded(bytes@) == out@ + encoded(bytes@.skip(i as int)),
        decreases n - i,
    {
        let ghost rest = bytes@.skip(i as int);
        let x = bytes[i];
        assert(rest[0] == x);
        if n - i == 1 {
            push_char(&mut out, symbol(x / 4));
            push_char(&mut out, symbol((x % 4) * 16));
            push_char(&mut out, '=');
            push_char(&mut out, '=');
            i = n;
        } else if n - i == 2 {
            let y = bytes[i + 1];
            assert(rest[1] == y);
            push_char(&mut out, symbol(x / 4));
            push_char(&mut out, symbol((x % 4) * 16 + y / 16));
            push_char(&mut out, symbol((y % 16) * 4));
            push_char(&mut out, '=');
            i = n;
        } else {
            let y = bytes[i + 1];
            let z = bytes[i + 2];
            assert(rest[1] == y && rest[2] == z);
            push_char(&mut out, symbol(x / 4));
            push_char(&mut out, symbol((x % 4) * 16 + y / 16));
            push_char(&mut out, symbol((y % 16) * 4 + z / 64));
            push_char(&mut out, symbol(z % 64));
            assert(rest.skip(3) == bytes@.skip(i + 3));
            i = i + 3;
        }
        assert(bytes@.skip(n as int).len() == 0);
    }
    assert(encoded(bytes@.skip(n as int)) == Seq::<char>::empty());
    out
}

/// The value of a symbol of the URL-safe alphabet.
pub open spec fn url_value(c: u8) -> Option<int> {
    if 65 <= c <= 90 {
        Some(c - 65)
    } else if 97 <= c <= 122 {
        Some(c - 97 + 26)
    } else if 48 <= c <= 57 {
        Some(c - 48 + 52)
    } else if c == 45 {
        Some(62)
    } else if c == 95 {
        Some(63)
    } else {
        None
    }
}

/// The bytes of `s` before its first `=`.
pub open spec fn before_pad(s: Seq<u8>) -> Seq<u8>
    decreases s.len(),
{
    if s.len() == 0 {
        s
    } else if s[0] == 61 {
        seq![]
    } else {
        seq![s[0]] + before_pad(s.drop_first())
    }
}

/// The bytes that groups of four 6-bit values write; a last group of two
/// or three values writes one or two bytes.
pub open spec fn sextets_to_bytes(v: Seq<int>) -> Seq<u8>
    decreases v.len(),
{
    if v.len() >= 4 {
        seq![
            (v[0] * 4 + v[1] / 16) as u8,
            ((v[1] % 16) * 16 + v[2] / 4) as u8,
            ((v[2] % 4) * 64 + v[3]) as u8,
        ] + sextets_to_bytes(v.skip(4))
    } else if v.len() == 3 {
        seq![(v[0] * 4 + v[1] / 16) as u8, ((v[1] % 16) * 16 + v[2] / 4) as u8]
    } else if v.len() == 2 {
        seq![(v[0] * 4 + v[1] / 16) as u8]
    } else {
        seq![]
    }
}

/// The bytes that URL-safe Base64 text writes: what precedes the first `=`
/// must be symbols of the alphabet, and not one more than a multiple of
/// four of them.
pub open spec fn decoded_url(s: Seq<u8>) -> Option<Seq<u8>> {
    let p = before_pad(s);
    if exists|i: int| 0 <= i < p.len() && url_value(#[trigger] p[i]) is None {
        None
    } else if p.len() % 4 == 1 {
        None
    } else {
        Some(sextets_to_bytes(p.map_values(|c: u8| url_value(c)->0)))
    }
}

/// Facts about `before_pad`: a prefix without `=`, ended by one or by the end.
proof fn lemma_before_pad(s: Seq<u8>)
    ensures
        before_pad(s).len() <= s.len(),
        before_pad(s) == s.take(before_pad(s).len() as int),
        forall|i: int| 0 <= i < before_pad(s).len() ==> #[trigger] s[i] != 61,
        before_pad(s).len() < s.len() ==> s[before_pad(s).len() as int] == 61,
    decreases s.len(),
{
    if s.len() > 0 && s[0] != 61 {
        lemma_before_pad(s.drop_first());
        let r = before_pad(s.drop_first());
        assert(before_pad(s) == seq![s[0]] + r);
        assert(seq![s[0]] + s.drop_first().take(r.len() as int) == s.take(r.len() as int + 1));
        assert forall|i: int| 0 <= i < before_pad(s).len() implies #[trigger] s[i] != 61 by {
            if i > 0 {
                assert(s[i] == s.drop_first()[i - 1]);
            }
        }
        if before_pad(s).len() < s.len() {
            assert(s[r.len() as int + 1] == s.drop_first()[r.len() as int]);
        }
    }
}

/// Whole groups of four decode on their own.
proof fn lemma_sextets_append(v: Seq<int>, w: Seq<int>)
    requires
        v.len() % 4 == 0,
    ensures
        sextets_to_bytes(v + w) == sextets_to_bytes(v) + sextets_to_bytes(w),
    decreases v.len(),
{
    if v.len() > 0 {
        lemma_sextets_append(v.skip(4), w);
        assert((v + w).skip(4) == v.skip(4) + w);
        assert((v + w)[0] == v[0] && (v + w)[1] == v[1] && (v + w)[2] == v[2] && (v + w)[3] == v[3]);
    } else {
        assert(v + w == w);
    }
}

/// The value of a URL-safe symbol, if it is one.
fn url_symbol_value(c: u8) -> (r: Option<u8>)
    ensures
        match url_value(c) {
            Some(v) => r == Some(v as u8) && v < 64,
            None => r is None,
        },
{
    if 65 <= c && c <= 90 {
        Some(c - 65)
    } else if 97 <= c && c <= 122 {
        Some(c - 97 + 26)
    } else if 48 <= c && c <= 57 {
        Some(c - 48 + 52)
    } else if c == 45 {
        Some(62)
    } else if c == 95 {
        Some(63)
    } else {
        None
    }
}

/// Decodes URL-safe Base64 text: symbols up to the first `=`.
pub fn decode_base64_url(input: &str) -> (r: Option<Vec<u8>>)
    ensures
        match decoded_url(input.spec_bytes()) {
            None => r is None,
            Some(b) => (r matches Some(v) && v@ == b),
        },
{
    let bytes = input.as_bytes();
    let ghost s = input.spec_bytes();
    proof {
        lemma_before_pad(s);
    }
    let n = bytes.len();
    let mut p: usize = 0;
    while p < n && bytes[p] != 61
        invariant
            p <= n,
            n == s.len(),
            bytes@ == s,
            before_pad(s).len() <= s.len(),
            forall|i: int| 0 <= i < before_pad(s).len() ==> #[trigger] s[i] != 61,
            before_pad(s).len() < s.len() ==> s[before_pad(s).len() as int] == 61,
            p <= before_pad(s).len(),
        decreases n - p,
    {
        p = p + 1;
    }
    assert(p == before_pad(s).len());
    let ghost pb = before_pad(s);
    assert(pb == s.take(p as int));
    let mut vals: Vec<u8> = Vec::new();
    for i in 0..p
        invariant
            p <= n,
            n == s.len(),
            bytes@ == s,
            s == input.spec_bytes(),
            pb == before_pad(s),
            pb == s.take(p as int),
            vals@.len() == i,
            forall|j: int| 0 <= j < i ==> url_value(#[trigger] pb[j]) is Some,
            forall|j: int| 0 <= j < i ==> (#[trigger] vals@[j]) as int == url_value(pb[j])->0,
            forall|j: int| 0 <= j < i ==> #[trigger] vals@[j] < 64,
    {
        assert(pb[i as int] == bytes@[i as int]);
        match url_symbol_value(bytes[i]) {
            Some(v) => {
                vals.push(v);
            },
            None => {
                assert(url_value(pb[i as int]) is None);
                assert(before_pad(input.spec_bytes()) == pb);
                return None;
            },
        }
    }
    if p % 4 == 1 {
        return None;
    }
    let ghost vs = pb.map_values(|c: u8| url_value(c)->0);
    assert(forall|j: int| 0 <= j < p ==> #[trigger] vs[j] == vals@[j] as int);
    let mut out: Vec<u8> = Vec::new();
    let mut k: usize = 0;
    while p - k >= 4
        invariant
            k <= p,
            k % 4 == 0,
            vals@.len() == p,
            vs.len() == p,
            forall|j: int| 0 <= j < p ==> #[trigger] vs[j] == vals@[j] as int,
            forall|j: int| 0 <= j < p ==> #[trigger] vals@[j] < 64,
            out@ == sextets_to_bytes(vs.take(k as int)),
        decreases p - k,
    {
        let a = vals[k];
        let b = vals[k + 1];
        let c = vals[k + 2];
        let d = vals[k + 3];
        assert(vals@[k as int] < 64 && vals@[k + 1] < 64 && vals@[k + 2] < 64 && vals@[k + 3] < 64);
        let x = a * 4 + b / 16;
        let y = (b % 16) * 16 + c / 4;
        let z = (c % 4) * 64 + d;
        out.push(x);
        out.push(y);
        out.push(z);
        let ghost g = vs.subrange(k as int, k + 4);
        assert(vs.take(k + 4) == vs.take(k as int) + g);
        proof {
            lemma_sextets_append(vs.take(k as int), g);
        }
        assert(g.skip(4).len() == 0);
        assert(g[0] == a && g[1] == b && g[2] == c && g[3] == d);
        assert(sextets_to_bytes(g.skip(4)) == Seq::<u8>::empty());
        assert(sextets_to_bytes(g) == seq![x, y, z]);
        k = k + 4;
    }
    let rem = p - k;
    let ghost tail = vs.subrange(k as int, p as int);
    assert(vs == vs.take(k as int) + tail);
    proof {
        lemma_sextets_append(vs.take(k as int), tail);
    }
    if rem == 3 {
        let a = vals[k];
        let b = vals[k + 1];
        let c = vals[k + 2];
        assert(vals@[k as int] < 64 && vals@[k + 1] < 64 && vals@[k + 2] < 64);
        assert(tail[0] == a && tail[1] == b && tail[2] == c);
        out.push(a * 4 + b / 16);
        out.push((b % 16) * 16 + c / 4);
    } else if rem == 2 {
        let a = vals[k];
        let b = vals[k + 1];
        assert(vals@[k as int] < 64 && vals@[k + 1] < 64);
        assert(tail[0] == a && tail[1] == b);
        out.push(a * 4 + b / 16);
    }
    Some(out)
}

/// The bytes that the payload of a token `header.payload.signature`
/// writes in URL-safe Base64; `None` when it has no second piece or the
/// piece does not decode.
pub open spec fn jwt_payload_bytes(token: Seq<char>) -> Option<Seq<u8>> {
    let pieces = split_all(token, '.');
    if pieces.len() < 2 {
        None
    } else {
        decoded_url(vstd::utf8::encode_utf8(pieces[1]))
    }
}

/// The decoded payload of a token `header.payload.signature`, as bytes.
pub fn jwt_payload(token: &str) -> (r: Option<Vec<u8>>)
    ensures
        match jwt_payload_bytes(token@) {
            None => r is None,
            Some(b) => (r matches Some(v) && v@ == b),
        },
{
    let pieces = split_on(token, '.');
    if pieces.len() < 2 {
        return None;
    }
    assert(pieces@[1]@ == split_all(token@, '.')[1]);
    decode_base64_url(pieces[1].as_str())
}

/// The byte of the URL-safe symbol for a value below 64.
pub open spec fn url_symbol(v: int) -> u8 {
    if v < 26 {
        (65 + v) as u8
    } else if v < 52 {
        (97 + (v - 26)) as u8
    } else if v < 62 {
        (48 + (v - 52)) as u8
    } else if v == 62 {
        45
    } else {
        95
    }
}

/// Standard Base64 text written in the URL-safe alphabet: `+` as `-` and
/// `/` as `_`.
pub open spec fn url_safe(t: Seq<char>) -> Seq<char> {
    t.map_values(|c: char| url_char(c))
}

/// A standard symbol written in the URL-safe alphabet.
pub open spec fn url_char(c: char) -> char {
    if c == '+' {
        '-'
    } else if c == '/' {
        '_'
    } else {
        c
    }
}

/// The 6-bit values that bytes are written with: four for every three
/// bytes, three for two bytes left over, two for one.
pub open spec fn sextets(b: Seq<u8>) -> Seq<int>
    decreases b.len(),
{
    if b.len() == 0 {
        seq![]
    } else if b.len() == 1 {
        let x = b[0] as int;
        seq![x / 4, (x % 4) * 16]
    } else if b.len() == 2 {
        let x = b[0] as int;
        let y = b[1] as int;
        seq![x / 4, (x % 4) * 16 + y / 16, (y % 16) * 4]
    } else {
        let x = b[0] as int;
        let y = b[1] as int;
        let z = b[2] as int;
        seq![x / 4, (x % 4) * 16 + y / 16, (y % 16) * 4 + z / 64, z % 64] + sextets(b.skip(3))
    }
}

/// The padding after the symbols of `n` bytes.
pub open spec fn pad_of(n: nat) -> Seq<u8> {
    if n % 3 == 1 {
        seq![61u8, 61u8]
    } else if n % 3 == 2 {
        seq![61u8]
    } else {
        seq![]
    }
}

/// The URL-safe symbols of 6-bit values.
pub open spec fn url_symbols(v: Seq<int>) -> Seq<u8> {
    v.map_values(|x: int| url_symbol(x))
}

/// Three bytes written as four 6-bit values read back as the same bytes.
proof fn lemma_group3(x: int, y: int, z: int)
    by (nonlinear_arith)
    requires
        0 <= x < 256,
        0 <= y < 256,
        0 <= z < 256,
    ensures
        (x / 4) * 4 + ((x % 4) * 16 + y / 16) / 16 == x,
        (((x % 4) * 16 + y / 16) % 16) * 16 + ((y % 16) * 4 + z / 64) / 4 == y,
        (((y % 16) * 4 + z / 64) % 4) * 64 + z % 64 == z,
        x / 4 < 64,
        (x % 4) * 16 + y / 16 < 64,
        (y % 16) * 4 + z / 64 < 64,
        z % 64 < 64,
        0 <= (x % 4) * 16 + y / 16,
        0 <= (y % 16) * 4 + z / 64,
{
}

/// The 6-bit values of bytes are below 64, and their number is four for
/// every three bytes, plus three for two left over or two for one.
proof fn lemma_sextets_shape(b: Seq<u8>)
    ensures
        forall|i: int| 0 <= i < sextets(b).len() ==> 0 <= #[trigger] sextets(b)[i] < 64,
        sextets(b).len() % 4 != 1,
        sextets(b).len() % 4 == 0 <==> b.len() % 3 == 0,
        sextets(b).len() % 4 == 2 <==> b.len() % 3 == 1,
    decreases b.len(),
{
    if b.len() >= 3 {
        let x = b[0] as int;
        let y = b[1] as int;
        let z = b[2] as int;
        lemma_group3(x, y, z);
        lemma_sextets_shape(b.skip(3));
        let g = seq![x / 4, (x % 4) * 16 + y / 16, (y % 16) * 4 + z / 64, z % 64];
        let v = sextets(b);
        assert(v == g + sextets(b.skip(3)));
        assert forall|i: int| 0 <= i < v.len() implies 0 <= #[trigger] v[i] < 64 by {
            if i >= 4 {
                assert(v[i] == sextets(b.skip(3))[i - 4]);
            }
        }
    } else if b.len() > 0 {
        lemma_group3(b[0] as int, if b.len() == 2 { b[1] as int } else { 0 }, 0);
    }
}

/// The 6-bit values of bytes decode back to the bytes.
#[verifier::spinoff_prover]
proof fn lemma_sextets(b: Seq<u8>)
    ensures
        sextets_to_bytes(sextets(b)) == b,
    decreases b.len(),
{
    if b.len() == 0 {
    } else if b.len() == 1 {
        lemma_group3(b[0] as int, 0, 0);
        assert(sextets_to_bytes(sextets(b)) =~= b);
    } else if b.len() == 2 {
        lemma_group3(b[0] as int, b[1] as int, 0);
        assert(sextets_to_bytes(sextets(b)) =~= b);
    } else {
        lemma_sextets(b.skip(3));
        lemma_sextets_group(b);
    }
}

/// One group of three bytes at the front decodes on its own.
#[verifier::spinoff_prover]
proof fn lemma_sextets_group(b: Seq<u8>)
    requires
        b.len() >= 3,
        sextets_to_bytes(sextets(b.skip(3))) == b.skip(3),
    ensures
        sextets_to_bytes(sextets(b)) == b,
{
    let x = b[0] as int;
    let y = b[1] as int;
    let z = b[2] as int;
    lemma_group3(x, y, z);
    let g = seq![x / 4, (x % 4) * 16 + y / 16, (y % 16) * 4 + z / 64, z % 64];
    let v = sextets(b);
    assert(v == g + sextets(b.skip(3)));
    assert(v.skip(4) =~= sextets(b.skip(3)));
    assert(v[0] == g[0] && v[1] == g[1] && v[2] == g[2] && v[3] == g[3]);
    assert(sextets_to_bytes(v) == seq![b[0], b[1], b[2]] + b.skip(3));
    assert(seq![b[0], b[1], b[2]] + b.skip(3) =~= b);
}

/// The symbol of a value, written in the URL-safe alphabet, is that value's
/// URL-safe byte, an ASCII character that is not `=`.
proof fn lemma_url_symbol(v: int)
    requires
        0 <= v < 64,
    ensures
        url_char(b64_symbol(v)) as u8 == url_symbol(v),
        '\0' <= url_char(b64_symbol(v)) <= '\u{7f}',
        url_symbol(v) != 61,
        url_value(url_symbol(v)) == Some(v),
{
}

/// The text before the first `=` of symbols without one, then padding.
proof fn lemma_before_pad_split(x: Seq<u8>, y: Seq<u8>)
    requires
        forall|i: int| 0 <= i < x.len() ==> #[trigger] x[i] != 61,
        y.len() == 0 || y[0] == 61,
    ensures
        before_pad(x + y) == x,
    decreases x.len(),
{
    if x.len() == 0 {
        assert(x + y == y);
        if y.len() > 0 {
            assert(before_pad(y) == Seq::<u8>::empty());
        }
        assert(x =~= Seq::<u8>::empty());
    } else {
        lemma_before_pad_split(x.drop_first(), y);
        assert((x + y).drop_first() =~= x.drop_first() + y);
        assert((x + y)[0] == x[0]);
        assert(seq![x[0]] + x.drop_first() =~= x);
    }
}

/// The standard Base64 text of bytes, in the URL-safe alphabet, is ASCII
/// and its bytes are the URL-safe symbols of the bytes' 6-bit values, then
/// the padding.
proof fn lemma_url_text(b: Seq<u8>)
    ensures
        is_ascii_chars(url_safe(encoded(b))),
        url_safe(encoded(b)).len() == (url_symbols(sextets(b)) + pad_of(b.len())).len(),
        forall|i: int|
            0 <= i < url_safe(encoded(b)).len() ==> (#[trigger] url_safe(encoded(b))[i]) as u8 == (url_symbols(
                sextets(b),
            ) + pad_of(b.len()))[i],
    decreases b.len(),
{
    let t = url_safe(encoded(b));
    let target = url_symbols(sextets(b)) + pad_of(b.len());
    lemma_sextets_shape(b);
    if b.len() == 0 {
        assert(t.len() == 0);
        assert(target.len() == 0);
    } else if b.len() <= 2 {
        let v = sextets(b);
        assert forall|k: int| 0 <= k < v.len() implies url_char(b64_symbol(#[trigger] v[k])) as u8 == url_symbol(v[k])
            && '\0' <= url_char(b64_symbol(v[k])) <= '\u{7f}' by {
            lemma_url_symbol(v[k]);
        }
        assert(t.len() == target.len());
        assert forall|i: int| 0 <= i < t.len() implies (#[trigger] t[i]) as u8 == target[i] by {
            if i < v.len() {
                assert(t[i] == url_char(b64_symbol(v[i])));
            }
        }
        assert forall|i: int| 0 <= i < t.len() implies '\0' <= #[trigger] t[i] <= '\u{7f}' by {
            if i < v.len() {
                assert(t[i] == url_char(b64_symbol(v[i])));
            }
        }
    } else {
        let rest = b.skip(3);
        lemma_url_text(rest);
        let x = b[0] as int;
        let y = b[1] as int;
        let z = b[2] as int;
        lemma_group3(x, y, z);
        let g = seq![x / 4, (x % 4) * 16 + y / 16, (y % 16) * 4 + z / 64, z % 64];
        let four = seq![b64_symbol(g[0]), b64_symbol(g[1]), b64_symbol(g[2]), b64_symbol(g[3])];
        assert(encoded(b) == four + encoded(rest));
        assert(t =~= url_safe(four) + url_safe(encoded(rest)));
        assert(sextets(b) == g + sextets(rest));
        assert(pad_of(b.len()) == pad_of(rest.len()));
        assert(target =~= url_symbols(g) + (url_symbols(sextets(rest)) + pad_of(rest.len())));
        let rt = url_safe(encoded(rest));
        let rtarget = url_symbols(sextets(rest)) + pad_of(rest.len());
        assert forall|k: int| 0 <= k < 4 implies url_char(b64_symbol(#[trigger] g[k])) as u8 == url_symbol(g[k])
            && '\0' <= url_char(b64_symbol(g[k])) <= '\u{7f}' by {
            lemma_url_symbol(g[k]);
        }
        assert forall|i: int| 0 <= i < t.len() implies (#[trigger] t[i]) as u8 == target[i] && '\0' <= t[i]
            <= '\u{7f}' by {
            if i < 4 {
                assert(t[i] == url_char(b64_symbol(g[i])));
                assert(target[i] == url_symbol(g[i]));
            } else {
                assert(t[i] == rt[i - 4]);
                assert(target[i] == rtarget[i - 4]);
            }
        }
    }
}

/// Decoding is what encoding undoes: the URL-safe form of the standard
/// Base64 text of any bytes decodes to those bytes.
pub proof fn law_base64_round_trip(b: Seq<u8>)
    ensures
        decoded_url(encode_utf8(url_safe(encoded(b)))) == Some(b),
{
    lemma_url_text(b);
    lemma_sextets(b);
    lemma_sextets_shape(b);
    let t = url_safe(encoded(b));
    let v = sextets(b);
    let syms = url_symbols(v);
    let target = syms + pad_of(b.len());
    is_ascii_chars_encode_utf8(t);
    assert(encode_utf8(t) =~= target);
    assert forall|k: int| 0 <= k < v.len() implies #[trigger] syms[k] != 61 && url_value(syms[k]) == Some(v[k]) by {
        lemma_url_symbol(v[k]);
    }
    lemma_before_pad_split(syms, pad_of(b.len()));
    assert(syms.map_values(|c: u8| url_value(c)->0) =~= v);
}

/// Decoding stops at the first `=`: text with more after an `=` decodes as
/// the text before it.
pub proof fn law_base64_stops_at_pad(x: Seq<u8>, y: Seq<u8>)
    requires
        forall|i: int| 0 <= i < x.len() ==> #[trigger] x[i] != 61,
    ensures
        decoded_url(x + seq![61u8] + y) == decoded_url(x),
{
    lemma_before_pad_split(x, seq![61u8] + y);
    lemma_before_pad_split(x, seq![]);
    assert(x + seq![61u8] + y == x + (seq![61u8] + y));
    assert(x + Seq::<u8>::empty() == x);
}

} // verus!
