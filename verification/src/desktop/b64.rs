//! Base64 (RFC 4648) without padding, in the standard and the URL-safe
//! alphabet.

use vstd::prelude::*;

verus! {

/// The character for sextet `v` (`0 <= v < 64`): the standard alphabet ends
/// in `+` and `/`, the URL-safe one in `-` and `_`.
pub open spec fn b64_char(url_safe: bool, v: int) -> char {
    if v < 26 {
        (65 + v) as char
    } else if v < 52 {
        (97 + (v - 26)) as char
    } else if v < 62 {
        (48 + (v - 52)) as char
    } else if v == 62 {
        if url_safe { '-' } else { '+' }
    } else {
        if url_safe { '_' } else { '/' }
    }
}

/// A character of the URL-safe alphabet.
pub open spec fn is_url_safe_char(c: char) -> bool {
    ('A' <= c && c <= 'Z') || ('a' <= c && c <= 'z') || ('0' <= c && c <= '9') || c == '-'
        || c == '_'
}

/// The characters for a group of `n` bytes (`1 <= n <= 3`) `b0 b1 b2`,
/// missing bytes counting as zero: the 24 bits split into four sextets, of
/// which the first `n + 1` are written.
pub open spec fn b64_group(url_safe: bool, b0: int, b1: int, b2: int, n: int) -> Seq<char> {
    let v = b0 * 65536 + b1 * 256 + b2;
    seq![
        b64_char(url_safe, v / 262144),
        b64_char(url_safe, (v / 4096) % 64),
        b64_char(url_safe, (v / 64) % 64),
        b64_char(url_safe, v % 64),
    ].subrange(0, n + 1)
}

/// The characters for a group of one to three bytes.
pub open spec fn b64_chunk(url_safe: bool, c: Seq<u8>) -> Seq<char> {
    b64_group(
        url_safe,
        c[0] as int,
        if c.len() > 1 { c[1] as int } else { 0 },
        if c.len() > 2 { c[2] as int } else { 0 },
        c.len() as int,
    )
}

/// Where the last group of `n > 0` bytes starts.
pub open spec fn last_group_start(n: int) -> int {
    (n - 1) - (n - 1) % 3
}

/// Unpadded base64 of `b`: the bytes taken three at a time from the front,
/// each whole group written as four characters and a final group of one or
/// two bytes as two or three.
pub open spec fn b64_nopad(url_safe: bool, b: Seq<u8>) -> Seq<char>
    decreases b.len(),
{
    if b.len() == 0 {
        Seq::empty()
    } else {
        let m = last_group_start(b.len() as int);
        b64_nopad(url_safe, b.subrange(0, m)) + b64_chunk(url_safe, b.subrange(m, b.len() as int))
    }
}

/// The length of the unpadded encoding of `n` bytes.
pub open spec fn b64_nopad_len(n: int) -> int {
    4 * (n / 3) + if n % 3 == 0 { 0 } else { n % 3 + 1 }
}

/// The URL-safe character of sextet `v`.
fn url_char(v: u8) -> (c: char)
    requires
        v < 64,
    ensures
        c == b64_char(true, v as int),
{
    if v < 26 {
        (65u8 + v) as char
    } else if v < 52 {
        (97u8 + (v - 26)) as char
    } else if v < 62 {
        (48u8 + (v - 52)) as char
    } else if v == 62 {
        '-'
    } else {
        '_'
    }
}

/// `String::push`: appends one character.
#[verifier::external_body]
fn push_char(s: &mut String, c: char)
    ensures
        final(s)@ == old(s)@.push(c),
{
    s.push(c);
}

/// Law: unpadded base64 of `n` bytes has `4 * (n / 3)` characters, plus two
/// or three more for a final group of one or two bytes.
pub proof fn law_b64_nopad_len(url_safe: bool, b: Seq<u8>)
    ensures
        b64_nopad(url_safe, b).len() == b64_nopad_len(b.len() as int),
    decreases b.len(),
{
    if b.len() > 0 {
        let m = last_group_start(b.len() as int);
        law_b64_nopad_len(url_safe, b.subrange(0, m));
        let r = b.len() - m;
        assert(m % 3 == 0);
        assert(1 <= r <= 3);
        assert(b64_nopad_len(m) == 4 * (m / 3));
        if r == 3 {
            assert(b.len() / 3 == m / 3 + 1);
            assert(b.len() % 3 == 0);
        } else {
            assert(b.len() / 3 == m / 3);
            assert(b.len() % 3 == r);
        }
    }
}

/// Every sextet's character in the URL-safe alphabet is URL-safe.
proof fn lemma_url_char_is_url_safe(v: int)
    requires
        0 <= v < 64,
    ensures
        is_url_safe_char(b64_char(true, v)),
{
    if v < 26 {
        assert((65 + v) as char as int == 65 + v);
    } else if v < 52 {
        assert((97 + (v - 26)) as char as int == 97 + (v - 26));
    } else if v < 62 {
        assert((48 + (v - 52)) as char as int == 48 + (v - 52));
    }
}

/// Law: the URL-safe encoding uses only the characters `A-Z a-z 0-9 - _`.
pub proof fn law_url_encoding_is_url_safe(b: Seq<u8>)
    ensures
        forall|i: int|
            0 <= i < b64_nopad(true, b).len() ==> is_url_safe_char(#[trigger] b64_nopad(true, b)[i]),
    decreases b.len(),
{
    if b.len() > 0 {
        let m = last_group_start(b.len() as int);
        law_url_encoding_is_url_safe(b.subrange(0, m));
        let c = b.subrange(m, b.len() as int);
        let b0 = c[0] as int;
        let b1: int = if c.len() > 1 { c[1] as int } else { 0 };
        let b2: int = if c.len() > 2 { c[2] as int } else { 0 };
        let v = b0 * 65536 + b1 * 256 + b2;
        assert(0 <= v < 16777216);
        lemma_url_char_is_url_safe(v / 262144);
        lemma_url_char_is_url_safe((v / 4096) % 64);
        lemma_url_char_is_url_safe((v / 64) % 64);
        lemma_url_char_is_url_safe(v % 64);
        let e = b64_nopad(true, b);
        let front = b64_nopad(true, b.subrange(0, m));
        assert forall|i: int| 0 <= i < e.len() implies is_url_safe_char(#[trigger] e[i]) by {
            if i >= front.len() {
                assert(e[i] == b64_chunk(true, c)[i - front.len()]);
            } else {
                assert(e[i] == front[i]);
            }
        }
    }
}

/// Distinct sextets have distinct characters.
proof fn lemma_b64_char_injective(url_safe: bool, x: int, y: int)
    requires
        0 <= x < 64,
        0 <= y < 64,
        b64_char(url_safe, x) == b64_char(url_safe, y),
    ensures
        x == y,
{
    let cx = b64_char(url_safe, x) as int;
    let cy = b64_char(url_safe, y) as int;
    assert(x < 26 ==> cx == 65 + x);
    assert(26 <= x < 52 ==> cx == 97 + (x - 26));
    assert(52 <= x < 62 ==> cx == 48 + (x - 52));
    assert(y < 26 ==> cy == 65 + y);
    assert(26 <= y < 52 ==> cy == 97 + (y - 26));
    assert(52 <= y < 62 ==> cy == 48 + (y - 52));
    assert(x == 62 ==> cx == 45 || cx == 43);
    assert(x == 63 ==> cx == 95 || cx == 47);
    assert(y == 62 ==> cy == 45 || cy == 43);
    assert(y == 63 ==> cy == 95 || cy == 47);
}

/// Distinct byte counts have encodings of distinct lengths.
proof fn lemma_b64_nopad_len_injective(n1: int, n2: int)
    requires
        0 <= n1,
        0 <= n2,
        b64_nopad_len(n1) == b64_nopad_len(n2),
    ensures
        n1 == n2,
{
    let l = b64_nopad_len(n1);
    assert(l % 4 == if n1 % 3 == 0 { 0 } else { n1 % 3 + 1 });
    assert(l % 4 == if n2 % 3 == 0 { 0 } else { n2 % 3 + 1 });
    assert(n1 % 3 == n2 % 3);
    assert(n1 / 3 == n2 / 3);
}

/// The four sextets of a 24-bit value determine it.
proof fn lemma_sextets_determine(va: int, vb: int)
    requires
        0 <= va < 16777216,
        0 <= vb < 16777216,
        va / 262144 == vb / 262144,
        (va / 4096) % 64 == (vb / 4096) % 64,
        (va / 64) % 64 == (vb / 64) % 64,
        va % 64 == vb % 64,
    ensures
        va == vb,
{
    assert(va == (va / 262144) * 262144 + ((va / 4096) % 64) * 4096 + ((va / 64) % 64) * 64 + va % 64)
        by (nonlinear_arith)
        requires
            0 <= va < 16777216,
    ;
    assert(vb == (vb / 262144) * 262144 + ((vb / 4096) % 64) * 4096 + ((vb / 64) % 64) * 64 + vb % 64)
        by (nonlinear_arith)
        requires
            0 <= vb < 16777216,
    ;
}

/// Three bytes are determined by their 24-bit value.
proof fn lemma_bytes_of_value(a0: int, a1: int, a2: int, b0: int, b1: int, b2: int)
    requires
        0 <= a0 < 256,
        0 <= a1 < 256,
        0 <= a2 < 256,
        0 <= b0 < 256,
        0 <= b1 < 256,
        0 <= b2 < 256,
        a0 * 65536 + a1 * 256 + a2 == b0 * 65536 + b1 * 256 + b2,
    ensures
        a0 == b0,
        a1 == b1,
        a2 == b2,
{
    assert(a0 == b0) by (nonlinear_arith)
        requires
            0 <= a1 * 256 + a2 < 65536,
            0 <= b1 * 256 + b2 < 65536,
            a0 * 65536 + a1 * 256 + a2 == b0 * 65536 + b1 * 256 + b2,
    ;
    assert(a1 == b1) by (nonlinear_arith)
        requires
            0 <= a2 < 256,
            0 <= b2 < 256,
            a1 * 256 + a2 == b1 * 256 + b2,
    ;
}

/// A group's characters determine its bytes.
proof fn lemma_group_injective(url_safe: bool, a0: int, a1: int, a2: int, b0: int, b1: int, b2: int, n: int)
    requires
        0 <= a0 < 256,
        0 <= a1 < 256,
        0 <= a2 < 256,
        0 <= b0 < 256,
        0 <= b1 < 256,
        0 <= b2 < 256,
        1 <= n <= 3,
        n < 2 ==> a1 == 0 && b1 == 0,
        n < 3 ==> a2 == 0 && b2 == 0,
        b64_group(url_safe, a0, a1, a2, n) == b64_group(url_safe, b0, b1, b2, n),
    ensures
        a0 == b0,
        a1 == b1,
        a2 == b2,
{
    let va = a0 * 65536 + a1 * 256 + a2;
    let vb = b0 * 65536 + b1 * 256 + b2;
    let ga = b64_group(url_safe, a0, a1, a2, n);
    let gb = b64_group(url_safe, b0, b1, b2, n);
    assert(0 <= va < 16777216);
    assert(0 <= vb < 16777216);
    assert(ga[0] == gb[0]);
    lemma_b64_char_injective(url_safe, va / 262144, vb / 262144);
    assert(ga[1] == gb[1]);
    lemma_b64_char_injective(url_safe, (va / 4096) % 64, (vb / 4096) % 64);
    if n >= 2 {
        assert(ga[2] == gb[2]);
        lemma_b64_char_injective(url_safe, (va / 64) % 64, (vb / 64) % 64);
    } else {
        assert(va % 4096 == 0 && vb % 4096 == 0);
        assert((va / 64) % 64 == 0) by (nonlinear_arith)
            requires
                va % 4096 == 0,
                0 <= va,
        ;
        assert((vb / 64) % 64 == 0) by (nonlinear_arith)
            requires
                vb % 4096 == 0,
                0 <= vb,
        ;
    }
    if n == 3 {
        assert(ga[3] == gb[3]);
        lemma_b64_char_injective(url_safe, va % 64, vb % 64);
    } else {
        assert(va % 64 == 0 && vb % 64 == 0);
    }
    lemma_sextets_determine(va, vb);
    lemma_bytes_of_value(a0, a1, a2, b0, b1, b2);
}

/// Law: the encoding is one-to-one, so a decoder gives back exactly the
/// bytes that were encoded.
pub proof fn law_b64_nopad_injective(url_safe: bool, a: Seq<u8>, b: Seq<u8>)
    requires
        b64_nopad(url_safe, a) == b64_nopad(url_safe, b),
    ensures
        a == b,
    decreases a.len(),
{
    law_b64_nopad_len(url_safe, a);
    law_b64_nopad_len(url_safe, b);
    lemma_b64_nopad_len_injective(a.len() as int, b.len() as int);
    if a.len() > 0 {
        let len = a.len() as int;
        let m = last_group_start(len);
        let pa = a.subrange(0, m);
        let pb = b.subrange(0, m);
        let ca = a.subrange(m, len);
        let cb = b.subrange(m, len);
        law_b64_nopad_len(url_safe, pa);
        law_b64_nopad_len(url_safe, pb);
        let ea = b64_nopad(url_safe, pa);
        let eb = b64_nopad(url_safe, pb);
        let whole = b64_nopad(url_safe, a);
        assert(whole == ea + b64_chunk(url_safe, ca));
        assert(whole == eb + b64_chunk(url_safe, cb));
        assert(ea =~= whole.subrange(0, ea.len() as int));
        assert(eb =~= whole.subrange(0, ea.len() as int));
        assert(b64_chunk(url_safe, ca) =~= whole.subrange(ea.len() as int, whole.len() as int));
        assert(b64_chunk(url_safe, cb) =~= whole.subrange(ea.len() as int, whole.len() as int));
        law_b64_nopad_injective(url_safe, pa, pb);
        let n = len - m;
        lemma_group_injective(
            url_safe,
            ca[0] as int,
            if n > 1 { ca[1] as int } else { 0 },
            if n > 2 { ca[2] as int } else { 0 },
            cb[0] as int,
            if n > 1 { cb[1] as int } else { 0 },
            if n > 2 { cb[2] as int } else { 0 },
            n,
        );
        assert(ca =~= cb);
        assert(a =~= pa + ca);
        assert(b =~= pb + cb);
    }
}

/// Encoding a prefix that ends a group extends the encoding of the prefix
/// before that group by the group's characters.
proof fn lemma_b64_nopad_extend(url_safe: bool, b: Seq<u8>, i: int, n: int)
    requires
        0 <= i,
        i % 3 == 0,
        1 <= n <= 3,
        i + n <= b.len(),
    ensures
        b64_nopad(url_safe, b.subrange(0, i + n)) == b64_nopad(url_safe, b.subrange(0, i))
            + b64_group(
            url_safe,
            b[i] as int,
            if n > 1 { b[i + 1] as int } else { 0 },
            if n > 2 { b[i + 2] as int } else { 0 },
            n,
        ),
{
    let p = b.subrange(0, i + n);
    assert(last_group_start(i + n) == i);
    assert(p.subrange(0, i) =~= b.subrange(0, i));
    let c = p.subrange(i, i + n);
    assert(c.len() == n);
    assert(c[0] == b[i]);
    assert(n > 1 ==> c[1] == b[i + 1]);
    assert(n > 2 ==> c[2] == b[i + 2]);
}

/// Appends the URL-safe characters of a group of `n` bytes.
fn push_group(out: &mut String, b0: u8, b1: u8, b2: u8, n: usize)
    requires
        1 <= n <= 3,
    ensures
        final(out)@ == old(out)@ + b64_group(true, b0 as int, b1 as int, b2 as int, n as int),
{
    let v: u32 = (b0 as u32) * 65536 + (b1 as u32) * 256 + (b2 as u32);
    let ghost g = b64_group(true, b0 as int, b1 as int, b2 as int, n as int);
    let ghost before = out@;
    push_char(out, url_char((v / 262144) as u8));
    push_char(out, url_char(((v / 4096) % 64) as u8));
    if n > 1 {
        push_char(out, url_char(((v / 64) % 64) as u8));
    }
    if n > 2 {
        push_char(out, url_char((v % 64) as u8));
    }
    assert(out@ =~= before + g);
}

/// The URL-safe base64 of `bytes`, without padding.
#[verifier::spinoff_prover]
pub fn base64_url(bytes: &[u8]) -> (out: String)
    ensures
        out@ == b64_nopad(true, bytes@),
{
    let len = bytes.len();
    let mut out = String::new();
    let mut i: usize = 0;
    while i < len
        invariant
            len == bytes@.len(),
            i <= len,
            i % 3 == 0 || i == len,
            out@ == b64_nopad(true, bytes@.subrange(0, i as int)),
        decreases len - i,
    {
        let rem: usize = len - i;
        let n: usize = if rem >= 3 { 3 } else { rem };
        let b0: u8 = bytes[i];
        let b1: u8 = if n > 1 { bytes[i + 1] } else { 0 };
        let b2: u8 = if n > 2 { bytes[i + 2] } else { 0 };
        let ghost before = out@;
        push_group(&mut out, b0, b1, b2, n);
        proof {
            lemma_b64_nopad_extend(true, bytes@, i as int, n as int);
        }
        i = i + n;
    }
    proof {
        assert(bytes@.subrange(0, len as int) =~= bytes@);
    }
    out
}

} // verus!
