use vstd::prelude::*;
use vstd::string::StringSliceAdditionalSpecFns;

verus! {

/// The characters of a run of ASCII bytes.
pub open spec fn ascii_chars(b: Seq<u8>) -> Seq<char> {
    b.map_values(|x: u8| x as char)
}

/// The decimal digits of `n`, most significant first.
pub open spec fn decimal_chars(n: nat) -> Seq<char>
    decreases n,
{
    if n < 10 {
        seq![((n + 48) as u8) as char]
    } else {
        decimal_chars(n / 10).push((((n % 10) + 48) as u8) as char)
    }
}

/// Appends a character to a string.
/// Calls `String::push`, which appends the character at the end.
#[verifier::external_body]
pub fn push_byte_char(s: &mut String, b: u8)
    ensures
        final(s)@ == old(s)@.push(b as char),
{
    s.push(b as char);
}

/// The string made of a run of ASCII bytes.
/// Calls `String::from_utf8`, which succeeds on valid UTF-8 (ASCII bytes are)
/// and keeps the bytes, so each character is the byte it came from.
#[verifier::external_body]
pub fn ascii_string(bytes: Vec<u8>) -> (r: String)
    requires
        forall|i: int| 0 <= i < bytes@.len() ==> bytes@[i] < 128,
    ensures
        r@ == ascii_chars(bytes@),
{
    String::from_utf8(bytes).unwrap()
}

/// The decimal representation of `n`.
/// Calls `u64::to_string`, whose `Display` output is the number in base ten
/// without sign, padding or separators.
#[verifier::external_body]
pub fn decimal_string(n: u64) -> (r: String)
    ensures
        r@ == decimal_chars(n as nat),
{
    n.to_string()
}

/// A fresh random identifier.
/// Calls `uuid::Uuid::new_v4` and formats it as its 36-character hyphenated
/// form; nothing is stated of which identifier comes out.
#[verifier::external_body]
pub fn new_id() -> (r: String)
    ensures
        r@.len() == 36,
{
    uuid::Uuid::new_v4().to_string()
}

/// The current time as Unix seconds.
/// Calls `chrono::Utc::now`; nothing is stated of the value it reads.
#[verifier::external_body]
pub fn now_seconds() -> (r: i64) {
    chrono::Utc::now().timestamp()
}

// ---------------------------------------------------------------------------
// Base64 (standard alphabet, with `=` padding).

/// The alphabet character for a 6-bit value.
#[verifier::opaque]
pub open spec fn b64_symbol(v: int) -> u8 {
    if v < 26 {
        (v + 65) as u8
    } else if v < 52 {
        (v - 26 + 97) as u8
    } else if v < 62 {
        (v - 52 + 48) as u8
    } else if v == 62 {
        43u8
    } else {
        47u8
    }
}

/// The four characters encoding the bytes `b0 b1 b2`, of which the first `len` count.
#[verifier::opaque]
pub open spec fn encode_values(b0: int, b1: int, b2: int, len: int) -> Seq<u8> {
    let c = b0 * 65536 + b1 * 256 + b2;
    seq![
        b64_symbol(c / 262144 % 64),
        b64_symbol(c / 4096 % 64),
        if len > 1 { b64_symbol(c / 64 % 64) } else { 61u8 },
        if len > 2 { b64_symbol(c % 64) } else { 61u8 },
    ]
}

/// The four characters encoding one group of one to three bytes.
pub open spec fn encode_group(g: Seq<u8>) -> Seq<u8> {
    encode_values(
        g[0] as int,
        if g.len() > 1 { g[1] as int } else { 0 },
        if g.len() > 2 { g[2] as int } else { 0 },
        g.len() as int,
    )
}

/// Base64 encoding of `b`: each group of three bytes (the last may be shorter)
/// becomes four characters.
#[verifier::opaque]
pub open spec fn base64_encoded(b: Seq<u8>) -> Seq<u8>
    decreases b.len(),
{
    if b.len() == 0 {
        Seq::empty()
    } else {
        let k = 3 * ((b.len() - 1) / 3);
        base64_encoded(b.take(k)) + encode_group(b.skip(k))
    }
}

fn symbol(v: u32) -> (r: u8)
    requires
        v < 64,
    ensures
        r == b64_symbol(v as int),
        r < 128,
{
    proof { reveal(b64_symbol); }
    if v < 26 {
        v as u8 + 65
    } else if v < 52 {
        (v - 26) as u8 + 97
    } else if v < 62 {
        (v - 52) as u8 + 48
    } else if v == 62 {
        43
    } else {
        47
    }
}

fn encode_chunk(out: &mut Vec<u8>, b0: u8, b1: u8, b2: u8, len: usize)
    requires
        1 <= len <= 3,
        forall|j: int| 0 <= j < old(out)@.len() ==> old(out)@[j] < 128,
    ensures
        final(out)@ == old(out)@ + encode_values(b0 as int, b1 as int, b2 as int, len as int),
        forall|j: int| 0 <= j < final(out)@.len() ==> final(out)@[j] < 128,
{
    let c: u32 = b0 as u32 * 65536 + b1 as u32 * 256 + b2 as u32;
    let s0 = symbol(c / 262144 % 64);
    let s1 = symbol(c / 4096 % 64);
    let s2: u8 = if len > 1 { symbol(c / 64 % 64) } else { 61 };
    let s3: u8 = if len > 2 { symbol(c % 64) } else { 61 };
    out.push(s0);
    out.push(s1);
    out.push(s2);
    let ghost before = old(out)@;
    out.push(s3);
    reveal(encode_values);
    assert(out@ =~= before + encode_values(b0 as int, b1 as int, b2 as int, len as int));
}

/// Encoding a longer prefix appends the encoding of the next group.
proof fn lemma_encoded_step(b: Seq<u8>, i: int, len: int)
    requires
        0 <= i,
        i % 3 == 0,
        1 <= len <= 3,
        i + len <= b.len(),
        len < 3 ==> i + len == b.len(),
    ensures
        base64_encoded(b.take(i + len)) == base64_encoded(b.take(i)) + encode_values(
            b[i] as int,
            if len > 1 { b[i + 1] as int } else { 0 },
            if len > 2 { b[i + 2] as int } else { 0 },
            len,
        ),
{
    reveal(base64_encoded);
    let next = b.take(i + len);
    lemma_group_start(i, i + len);
    assert(next.take(i) =~= b.take(i));
    let g = next.skip(i);
    assert(g =~= b.subrange(i, i + len));
    assert(g[0] == b[i]);
    if len > 1 {
        assert(g[1] == b[i + 1]);
    }
    if len > 2 {
        assert(g[2] == b[i + 2]);
    }
}

proof fn lemma_group_start(i: int, n: int)
    requires
        0 <= i < n,
        i % 3 == 0,
        n <= i + 3,
    ensures
        3 * ((n - 1) / 3) == i,
{
    assert(3 * ((n - 1) / 3) == i) by (nonlinear_arith)
        requires
            0 <= i < n,
            i % 3 == 0,
            n <= i + 3,
    ;
}

/// Base64-encodes `input`.
pub fn base64_encode(input: &[u8]) -> (r: String)
    ensures
        r@ == ascii_chars(base64_encoded(input@)),
{
    let n = input.len();
    let mut out: Vec<u8> = Vec::new();
    let mut i: usize = 0;
    proof {
        reveal(base64_encoded);
        assert(input@.take(0) =~= Seq::<u8>::empty());
    }
    while i < n
        invariant
            n == input@.len(),
            i <= n,
            i < n ==> i % 3 == 0,
            out@ == base64_encoded(input@.take(i as int)),
            forall|j: int| 0 <= j < out@.len() ==> out@[j] < 128,
        decreases n - i,
    {
        let len: usize = if n - i >= 3 { 3 } else { n - i };
        let b0 = input[i];
        let b1: u8 = if len > 1 { input[i + 1] } else { 0 };
        let b2: u8 = if len > 2 { input[i + 2] } else { 0 };
        proof { lemma_encoded_step(input@, i as int, len as int); }
        encode_chunk(&mut out, b0, b1, b2, len);
        i = i + len;
    }
    assert(input@.take(n as int) =~= input@);
    ascii_string(out)
}

/// The 6-bit value of a base64 character; `=` counts as zero.
#[verifier::opaque]
pub open spec fn b64_value(c: u8) -> Option<u32> {
    if 65 <= c <= 90 {
        Some((c - 65) as u32)
    } else if 97 <= c <= 122 {
        Some((c - 97 + 26) as u32)
    } else if 48 <= c <= 57 {
        Some((c - 48 + 52) as u32)
    } else if c == 43 {
        Some(62)
    } else if c == 47 {
        Some(63)
    } else if c == 61 {
        Some(0)
    } else {
        None
    }
}

/// The bytes of one four-character group, or the first character that is not
/// base64.
pub open spec fn decode_group(g: Seq<u8>) -> Result<Seq<u8>, u8> {
    if b64_value(g[0]) is None {
        Err(g[0])
    } else if b64_value(g[1]) is None {
        Err(g[1])
    } else if b64_value(g[2]) is None {
        Err(g[2])
    } else if b64_value(g[3]) is None {
        Err(g[3])
    } else {
        let c = b64_value(g[0])->0 * 262144 + b64_value(g[1])->0 * 4096 + b64_value(g[2])->0 * 64 + b64_value(g[3])->0;
        let first = seq![(c / 65536 % 256) as u8];
        let second = if g[2] != 61 { first.push((c / 256 % 256) as u8) } else { first };
        Ok(if g[3] != 61 { second.push((c % 256) as u8) } else { second })
    }
}

/// The bytes of the first `m` four-character groups of `b`.
pub open spec fn decode_groups(b: Seq<u8>, m: int) -> Result<Seq<u8>, u8>
    decreases m,
{
    if m <= 0 {
        Ok(Seq::empty())
    } else {
        match decode_groups(b, m - 1) {
            Err(c) => Err(c),
            Ok(prev) => match decode_group(b.subrange(4 * (m - 1), 4 * m)) {
                Err(c) => Err(c),
                Ok(bytes) => Ok(prev + bytes),
            },
        }
    }
}

/// Base64 decoding of `b`: every complete group of four characters is
/// decoded and a trailing incomplete group is ignored.
pub open spec fn base64_decoded(b: Seq<u8>) -> Result<Seq<u8>, u8> {
    decode_groups(b, (b.len() / 4) as int)
}

/// The error message for a character that is not base64.
pub open spec fn invalid_char_message(c: u8) -> Seq<char> {
    "Invalid base64 char: "@.push(c as char)
}

fn value(c: u8) -> (r: Result<u32, String>)
    ensures
        match r {
            Ok(v) => b64_value(c) == Some(v) && v < 64,
            Err(e) => b64_value(c) is None && e@ == invalid_char_message(c),
        },
{
    proof { reveal(b64_value); }
    if c >= 65 && c <= 90 {
        Ok((c - 65) as u32)
    } else if c >= 97 && c <= 122 {
        Ok((c - 97 + 26) as u32)
    } else if c >= 48 && c <= 57 {
        Ok((c - 48 + 52) as u32)
    } else if c == 43 {
        Ok(62)
    } else if c == 47 {
        Ok(63)
    } else if c == 61 {
        Ok(0)
    } else {
        let mut e = String::from_str("Invalid base64 char: ");
        push_byte_char(&mut e, c);
        Err(e)
    }
}

/// Decodes base64 text. Characters outside the alphabet are refused with a
/// message naming the first one met.
pub fn base64_decode(input: &str) -> (r: Result<Vec<u8>, String>)
    ensures
        match base64_decoded(input.spec_bytes()) {
            Ok(bytes) => r matches Ok(v) && v@ == bytes,
            Err(c) => r matches Err(e) && e@ == invalid_char_message(c),
        },
{
    let bytes = input.as_bytes();
    let groups = bytes.len() / 4;
    let mut out: Vec<u8> = Vec::new();
    let mut m: usize = 0;
    while m < groups
        invariant
            bytes@ == input.spec_bytes(),
            groups == bytes@.len() / 4,
            m <= groups,
            decode_groups(bytes@, m as int) == Ok::<Seq<u8>, u8>(out@),
        decreases groups - m,
    {
        assert(4 * m + 4 <= bytes@.len()) by (nonlinear_arith)
            requires m < groups, groups == bytes@.len() / 4;
        let p = 4 * m;
        let ghost g = bytes@.subrange(p as int, p + 4);
        assert(g[0] == bytes@[p as int] && g[1] == bytes@[p + 1] && g[2] == bytes@[p + 2] && g[3] == bytes@[p + 3]);
        let v0 = match value(bytes[p]) {
            Ok(v) => v,
            Err(e) => {
                proof { lemma_decode_error_stable(bytes@, m as int + 1, groups as int); }
                return Err(e);
            }
        };
        let v1 = match value(bytes[p + 1]) {
            Ok(v) => v,
            Err(e) => {
                proof { lemma_decode_error_stable(bytes@, m as int + 1, groups as int); }
                return Err(e);
            }
        };
        let v2 = match value(bytes[p + 2]) {
            Ok(v) => v,
            Err(e) => {
                proof { lemma_decode_error_stable(bytes@, m as int + 1, groups as int); }
                return Err(e);
            }
        };
        let v3 = match value(bytes[p + 3]) {
            Ok(v) => v,
            Err(e) => {
                proof { lemma_decode_error_stable(bytes@, m as int + 1, groups as int); }
                return Err(e);
            }
        };
        let c: u32 = v0 * 262144 + v1 * 4096 + v2 * 64 + v3;
        let ghost before = out@;
        out.push((c / 65536 % 256) as u8);
        if bytes[p + 2] != 61 {
            out.push((c / 256 % 256) as u8);
        }
        if bytes[p + 3] != 61 {
            out.push((c % 256) as u8);
        }
        proof {
            let d = decode_group(g);
            assert(d is Ok);
            let bytes_of_group = d.unwrap();
            assert(out@ =~= before + bytes_of_group);
        }
        m = m + 1;
    }
    Ok(out)
}

proof fn lemma_decode_error_stable(b: Seq<u8>, k: int, m: int)
    requires
        0 <= k <= m,
        decode_groups(b, k) is Err,
    ensures
        decode_groups(b, m) == decode_groups(b, k),
    decreases m - k,
{
    if m > k {
        lemma_decode_error_stable(b, k, m - 1);
    }
}

/// A 6-bit value survives the trip through its alphabet character, which is
/// never the padding character.
proof fn lemma_symbol_value(v: int)
    requires
        0 <= v < 64,
    ensures
        b64_value(b64_symbol(v)) == Some(v as u32),
        b64_symbol(v) != 61,
        b64_symbol(v) < 128,
        b64_value(61) == Some(0u32),
{
    reveal(b64_symbol);
    reveal(b64_value);
}

/// The arithmetic of one group: the four 6-bit digits of the 24-bit number
/// made of three bytes give the number back, and its bytes are the bytes.
proof fn lemma_group_digits(b0: int, b1: int, b2: int)
    by (nonlinear_arith)
    requires
        0 <= b0 < 256,
        0 <= b1 < 256,
        0 <= b2 < 256,
    ensures
        ({
            let c = b0 * 65536 + b1 * 256 + b2;
            &&& (c / 262144 % 64) * 262144 + (c / 4096 % 64) * 4096 + (c / 64 % 64) * 64 + c % 64 == c
            &&& c / 65536 % 256 == b0
            &&& c / 256 % 256 == b1
            &&& c % 256 == b2
            &&& b2 == 0 ==> c % 64 == 0
            &&& b1 == 0 && b2 == 0 ==> c / 64 % 64 == 0
        }),
{
}

/// Decoding four characters whose 6-bit values are known.
proof fn lemma_decode_values(e: Seq<u8>, v0: int, v1: int, v2: int, v3: int)
    requires
        e.len() == 4,
        b64_value(e[0]) == Some(v0 as u32),
        b64_value(e[1]) == Some(v1 as u32),
        b64_value(e[2]) == Some(v2 as u32),
        b64_value(e[3]) == Some(v3 as u32),
        0 <= v0 < 64, 0 <= v1 < 64, 0 <= v2 < 64, 0 <= v3 < 64,
    ensures
        ({
            let c = v0 * 262144 + v1 * 4096 + v2 * 64 + v3;
            let first = seq![(c / 65536 % 256) as u8];
            let second = if e[2] != 61 { first.push((c / 256 % 256) as u8) } else { first };
            decode_group(e) == Ok::<Seq<u8>, u8>(if e[3] != 61 { second.push((c % 256) as u8) } else { second })
        }),
{
}

/// Decoding the four characters of a group gives the group back.
proof fn lemma_group_round_trip(g: Seq<u8>)
    requires
        1 <= g.len() <= 3,
    ensures
        encode_group(g).len() == 4,
        decode_group(encode_group(g)) == Ok::<Seq<u8>, u8>(g),
        forall|i: int| 0 <= i < 4 ==> #[trigger] encode_group(g)[i] < 128,
{
    reveal(encode_values);
    let b0 = g[0] as int;
    let b1 = if g.len() > 1 { g[1] as int } else { 0 };
    let b2 = if g.len() > 2 { g[2] as int } else { 0 };
    let c = b0 * 65536 + b1 * 256 + b2;
    lemma_group_digits(b0, b1, b2);
    let d0 = c / 262144 % 64;
    let d1 = c / 4096 % 64;
    let d2 = c / 64 % 64;
    let d3 = c % 64;
    lemma_symbol_value(d0);
    lemma_symbol_value(d1);
    lemma_symbol_value(d2);
    lemma_symbol_value(d3);
    let e = encode_group(g);
    assert(e == seq![
        b64_symbol(d0),
        b64_symbol(d1),
        if g.len() > 1 { b64_symbol(d2) } else { 61u8 },
        if g.len() > 2 { b64_symbol(d3) } else { 61u8 },
    ]);
    let v2 = if g.len() > 1 { d2 } else { 0 };
    let v3 = if g.len() > 2 { d3 } else { 0 };
    lemma_decode_values(e, d0, d1, v2, v3);
    assert(d0 * 262144 + d1 * 4096 + v2 * 64 + v3 == c);
    let first = seq![(c / 65536 % 256) as u8];
    assert(first =~= g.take(1));
    if g.len() == 1 {
        assert(first =~= g);
    } else if g.len() == 2 {
        assert(first.push((c / 256 % 256) as u8) =~= g);
    } else {
        assert(first.push((c / 256 % 256) as u8).push((c % 256) as u8) =~= g);
    }
}

/// Decoding the first `m` groups reads only the first `4 * m` characters.
proof fn lemma_decode_prefix(a: Seq<u8>, b: Seq<u8>, m: int)
    requires
        0 <= m,
        4 * m <= a.len(),
    ensures
        decode_groups(a + b, m) == decode_groups(a, m),
    decreases m,
{
    if m > 0 {
        lemma_decode_prefix(a, b, m - 1);
        assert((a + b).subrange(4 * (m - 1), 4 * m) =~= a.subrange(4 * (m - 1), 4 * m));
    }
}

/// The encoding of `n` bytes has `4 * ceil(n / 3)` characters, and its groups
/// decode to the bytes.
pub(crate) proof fn lemma_encoded_round_trip(b: Seq<u8>)
    ensures
        base64_encoded(b).len() == 4 * ((b.len() + 2) / 3),
        decode_groups(base64_encoded(b), ((b.len() + 2) / 3) as int) == Ok::<Seq<u8>, u8>(b),
        forall|i: int| 0 <= i < base64_encoded(b).len() ==> #[trigger] base64_encoded(b)[i] < 128,
    decreases b.len(),
{
    reveal(base64_encoded);
    let n = b.len() as int;
    if n == 0 {
        assert(base64_encoded(b) =~= Seq::<u8>::empty());
        assert(b =~= Seq::<u8>::empty());
    } else {
        let k = 3 * ((n - 1) / 3);
        assert(0 <= k < n && n - k <= 3 && k % 3 == 0 && (k + 2) / 3 == k / 3 && (n + 2) / 3 == k / 3 + 1)
            by (nonlinear_arith)
            requires n > 0, k == 3 * ((n - 1) / 3);
        let front = b.take(k);
        let rest = b.skip(k);
        lemma_encoded_round_trip(front);
        lemma_group_round_trip(rest);
        let ef = base64_encoded(front);
        let eg = encode_group(rest);
        let e = base64_encoded(b);
        assert(e == ef + eg);
        assert(ef.len() == 4 * (k / 3));
        lemma_decode_prefix(ef, eg, k / 3);
        assert(e.subrange(4 * (k / 3), 4 * (k / 3 + 1)) =~= eg);
        assert(front + rest =~= b);
        assert forall|i: int| 0 <= i < e.len() implies #[trigger] e[i] < 128 by {
            if i >= ef.len() {
                assert(e[i] == eg[i - ef.len()]);
            }
        }
    }
}

/// Bytes below 128, read as characters and encoded as UTF-8, are the bytes.
pub(crate) proof fn lemma_ascii_utf8(s: Seq<u8>)
    requires
        forall|i: int| 0 <= i < s.len() ==> #[trigger] s[i] < 128,
    ensures
        vstd::utf8::encode_utf8(ascii_chars(s)) == s,
    decreases s.len(),
{
    if s.len() > 0 {
        let chars = ascii_chars(s);
        let b = s[0];
        let v = (b as char) as u32;
        assert(v == b as u32);
        assert(v & 0x7F == v) by (bit_vector)
            requires v < 128;
        assert(vstd::utf8::encode_scalar(v) =~= seq![b]);
        assert(chars.drop_first() =~= ascii_chars(s.drop_first()));
        lemma_ascii_utf8(s.drop_first());
        assert(seq![b] + s.drop_first() =~= s);
    }
}

} // verus!
