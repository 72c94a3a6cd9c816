//! Base64 as RFC 4648 defines it, with padding.

use vstd::prelude::*;
use vstd::slice::slice_subrange;
use vstd::utf8::*;

verus! {

/// The character that stands for six bits.
pub open spec fn sextet_char(v: int) -> char {
    if v < 26 {
        ('A' as int + v) as char
    } else if v < 52 {
        ('a' as int + (v - 26)) as char
    } else if v < 62 {
        ('0' as int + (v - 52)) as char
    } else if v == 62 {
        '+'
    } else {
        '/'
    }
}

/// The four characters that stand for twenty-four bits.
pub open spec fn quad(n: int) -> Seq<char> {
    seq![
        sextet_char(n / 262144),
        sextet_char(n / 4096 % 64),
        sextet_char(n / 64 % 64),
        sextet_char(n % 64),
    ]
}

/// The four characters for a group of one to three bytes: the group is filled up with zero bits,
/// and the characters that hold none of its bits are written as `=`.
pub open spec fn group(g: Seq<u8>) -> Seq<char> {
    if g.len() == 1 {
        quad(g[0] * 65536).take(2) + seq!['=', '=']
    } else if g.len() == 2 {
        quad(g[0] * 65536 + g[1] * 256).take(3) + seq!['=']
    } else {
        quad(g[0] * 65536 + g[1] * 256 + g[2])
    }
}

/// The encoding of `bytes`: group by group, of three bytes each but for the last.
pub open spec fn encoded(bytes: Seq<u8>) -> Seq<char>
    decreases bytes.len(),
{
    if bytes.len() == 0 {
        Seq::empty()
    } else if bytes.len() <= 3 {
        group(bytes)
    } else {
        group(bytes.take(3)) + encoded(bytes.skip(3))
    }
}

/// The character that stands for six bits.
fn encode_sextet(v: u32) -> (r: char)
    requires
        v < 64,
    ensures
        r == sextet_char(v as int),
{
    if v < 26 {
        (65 + v as u8) as char
    } else if v < 52 {
        (97 + (v - 26) as u8) as char
    } else if v < 62 {
        (48 + (v - 52) as u8) as char
    } else if v == 62 {
        '+'
    } else {
        '/'
    }
}

/// Appends the four characters for a group of one to three bytes.
fn push_group(out: &mut String, g: &[u8])
    requires
        1 <= g@.len() <= 3,
    ensures
        final(out)@ == old(out)@ + group(g@),
{
    let len: usize = g.len();
    let b0: u32 = g[0] as u32;
    let b1: u32 = if len > 1 {
        g[1] as u32
    } else {
        0
    };
    let b2: u32 = if len > 2 {
        g[2] as u32
    } else {
        0
    };
    let n: u32 = b0 * 65536 + b1 * 256 + b2;
    out.push(encode_sextet(n / 262144));
    out.push(encode_sextet(n / 4096 % 64));
    if len > 1 {
        out.push(encode_sextet(n / 64 % 64));
    } else {
        out.push('=');
    }
    if len > 2 {
        out.push(encode_sextet(n % 64));
    } else {
        out.push('=');
    }
    assert(out@ =~= old(out)@ + group(g@));
}

/// The base64 text of the bytes.
pub fn base64_encode(input: &[u8]) -> (r: String)
    ensures
        r@ == encoded(input@),
{
    let mut out = String::new();
    let len: usize = input.len();
    let mut i: usize = 0;
    assert(input@.skip(0) =~= input@);
    while len - i > 3
        invariant
            len == input@.len(),
            i <= len,
            encoded(input@) == out@ + encoded(input@.skip(i as int)),
        decreases len - i,
    {
        let ghost rest = input@.skip(i as int);
        let ghost done = out@;
        let g = slice_subrange(input, i, i + 3);
        push_group(&mut out, g);
        i = i + 3;
        proof {
            assert(g@ =~= rest.take(3));
            assert(rest.skip(3) =~= input@.skip(i as int));
            assert(done + (group(g@) + encoded(rest.skip(3))) =~= out@ + encoded(rest.skip(3)));
        }
    }
    if i < len {
        let g = slice_subrange(input, i, len);
        assert(g@ =~= input@.skip(i as int));
        push_group(&mut out, g);
    }
    assert(out@ =~= encoded(input@));
    out
}

// ---------------------------------------------------------------------------------------------
// Reading base64
// ---------------------------------------------------------------------------------------------

/// The six bits that a character stands for.
pub open spec fn sextet_value(c: char) -> int {
    if 'A' <= c <= 'Z' {
        c as int - 'A' as int
    } else if 'a' <= c <= 'z' {
        c as int - 'a' as int + 26
    } else if '0' <= c <= '9' {
        c as int - '0' as int + 52
    } else if c == '+' {
        62
    } else {
        63
    }
}

/// The one to three bytes that four characters stand for.
pub open spec fn group_bytes(q: Seq<char>) -> Seq<u8> {
    let high = sextet_value(q[0]) * 262144 + sextet_value(q[1]) * 4096;
    if q[2] == '=' {
        seq![(high / 65536) as u8]
    } else if q[3] == '=' {
        let n = high + sextet_value(q[2]) * 64;
        seq![(n / 65536) as u8, (n / 256 % 256) as u8]
    } else {
        let n = high + sextet_value(q[2]) * 64 + sextet_value(q[3]);
        seq![(n / 65536) as u8, (n / 256 % 256) as u8, (n % 256) as u8]
    }
}

/// The bytes that base64 text stands for.
pub open spec fn decoded(s: Seq<char>) -> Seq<u8>
    decreases s.len(),
{
    if s.len() < 4 {
        Seq::empty()
    } else {
        group_bytes(s.take(4)) + decoded(s.skip(4))
    }
}

proof fn lemma_sextet(v: int)
    requires
        0 <= v < 64,
    ensures
        sextet_value(sextet_char(v)) == v,
        sextet_char(v) != '=',
{
}

proof fn lemma_twenty_four_bits(n: int)
    requires
        0 <= n < 16777216,
    ensures
        0 <= n / 262144 < 64,
        n / 262144 * 262144 + n / 4096 % 64 * 4096 + n / 64 % 64 * 64 + n % 64 == n,
        n % 4096 == 0 ==> n / 64 % 64 == 0,
{
}

proof fn lemma_three_bytes(b0: int, b1: int, b2: int)
    requires
        0 <= b0 < 256,
        0 <= b1 < 256,
        0 <= b2 < 256,
    ensures
        0 <= b0 * 65536 + b1 * 256 + b2 < 16777216,
        (b0 * 65536 + b1 * 256 + b2) / 65536 == b0,
        (b0 * 65536 + b1 * 256 + b2) / 256 % 256 == b1,
        (b0 * 65536 + b1 * 256 + b2) % 256 == b2,
        (b0 * 65536 + b1 * 256) % 64 == 0,
        (b0 * 65536) % 4096 == 0,
        (b0 * 65536) % 64 == 0,
{
}

proof fn lemma_group(g: Seq<u8>)
    requires
        1 <= g.len() <= 3,
    ensures
        group(g).len() == 4,
        group_bytes(group(g)) == g,
{
    let b0 = g[0] as int;
    let b1: int = if g.len() > 1 {
        g[1] as int
    } else {
        0
    };
    let b2: int = if g.len() > 2 {
        g[2] as int
    } else {
        0
    };
    let n = b0 * 65536 + b1 * 256 + b2;
    lemma_three_bytes(b0, b1, b2);
    lemma_twenty_four_bits(n);
    let v0 = n / 262144;
    let v1 = n / 4096 % 64;
    let v2 = n / 64 % 64;
    let v3 = n % 64;
    lemma_sextet(v0);
    lemma_sextet(v1);
    lemma_sextet(v2);
    lemma_sextet(v3);
    let q = group(g);
    assert(q[0] == sextet_char(v0) && q[1] == sextet_char(v1));
    if g.len() == 1 {
        assert(q[2] == '=');
        assert(group_bytes(q) == seq![((v0 * 262144 + v1 * 4096) / 65536) as u8]);
    } else if g.len() == 2 {
        assert(q[2] == sextet_char(v2) && q[3] == '=');
        let m = v0 * 262144 + v1 * 4096 + v2 * 64;
        assert(m == n);
        assert(group_bytes(q) == seq![(m / 65536) as u8, (m / 256 % 256) as u8]);
    } else {
        assert(q[2] == sextet_char(v2) && q[3] == sextet_char(v3));
        let m = v0 * 262144 + v1 * 4096 + v2 * 64 + v3;
        assert(m == n);
        assert(group_bytes(q) == seq![
            (m / 65536) as u8,
            (m / 256 % 256) as u8,
            (m % 256) as u8,
        ]);
    }
    assert(group_bytes(q) =~= g);
}

/// Reading the text gives back the bytes that were encoded.
pub proof fn law_base64_round_trip(bytes: Seq<u8>)
    ensures
        decoded(encoded(bytes)) == bytes,
    decreases bytes.len(),
{
    let s = encoded(bytes);
    if bytes.len() == 0 {
    } else if bytes.len() <= 3 {
        lemma_group(bytes);
        assert(s.take(4) =~= s);
        assert(s.skip(4) =~= Seq::empty());
        assert(decoded(s.skip(4)) =~= Seq::empty());
        assert(bytes + Seq::<u8>::empty() =~= bytes);
    } else {
        lemma_group(bytes.take(3));
        law_base64_round_trip(bytes.skip(3));
        assert(s.take(4) =~= group(bytes.take(3)));
        assert(s.skip(4) =~= encoded(bytes.skip(3)));
        assert(bytes.take(3) + bytes.skip(3) =~= bytes);
    }
}

/// Different bytes have different texts.
pub proof fn law_base64_is_injective(a: Seq<u8>, b: Seq<u8>)
    requires
        encoded(a) == encoded(b),
    ensures
        a == b,
{
    law_base64_round_trip(a);
    law_base64_round_trip(b);
}

/// The text has four characters for every three bytes begun, all of them ASCII.
pub proof fn law_base64_shape(bytes: Seq<u8>)
    ensures
        encoded(bytes).len() == (bytes.len() + 2) / 3 * 4,
        is_ascii_chars(encoded(bytes)),
    decreases bytes.len(),
{
    if bytes.len() > 3 {
        law_base64_shape(bytes.skip(3));
    }
}

} // verus!
