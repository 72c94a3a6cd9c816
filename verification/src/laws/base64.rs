//! Laws of base64.

use crate::base64;
use vstd::arithmetic::div_mod;
use vstd::prelude::*;

verus! {

/// The character at a place of the alphabet.
pub open spec fn letter(v: int) -> char {
    "ABCDEFGHIJKLMNOPQRSTUVWXYZabcdefghijklmnopqrstuvwxyz0123456789+/"@[v]
}

/// The byte at `i`, or zero behind the end.
pub open spec fn byte(bytes: Seq<u8>, i: int) -> int {
    if 0 <= i < bytes.len() {
        bytes[i] as int
    } else {
        0
    }
}

#[verifier::rlimit(60)]
proof fn lemma_alphabet(v: int)
    requires
        0 <= v < 64,
    ensures
        base64::sextet_char(v) == letter(v),
{
    reveal_strlit("ABCDEFGHIJKLMNOPQRSTUVWXYZabcdefghijklmnopqrstuvwxyz0123456789+/");
}

proof fn lemma_bits(b0: int, b1: int, b2: int)
    requires
        0 <= b0 < 256,
        0 <= b1 < 256,
        0 <= b2 < 256,
    ensures
        ({
            let n = b0 * 65536 + b1 * 256 + b2;
            &&& n / 262144 == b0 / 4
            &&& n / 4096 % 64 == b0 % 4 * 16 + b1 / 16
            &&& n / 64 % 64 == b1 % 16 * 4 + b2 / 64
            &&& n % 64 == b2 % 64
        }),
{
    let n = b0 * 65536 + b1 * 256 + b2;
    let x = b0 / 4;
    let y = b0 % 4;
    let z = b1 / 16;
    let w = b1 % 16;
    let u = b2 / 64;
    let t = b2 % 64;
    assert(b0 == 4 * x + y && b1 == 16 * z + w && b2 == 64 * u + t);
    div_mod::lemma_fundamental_div_mod_converse(
        n,
        262144,
        x,
        65536 * y + 4096 * z + 256 * w + 64 * u + t,
    );
    div_mod::lemma_fundamental_div_mod_converse(
        n,
        4096,
        64 * x + 16 * y + z,
        256 * w + 64 * u + t,
    );
    div_mod::lemma_fundamental_div_mod_converse(64 * x + 16 * y + z, 64, x, 16 * y + z);
    div_mod::lemma_fundamental_div_mod_converse(
        n,
        64,
        4096 * x + 1024 * y + 64 * z + 4 * w + u,
        t,
    );
    div_mod::lemma_fundamental_div_mod_converse(
        4096 * x + 1024 * y + 64 * z + 4 * w + u,
        64,
        64 * x + 16 * y + z,
        4 * w + u,
    );
}

/// The four characters of group `g` of the text.
pub open spec fn is_group(bytes: Seq<u8>, text: Seq<char>, g: int) -> bool {
    let b0 = byte(bytes, 3 * g);
    let b1 = byte(bytes, 3 * g + 1);
    let b2 = byte(bytes, 3 * g + 2);
    &&& text[4 * g] == letter(b0 / 4)
    &&& text[4 * g + 1] == letter(b0 % 4 * 16 + b1 / 16)
    &&& text[4 * g + 2] == if 3 * g + 1 < bytes.len() {
        letter(b1 % 16 * 4 + b2 / 64)
    } else {
        '='
    }
    &&& text[4 * g + 3] == if 3 * g + 2 < bytes.len() {
        letter(b2 % 64)
    } else {
        '='
    }
}

proof fn lemma_one_group(bytes: Seq<u8>)
    requires
        1 <= bytes.len() <= 3,
    ensures
        base64::group(bytes).len() == 4,
        is_group(bytes, base64::group(bytes), 0),
{
    let b0 = byte(bytes, 0);
    let b1 = byte(bytes, 1);
    let b2 = byte(bytes, 2);
    lemma_bits(b0, b1, b2);
    lemma_alphabet(b0 / 4);
    lemma_alphabet(b0 % 4 * 16 + b1 / 16);
    lemma_alphabet(b1 % 16 * 4 + b2 / 64);
    lemma_alphabet(b2 % 64);
}

proof fn lemma_groups(bytes: Seq<u8>, g: int)
    requires
        0 <= 3 * g < bytes.len(),
    ensures
        base64::encoded(bytes).len() == (bytes.len() + 2) / 3 * 4,
        is_group(bytes, base64::encoded(bytes), g),
    decreases bytes.len(),
{
    base64::law_base64_shape(bytes);
    if bytes.len() <= 3 {
        lemma_one_group(bytes);
    } else {
        let first = bytes.take(3);
        let rest = bytes.skip(3);
        lemma_one_group(first);
        let text = base64::group(first) + base64::encoded(rest);
        assert(base64::encoded(bytes) == text);
        if g == 0 {
            let q = base64::group(first);
            assert(text[0] == q[0] && text[1] == q[1] && text[2] == q[2] && text[3] == q[3]);
            assert(byte(bytes, 0) == byte(first, 0));
            assert(byte(bytes, 1) == byte(first, 1));
            assert(byte(bytes, 2) == byte(first, 2));
        } else {
            lemma_groups(rest, g - 1);
            let t = base64::encoded(rest);
            base64::law_base64_shape(rest);
            assert(text[4 * g] == t[4 * (g - 1)]);
            assert(text[4 * g + 1] == t[4 * (g - 1) + 1]);
            assert(text[4 * g + 2] == t[4 * (g - 1) + 2]);
            assert(text[4 * g + 3] == t[4 * (g - 1) + 3]);
            assert(byte(bytes, 3 * g) == byte(rest, 3 * (g - 1)));
            assert(byte(bytes, 3 * g + 1) == byte(rest, 3 * (g - 1) + 1));
            assert(byte(bytes, 3 * g + 2) == byte(rest, 3 * (g - 1) + 2));
        }
    }
}

/// Each three bytes are four characters of the alphabet, six bits each from the highest on; the
/// characters of the last four that hold no bits are padding.
pub proof fn law_base64(input: &[u8], r: String, g: int)
    requires
        call_ensures(base64::base64_encode, (input,), r),
    ensures
        r@.len() == (input@.len() + 2) / 3 * 4,
        0 <= 3 * g < input@.len() ==> is_group(input@, r@, g),
{
    base64::law_base64_shape(input@);
    if 0 <= 3 * g < input@.len() {
        lemma_groups(input@, g);
    }
}

} // verus!
