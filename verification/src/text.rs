//! Text as sequences of characters: searching, splitting, trimming, and numerals.

use vstd::prelude::*;
use vstd::slice::slice_subrange;
use vstd::utf8::*;

verus! {

/// `String::push` of std: the character goes to the end of the string, and nothing else changes.
pub assume_specification[ String::push ](s: &mut String, c: char)
    ensures
        final(s)@ == old(s)@.push(c),
;

/// Calls `std::str::from_utf8`: the text that the bytes encode where they are well-formed UTF-8,
/// and nothing where they are not.
#[verifier::external_body]
pub(crate) fn utf8_text(bytes: &[u8]) -> (r: Option<&str>)
    ensures
        r is Some <==> valid_utf8(bytes@),
        r matches Some(s) ==> s@ == decode_utf8(bytes@),
{
    std::str::from_utf8(bytes).ok()
}

/// The characters of a string.
pub fn chars_of(s: &str) -> (r: Vec<char>)
    ensures
        r@ == s@,
{
    let mut out: Vec<char> = Vec::new();
    for c in it: s.chars()
        invariant
            out@ == it.seq().take(it.index()),
            it.seq() == s@,
    {
        out.push(c);
        assert(it.seq().take(it.index() + 1) =~= it.seq().take(it.index()).push(c));
    }
    assert(s@.take(s@.len() as int) =~= s@);
    out
}

/// A string of the given characters.
pub fn string_of(chars: &[char]) -> (r: String)
    ensures
        r@ == chars@,
{
    let mut out = String::new();
    let mut i: usize = 0;
    while i < chars.len()
        invariant
            i <= chars@.len(),
            out@ == chars@.take(i as int),
        decreases chars@.len() - i,
    {
        out.push(chars[i]);
        i = i + 1;
        assert(chars@.take(i as int) =~= chars@.take(i - 1).push(chars@[i - 1]));
    }
    assert(chars@.take(i as int) =~= chars@);
    out
}

/// Two texts with the same UTF-8 bytes are the same text.
pub proof fn lemma_bytes_determine_text(a: Seq<char>, b: Seq<char>)
    requires
        encode_utf8(a) == encode_utf8(b),
    ensures
        a == b,
{
    encode_utf8_decode_utf8(a);
    encode_utf8_decode_utf8(b);
}

/// Whether two strings hold the same characters.
pub fn same_text(a: &str, b: &str) -> (r: bool)
    ensures
        r == (a@ == b@),
{
    let x = a.as_bytes();
    let y = b.as_bytes();
    if x.len() != y.len() {
        return false;
    }
    let mut i: usize = 0;
    while i < x.len()
        invariant
            x@ == encode_utf8(a@),
            y@ == encode_utf8(b@),
            i <= x@.len(),
            x@.len() == y@.len(),
            forall|j: int| 0 <= j < i ==> x@[j] == y@[j],
        decreases x@.len() - i,
    {
        if x[i] != y[i] {
            return false;
        }
        i = i + 1;
    }
    proof {
        assert(x@ =~= y@);
        lemma_bytes_determine_text(a@, b@);
    }
    true
}

/// Two pieces of text, one behind the other.
pub(crate) fn joined(a: &str, b: &str) -> (r: String)
    ensures
        r@ == a@ + b@,
{
    let mut out = a.to_owned();
    out.append(b);
    out
}

// ---------------------------------------------------------------------------------------------
// Splitting at a character
// ---------------------------------------------------------------------------------------------

/// What stands before the first `c`; all of `s` where there is none.
pub open spec fn before(s: Seq<char>, c: char) -> Seq<char> {
    match s.index_of_first(c) {
        Some(i) => s.take(i),
        None => s,
    }
}

/// What stands on the two sides of the first `c`.
pub open spec fn split_at_first(s: Seq<char>, c: char) -> Option<(Seq<char>, Seq<char>)> {
    match s.index_of_first(c) {
        Some(i) => Some((s.take(i), s.skip(i + 1))),
        None => None,
    }
}

/// `i` is where the first `c` stands if every earlier place holds something else.
pub proof fn lemma_index_of_first<T>(s: Seq<T>, c: T, i: int)
    requires
        0 <= i < s.len(),
        s[i] == c,
        forall|j: int| 0 <= j < i ==> s[j] != c,
    ensures
        s.index_of_first(c) == Some(i),
{
    s.index_of_first_ensures(c);
    assert(s.contains(c));
    let k = s.index_of_first(c)->0;
    if k < i {
        assert(s[k] != c);
    }
}

/// Text without a `c`, then a `c`, then anything, splits there.
pub proof fn lemma_split_at_first(x: Seq<char>, c: char, y: Seq<char>)
    requires
        !x.contains(c),
    ensures
        split_at_first(x + seq![c] + y, c) == Some((x, y)),
        before(x + seq![c] + y, c) == x,
{
    let s = x + seq![c] + y;
    let i = x.len() as int;
    assert forall|j: int| 0 <= j < i implies s[j] != c by {
        assert(s[j] == x[j]);
    }
    lemma_index_of_first(s, c, i);
    assert(s.take(i) =~= x);
    assert(s.skip(i + 1) =~= y);
}

/// Text without a `c` does not split.
pub proof fn lemma_no_split(s: Seq<char>, c: char)
    requires
        !s.contains(c),
    ensures
        split_at_first(s, c) is None,
        before(s, c) == s,
{
    s.index_of_first_ensures(c);
}

/// Where the first `c` stands.
pub(crate) fn find_char(s: &[char], c: char) -> (r: Option<usize>)
    ensures
        r is Some <==> s@.index_of_first(c) is Some,
        r matches Some(i) ==> i < s@.len() && s@.index_of_first(c) == Some(i as int),
{
    let mut i: usize = 0;
    while i < s.len()
        invariant
            i <= s@.len(),
            forall|j: int| 0 <= j < i ==> s@[j] != c,
        decreases s@.len() - i,
    {
        if s[i] == c {
            proof {
                lemma_index_of_first(s@, c, i as int);
            }
            return Some(i);
        }
        i = i + 1;
    }
    proof {
        s@.index_of_first_ensures(c);
    }
    None
}

/// The part of `s` before the first `c`; all of `s` where there is none.
pub fn text_before<'a>(s: &'a str, c: char) -> (r: &'a str)
    ensures
        r@ == before(s@, c),
{
    let chars = chars_of(s);
    match find_char(&chars, c) {
        Some(i) => s.substring_char(0, i),
        None => s,
    }
}

/// The parts of `s` on the two sides of the first `c`.
pub fn split_text<'a>(s: &'a str, c: char) -> (r: Option<(&'a str, &'a str)>)
    ensures
        r is Some <==> split_at_first(s@, c) is Some,
        r matches Some((x, y)) ==> split_at_first(s@, c) == Some((x@, y@)),
{
    let chars = chars_of(s);
    match find_char(&chars, c) {
        Some(i) => {
            let n: usize = chars.len();
            let x = s.substring_char(0, i);
            let y = s.substring_char(i + 1, n);
            Some((x, y))
        },
        None => None,
    }
}

// ---------------------------------------------------------------------------------------------
// Searching for a run
// ---------------------------------------------------------------------------------------------

/// `needle` stands in `hay` at `i`.
pub open spec fn occurs_at<T>(hay: Seq<T>, needle: Seq<T>, i: int) -> bool {
    0 <= i && i + needle.len() <= hay.len() && hay.subrange(i, i + needle.len()) == needle
}

/// `needle` stands in `hay` at `i` and at no earlier place.
pub open spec fn first_occurs_at<T>(hay: Seq<T>, needle: Seq<T>, i: int) -> bool {
    occurs_at(hay, needle, i) && forall|j: int| 0 <= j < i ==> !occurs_at(hay, needle, j)
}

/// `needle` stands somewhere in `hay`.
pub open spec fn occurs<T>(hay: Seq<T>, needle: Seq<T>) -> bool {
    exists|i: int| occurs_at(hay, needle, i)
}

/// Where `needle` first stands in `hay`.
pub open spec fn position<T>(hay: Seq<T>, needle: Seq<T>) -> Option<int> {
    if occurs(hay, needle) {
        Some(choose|i: int| first_occurs_at(hay, needle, i))
    } else {
        None
    }
}

/// There is one first place.
pub proof fn lemma_position<T>(hay: Seq<T>, needle: Seq<T>, i: int)
    requires
        first_occurs_at(hay, needle, i),
    ensures
        position(hay, needle) == Some(i),
{
    let k = choose|k: int| first_occurs_at(hay, needle, k);
    assert(first_occurs_at(hay, needle, k));
}

/// What occurs at all occurs at some first place.
pub proof fn lemma_position_exists<T>(hay: Seq<T>, needle: Seq<T>, i: int)
    requires
        occurs_at(hay, needle, i),
    ensures
        position(hay, needle) matches Some(k) && k <= i && first_occurs_at(hay, needle, k),
    decreases i,
{
    if exists|j: int| 0 <= j < i && occurs_at(hay, needle, j) {
        let j = choose|j: int| 0 <= j < i && occurs_at(hay, needle, j);
        lemma_position_exists(hay, needle, j);
    } else {
        assert(first_occurs_at(hay, needle, i));
        lemma_position(hay, needle, i);
    }
}

/// Whether the bytes of `needle` stand in `hay` at `i`.
fn bytes_at(hay: &[u8], needle: &[u8], i: usize) -> (r: bool)
    requires
        i + needle@.len() <= hay@.len(),
    ensures
        r == occurs_at(hay@, needle@, i as int),
{
    let n: usize = hay.len();
    let mut k: usize = 0;
    while k < needle.len()
        invariant
            n == hay@.len(),
            i + needle@.len() <= hay@.len(),
            k <= needle@.len(),
            forall|j: int| 0 <= j < k ==> hay@[i + j] == needle@[j],
        decreases needle@.len() - k,
    {
        if hay[i + k] != needle[k] {
            assert(hay@.subrange(i as int, i + needle@.len())[k as int] != needle@[k as int]);
            return false;
        }
        k = k + 1;
    }
    assert(hay@.subrange(i as int, i + needle@.len()) =~= needle@);
    true
}

/// Where the bytes of `needle` first stand in `hay`.
pub fn find_bytes(hay: &[u8], needle: &[u8]) -> (r: Option<usize>)
    ensures
        r is Some <==> position(hay@, needle@) is Some,
        r matches Some(i) ==> position(hay@, needle@) == Some(i as int) && i + needle@.len()
            <= hay@.len(),
{
    if needle.len() > hay.len() {
        return None;
    }
    let last: usize = hay.len() - needle.len();
    let mut i: usize = 0;
    loop
        invariant
            needle@.len() <= hay@.len(),
            last == hay@.len() - needle@.len(),
            i <= last,
            forall|j: int| 0 <= j < i ==> !occurs_at(hay@, needle@, j),
        decreases last - i,
    {
        if bytes_at(hay, needle, i) {
            proof {
                lemma_position(hay@, needle@, i as int);
            }
            return Some(i);
        }
        if i == last {
            return None;
        }
        i = i + 1;
    }
}

/// Whether the characters of `needle` stand in `hay` at `i`.
fn chars_at(hay: &[char], needle: &[char], i: usize) -> (r: bool)
    requires
        i + needle@.len() <= hay@.len(),
    ensures
        r == occurs_at(hay@, needle@, i as int),
{
    let n: usize = hay.len();
    let mut k: usize = 0;
    while k < needle.len()
        invariant
            n == hay@.len(),
            i + needle@.len() <= hay@.len(),
            k <= needle@.len(),
            forall|j: int| 0 <= j < k ==> hay@[i + j] == needle@[j],
        decreases needle@.len() - k,
    {
        if hay[i + k] != needle[k] {
            assert(hay@.subrange(i as int, i + needle@.len())[k as int] != needle@[k as int]);
            return false;
        }
        k = k + 1;
    }
    assert(hay@.subrange(i as int, i + needle@.len()) =~= needle@);
    true
}

/// Whether `needle` stands somewhere in `hay`.
pub fn contains_text(hay: &[char], needle: &str) -> (r: bool)
    ensures
        r == occurs(hay@, needle@),
{
    let needle_chars = chars_of(needle);
    if needle_chars.len() > hay.len() {
        return false;
    }
    let last: usize = hay.len() - needle_chars.len();
    let mut i: usize = 0;
    loop
        invariant
            needle_chars@ == needle@,
            needle@.len() <= hay@.len(),
            last == hay@.len() - needle@.len(),
            i <= last,
            forall|j: int| 0 <= j < i ==> !occurs_at(hay@, needle@, j),
        decreases last - i,
    {
        if chars_at(hay, &needle_chars, i) {
            return true;
        }
        if i == last {
            return false;
        }
        i = i + 1;
    }
}

// ---------------------------------------------------------------------------------------------
// White space
// ---------------------------------------------------------------------------------------------

/// White space, as Unicode defines the property.
pub open spec fn is_space(c: char) -> bool {
    ||| '\u{9}' <= c <= '\u{d}'
    ||| c == ' '
    ||| c == '\u{85}'
    ||| c == '\u{a0}'
    ||| c == '\u{1680}'
    ||| '\u{2000}' <= c <= '\u{200a}'
    ||| c == '\u{2028}'
    ||| c == '\u{2029}'
    ||| c == '\u{202f}'
    ||| c == '\u{205f}'
    ||| c == '\u{3000}'
}

/// `s` without the white space at its start.
pub open spec fn trim_start(s: Seq<char>) -> Seq<char>
    decreases s.len(),
{
    if s.len() > 0 && is_space(s[0]) {
        trim_start(s.drop_first())
    } else {
        s
    }
}

/// `s` without the white space at its end.
pub open spec fn trim_end(s: Seq<char>) -> Seq<char>
    decreases s.len(),
{
    if s.len() > 0 && is_space(s.last()) {
        trim_end(s.drop_last())
    } else {
        s
    }
}

/// `s` without the white space at both its ends.
pub open spec fn trim(s: Seq<char>) -> Seq<char> {
    trim_end(trim_start(s))
}

/// How many characters stand before the first white space.
pub open spec fn word_len(s: Seq<char>) -> nat
    decreases s.len(),
{
    if s.len() > 0 && !is_space(s[0]) {
        1 + word_len(s.drop_first())
    } else {
        0
    }
}

pub proof fn lemma_word_len_bound(s: Seq<char>)
    ensures
        word_len(s) <= s.len(),
    decreases s.len(),
{
    if s.len() > 0 && !is_space(s[0]) {
        lemma_word_len_bound(s.drop_first());
    }
}

pub proof fn lemma_trim_start_len(s: Seq<char>)
    ensures
        trim_start(s).len() <= s.len(),
        trim_start(s).len() > 0 ==> word_len(trim_start(s)) > 0,
    decreases s.len(),
{
    if s.len() > 0 && is_space(s[0]) {
        lemma_trim_start_len(s.drop_first());
    }
}

/// The runs of characters that white space sets apart, in order.
pub open spec fn words(s: Seq<char>) -> Seq<Seq<char>>
    decreases s.len(),
{
    let t = trim_start(s);
    if t.len() == 0 {
        Seq::empty()
    } else {
        proof {
            lemma_trim_start_len(s);
            lemma_word_len_bound(t);
        }
        seq![t.take(word_len(t) as int)] + words(t.skip(word_len(t) as int))
    }
}

/// Text without white space is its own trimmed form.
pub proof fn lemma_trim_nothing(s: Seq<char>)
    requires
        forall|i: int| 0 <= i < s.len() ==> !is_space(#[trigger] s[i]),
    ensures
        trim(s) == s,
{
}

/// Whether a character is white space.
pub fn char_is_space(c: char) -> (r: bool)
    ensures
        r == is_space(c),
{
    ('\u{9}' <= c && c <= '\u{d}') || c == ' ' || c == '\u{85}' || c == '\u{a0}' || c == '\u{1680}'
        || ('\u{2000}' <= c && c <= '\u{200a}') || c == '\u{2028}' || c == '\u{2029}' || c
        == '\u{202f}' || c == '\u{205f}' || c == '\u{3000}'
}

/// `s` without the white space at its start.
fn chars_trim_start(s: &[char]) -> (r: &[char])
    ensures
        r@ == trim_start(s@),
{
    let mut i: usize = 0;
    let n: usize = s.len();
    assert(s@.skip(0) =~= s@);
    while i < n && char_is_space(s[i])
        invariant
            n == s@.len(),
            i <= n,
            trim_start(s@) == trim_start(s@.skip(i as int)),
        decreases n - i,
    {
        assert(s@.skip(i as int).drop_first() =~= s@.skip(i + 1));
        i = i + 1;
    }
    assert(s@.subrange(i as int, n as int) =~= s@.skip(i as int));
    slice_subrange(s, i, n)
}

/// `s` without the white space at both its ends.
pub fn chars_trim(s: &[char]) -> (r: &[char])
    ensures
        r@ == trim(s@),
{
    let t = chars_trim_start(s);
    let mut n: usize = t.len();
    assert(t@.take(n as int) =~= t@);
    while n > 0 && char_is_space(t[n - 1])
        invariant
            n <= t@.len(),
            trim_end(t@) == trim_end(t@.take(n as int)),
        decreases n,
    {
        assert(t@.take(n as int).drop_last() =~= t@.take(n - 1));
        n = n - 1;
    }
    assert(t@.subrange(0, n as int) =~= t@.take(n as int));
    slice_subrange(t, 0, n)
}

/// How many characters stand before the first white space.
fn chars_word_len(s: &[char]) -> (r: usize)
    ensures
        r == word_len(s@),
        r <= s@.len(),
{
    let mut i: usize = 0;
    let n: usize = s.len();
    assert(s@.skip(0) =~= s@);
    while i < n && !char_is_space(s[i])
        invariant
            n == s@.len(),
            i <= n,
            word_len(s@) == i + word_len(s@.skip(i as int)),
        decreases n - i,
    {
        assert(s@.skip(i as int).drop_first() =~= s@.skip(i + 1));
        i = i + 1;
    }
    i
}

/// The second word of `s`.
pub fn second_word(s: &[char]) -> (r: Option<&[char]>)
    ensures
        r is Some <==> words(s@).len() > 1,
        r matches Some(w) ==> w@ == words(s@)[1],
{
    let t = chars_trim_start(s);
    if t.len() == 0 {
        return None;
    }
    let k = chars_word_len(t);
    let n: usize = t.len();
    let rest = slice_subrange(t, k, n);
    assert(rest@ =~= t@.skip(k as int));
    assert(words(s@) == seq![t@.take(k as int)] + words(rest@));
    let u = chars_trim_start(rest);
    if u.len() == 0 {
        return None;
    }
    let m = chars_word_len(u);
    let w = slice_subrange(u, 0, m);
    assert(w@ =~= u@.take(m as int));
    assert(words(rest@)[0] == w@);
    Some(w)
}

// ---------------------------------------------------------------------------------------------
// Letter case
// ---------------------------------------------------------------------------------------------

/// An ASCII capital as the small letter; any other character as it is.
pub open spec fn lower(c: char) -> char {
    if 'A' <= c <= 'Z' {
        (c as u8 + 32) as char
    } else {
        c
    }
}

/// Every ASCII capital as the small letter.
pub open spec fn ascii_lower(s: Seq<char>) -> Seq<char> {
    s.map_values(|c: char| lower(c))
}

/// Every ASCII capital as the small letter.
pub fn chars_lower(s: &[char]) -> (r: Vec<char>)
    ensures
        r@ == ascii_lower(s@),
{
    let mut out: Vec<char> = Vec::new();
    let mut i: usize = 0;
    while i < s.len()
        invariant
            i <= s@.len(),
            out@ == ascii_lower(s@.take(i as int)),
        decreases s@.len() - i,
    {
        let c = s[i];
        let small: char = if 'A' <= c && c <= 'Z' {
            (c as u8 + 32) as char
        } else {
            c
        };
        out.push(small);
        i = i + 1;
        assert(out@ =~= ascii_lower(s@.take(i as int)));
    }
    assert(s@.take(i as int) =~= s@);
    out
}

// ---------------------------------------------------------------------------------------------
// Numerals
// ---------------------------------------------------------------------------------------------

/// The value of a digit, in a radix of at most sixteen; letters count in either case.
pub open spec fn digit(c: char, radix: nat) -> Option<nat> {
    let v: int = if '0' <= c <= '9' {
        c as int - '0' as int
    } else if 'a' <= c <= 'f' {
        c as int - 'a' as int + 10
    } else if 'A' <= c <= 'F' {
        c as int - 'A' as int + 10
    } else {
        16
    };
    if v < radix {
        Some(v as nat)
    } else {
        None
    }
}

/// Every character is a digit.
pub open spec fn all_digits(s: Seq<char>, radix: nat) -> bool {
    forall|i: int| 0 <= i < s.len() ==> digit(#[trigger] s[i], radix) is Some
}

/// The number that a run of digits denotes.
pub open spec fn digits_value(s: Seq<char>, radix: nat) -> nat
    decreases s.len(),
{
    if s.len() == 0 {
        0
    } else {
        digits_value(s.drop_last(), radix) * radix + digit(s.last(), radix).unwrap_or(0)
    }
}

/// `s` without one leading `+`.
pub open spec fn unsigned_part(s: Seq<char>) -> Seq<char> {
    if s.len() > 0 && s[0] == '+' {
        s.drop_first()
    } else {
        s
    }
}

/// The number that `s` denotes, if it is an optional `+` and then digits, at least one, and the
/// number is at most `max`.
pub open spec fn number(s: Seq<char>, radix: nat, max: nat) -> Option<nat> {
    let d = unsigned_part(s);
    if d.len() > 0 && all_digits(d, radix) && digits_value(d, radix) <= max {
        Some(digits_value(d, radix))
    } else {
        None
    }
}

/// The value of a digit.
fn char_digit(c: char, radix: u64) -> (r: Option<u64>)
    requires
        radix <= 16,
    ensures
        r is Some <==> digit(c, radix as nat) is Some,
        r matches Some(v) ==> digit(c, radix as nat) == Some(v as nat) && v < radix,
{
    let v: u64 = if '0' <= c && c <= '9' {
        c as u64 - '0' as u64
    } else if 'a' <= c && c <= 'f' {
        c as u64 - 'a' as u64 + 10
    } else if 'A' <= c && c <= 'F' {
        c as u64 - 'A' as u64 + 10
    } else {
        16
    };
    if v < radix {
        Some(v)
    } else {
        None
    }
}

/// A longer run of digits denotes no smaller a number.
pub proof fn lemma_digits_value_grows(s: Seq<char>, radix: nat, i: int)
    requires
        0 <= i <= s.len(),
        radix >= 1,
    ensures
        digits_value(s.take(i), radix) <= digits_value(s, radix),
    decreases s.len() - i,
{
    if i == s.len() {
        assert(s.take(i) =~= s);
    } else {
        lemma_digits_value_grows(s, radix, i + 1);
        assert(s.take(i + 1).drop_last() =~= s.take(i));
        let v = digits_value(s.take(i), radix);
        assert(v <= v * radix) by (nonlinear_arith)
            requires
                radix >= 1,
        ;
    }
}

/// The number that `s` denotes.
pub fn parse_number(s: &[char], radix: u64, max: u64) -> (r: Option<u64>)
    requires
        2 <= radix <= 16,
    ensures
        r is Some <==> number(s@, radix as nat, max as nat) is Some,
        r matches Some(v) ==> number(s@, radix as nat, max as nat) == Some(v as nat),
{
    let n: usize = s.len();
    let start: usize = if n > 0 && s[0] == '+' {
        1
    } else {
        0
    };
    let ghost d = unsigned_part(s@);
    assert(d =~= s@.skip(start as int));
    if start == n {
        return None;
    }
    let mut i: usize = start;
    let mut value: u64 = 0;
    while i < n
        invariant
            2 <= radix <= 16,
            n == s@.len(),
            start <= i <= n,
            start < n,
            d == s@.skip(start as int),
            d == unsigned_part(s@),
            value <= max,
            value as nat == digits_value(d.take(i - start), radix as nat),
            forall|j: int| 0 <= j < i - start ==> digit(#[trigger] d[j], radix as nat) is Some,
        decreases n - i,
    {
        assert(d[i - start] == s@[i as int]);
        assert(d.take(i - start + 1).drop_last() =~= d.take(i - start));
        assert(d.take(i - start + 1).last() == d[i - start]);
        match char_digit(s[i], radix) {
            None => {
                assert(!all_digits(d, radix as nat));
                return None;
            },
            Some(v) => {
                assert(value * radix <= 0xffff_ffff_ffff_ffff * 16) by (nonlinear_arith)
                    requires
                        value <= 0xffff_ffff_ffff_ffff,
                        radix <= 16,
                ;
                let wide: u128 = value as u128 * radix as u128 + v as u128;
                assert(wide as nat == digits_value(d.take(i - start + 1), radix as nat));
                if wide > max as u128 {
                    proof {
                        lemma_digits_value_grows(d, radix as nat, i - start + 1);
                    }
                    return None;
                }
                value = wide as u64;
            },
        }
        i = i + 1;
    }
    assert(d.take(n - start) =~= d);
    Some(value)
}

/// The digit that stands for a value below sixteen.
pub open spec fn digit_char(v: nat) -> char {
    if v < 10 {
        (v + '0' as nat) as char
    } else {
        (v - 10 + 'a' as nat) as char
    }
}

/// The shortest run of digits that denotes `n`.
pub open spec fn numeral(n: nat, radix: nat) -> Seq<char>
    decreases n,
{
    if radix < 2 || n < radix {
        seq![digit_char(n)]
    } else {
        proof {
            assert(n / radix < n) by (nonlinear_arith)
                requires
                    2 <= radix <= n,
            ;
        }
        numeral(n / radix, radix).push(digit_char(n % radix))
    }
}

/// A numeral denotes its number.
pub proof fn law_numeral_denotes_its_number(n: nat, radix: nat, max: nat)
    requires
        2 <= radix <= 16,
        n <= max,
    ensures
        number(numeral(n, radix), radix, max) == Some(n),
{
    lemma_numeral(n, radix);
}

pub proof fn lemma_numeral(n: nat, radix: nat)
    requires
        2 <= radix <= 16,
    ensures
        numeral(n, radix).len() > 0,
        all_digits(numeral(n, radix), radix),
        digits_value(numeral(n, radix), radix) == n,
        numeral(n, radix)[0] != '+',
    decreases n,
{
    let s = numeral(n, radix);
    if n < radix {
        assert(digit(digit_char(n), radix) == Some(n));
        assert(s.drop_last() =~= Seq::empty());
        let v = digits_value(s.drop_last(), radix);
        assert(v * radix == 0) by (nonlinear_arith)
            requires
                v == 0,
        ;
    } else {
        assert(0 < n / radix < n) by (nonlinear_arith)
            requires
                2 <= radix <= n,
        ;
        lemma_numeral(n / radix, radix);
        let t = numeral(n / radix, radix);
        assert(digit(digit_char(n % radix), radix) == Some(n % radix)) by {
            assert(0 <= n % radix < radix) by (nonlinear_arith)
                requires
                    radix >= 2,
            ;
        }
        assert(s.drop_last() =~= t);
        assert(n == (n / radix) * radix + n % radix) by (nonlinear_arith)
            requires
                radix >= 2,
        ;
    }
}

/// Appends the decimal numeral of a number.
pub fn push_decimal(out: &mut String, n: u64)
    ensures
        final(out)@ == old(out)@ + numeral(n as nat, 10),
    decreases n,
{
    if n >= 10 {
        push_decimal(out, n / 10);
    }
    let d: u8 = (n % 10) as u8;
    let c: char = (d + 48) as char;
    assert(c == digit_char((n as nat) % 10));
    out.push(c);
    assert(out@ =~= old(out)@ + numeral(n as nat, 10));
}

} // verus!
