//! Laws of text.

use crate::laws;
use crate::text;
use vstd::prelude::*;

verus! {

/// What stands before the first of a character: all of a text that holds none.
pub proof fn law_text_before(s: &str, c: char, r: &str, x: Seq<char>, y: Seq<char>)
    requires
        call_ensures(text::text_before, (s, c), r),
        !x.contains(c),
        s@ == x || s@ == x + seq![c] + y,
    ensures
        r@ == x,
{
    text::lemma_split_at_first(x, c, y);
    text::lemma_no_split(x, c);
}

/// A text splits at the first of a character, and nowhere where it holds none.
pub proof fn law_split_text(s: &str, c: char, r: Option<(&str, &str)>, x: Seq<char>, y: Seq<char>)
    requires
        call_ensures(text::split_text, (s, c), r),
        !x.contains(c),
    ensures
        s@ == x ==> r is None,
        s@ == x + seq![c] + y ==> r is Some && (r->0).0@ == x && (r->0).1@ == y,
{
    text::lemma_split_at_first(x, c, y);
    text::lemma_no_split(x, c);
}

/// A run of bytes is found where it first stands, and only where it stands anywhere.
pub proof fn law_find_bytes(hay: &[u8], needle: &[u8], r: Option<usize>, i: int)
    requires
        call_ensures(text::find_bytes, (hay, needle), r),
    ensures
        r matches Some(k) ==> k + needle@.len() <= hay@.len() && hay@.subrange(
            k as int,
            k + needle@.len(),
        ) == needle@,
        0 <= i && i + needle@.len() <= hay@.len() && hay@.subrange(i, i + needle@.len()) == needle@
            ==> r is Some && r->0 <= i,
{
    if text::occurs(hay@, needle@) {
        let j = choose|j: int| text::occurs_at(hay@, needle@, j);
        text::lemma_position_exists(hay@, needle@, j);
    }
    if 0 <= i && i + needle@.len() <= hay@.len() && hay@.subrange(i, i + needle@.len())
        == needle@ {
        assert(text::occurs_at(hay@, needle@, i));
        text::lemma_position_exists(hay@, needle@, i);
    }
}

/// A text is found in another exactly where it stands somewhere in it.
pub proof fn law_contains_text(hay: &[char], needle: &str, r: bool)
    requires
        call_ensures(text::contains_text, (hay, needle), r),
    ensures
        r <==> exists|i: int|
            0 <= i <= hay@.len() - needle@.len() && #[trigger] hay@.subrange(i, i + needle@.len())
                == needle@,
{
    let n = needle@;
    if text::occurs(hay@, n) {
        let i = choose|i: int| text::occurs_at(hay@, n, i);
        assert(0 <= i <= hay@.len() - n.len() && hay@.subrange(i, i + n.len()) == n);
    }
    if exists|i: int|
        0 <= i <= hay@.len() - n.len() && #[trigger] hay@.subrange(i, i + n.len()) == n {
        let i = choose|i: int|
            0 <= i <= hay@.len() - n.len() && #[trigger] hay@.subrange(i, i + n.len()) == n;
        assert(text::occurs_at(hay@, n, i));
    }
}

/// A space: a blank, one of the controls from the tab to the carriage return, or one of the spaces
/// of Unicode, by their numbers.
pub open spec fn space(c: char) -> bool {
    let n = c as int;
    ||| n == 32
    ||| 9 <= n <= 13
    ||| n == 0x85
    ||| n == 0xa0
    ||| n == 0x1680
    ||| 0x2000 <= n <= 0x200a
    ||| n == 0x2028
    ||| n == 0x2029
    ||| n == 0x202f
    ||| n == 0x205f
    ||| n == 0x3000
}

/// Which characters count as white space.
pub proof fn law_spaces(c: char, r: bool)
    requires
        call_ensures(text::char_is_space, (c,), r),
    ensures
        r <==> space(c),
{
}

proof fn lemma_trim_start(s: Seq<char>) -> (i: int)
    ensures
        0 <= i <= s.len(),
        text::trim_start(s) == s.skip(i),
        forall|k: int| 0 <= k < i ==> space(#[trigger] s[k]),
        i < s.len() ==> !space(s[i]),
    decreases s.len(),
{
    if s.len() > 0 && text::is_space(s[0]) {
        let t = s.drop_first();
        let i = lemma_trim_start(t);
        assert(t.skip(i) =~= s.skip(i + 1));
        assert forall|k: int| 0 <= k < i + 1 implies space(#[trigger] s[k]) by {
            if k > 0 {
                assert(t[k - 1] == s[k]);
            }
        }
        i + 1
    } else {
        assert(s.skip(0) =~= s);
        0
    }
}

proof fn lemma_trim_end(s: Seq<char>) -> (j: int)
    ensures
        0 <= j <= s.len(),
        text::trim_end(s) == s.take(j),
        forall|k: int| j <= k < s.len() ==> space(#[trigger] s[k]),
        j > 0 ==> !space(s[j - 1]),
    decreases s.len(),
{
    if s.len() > 0 && text::is_space(s.last()) {
        let t = s.drop_last();
        let j = lemma_trim_end(t);
        assert(t.take(j) =~= s.take(j));
        assert forall|k: int| j <= k < s.len() implies space(#[trigger] s[k]) by {
            if k < t.len() {
                assert(t[k] == s[k]);
            }
        }
        j
    } else {
        assert(s.take(s.len() as int) =~= s);
        s.len() as int
    }
}

/// What is trimmed off a text is space, all of it at the ends, and what is left has none there.
pub proof fn law_trim(s: &[char], r: &[char]) -> (cut: (int, int))
    requires
        call_ensures(text::chars_trim, (s,), r),
    ensures
        0 <= cut.0 <= cut.1 <= s@.len(),
        r@ == s@.subrange(cut.0, cut.1),
        forall|k: int| 0 <= k < cut.0 ==> space(#[trigger] s@[k]),
        forall|k: int| cut.1 <= k < s@.len() ==> space(#[trigger] s@[k]),
        r@.len() > 0 ==> !space(r@[0]) && !space(r@.last()),
{
    let i = lemma_trim_start(s@);
    let t = s@.skip(i);
    let j = lemma_trim_end(t);
    assert(t.take(j) =~= s@.subrange(i, i + j));
    assert forall|k: int| i + j <= k < s@.len() implies space(#[trigger] s@[k]) by {
        assert(t[k - i] == s@[k]);
    }
    if j > 0 {
        assert(t[j - 1] == r@.last());
        assert(t[0] == r@[0]);
    }
    (i, i + j)
}

/// Where the first two words of a text start and end.
pub struct Words {
    pub start: int,
    pub end: int,
    pub next: int,
}

/// The second word of the text is `word`: behind any white space a first word, then white space,
/// then `word`, and then white space or the end.
pub open spec fn has_second_word(s: Seq<char>, w: Words, word: Seq<char>) -> bool {
    let stop = w.next + word.len();
    &&& 0 <= w.start < w.end < w.next
    &&& word.len() > 0
    &&& stop <= s.len()
    &&& forall|k: int| 0 <= k < w.start ==> space(#[trigger] s[k])
    &&& forall|k: int| w.start <= k < w.end ==> !space(#[trigger] s[k])
    &&& forall|k: int| w.end <= k < w.next ==> space(#[trigger] s[k])
    &&& forall|k: int| w.next <= k < stop ==> !space(#[trigger] s[k])
    &&& s.subrange(w.next, stop) == word
    &&& stop < s.len() ==> space(s[stop])
}

/// The text has at most one word, from `start` to `end`.
pub open spec fn has_one_word(s: Seq<char>, start: int, end: int) -> bool {
    &&& 0 <= start <= end <= s.len()
    &&& forall|k: int| 0 <= k < start ==> space(#[trigger] s[k])
    &&& forall|k: int| start <= k < end ==> !space(#[trigger] s[k])
    &&& forall|k: int| end <= k < s.len() ==> space(#[trigger] s[k])
}

/// White space is trimmed up to what is none.
proof fn lemma_trimmed(s: Seq<char>, n: int)
    requires
        0 <= n <= s.len(),
        forall|k: int| 0 <= k < n ==> space(#[trigger] s[k]),
        n < s.len() ==> !space(s[n]),
    ensures
        text::trim_start(s) == s.skip(n),
{
    let i = lemma_trim_start(s);
    if i < n {
        assert(space(s[i]));
    }
    if n < i {
        assert(space(s[n]));
    }
}

proof fn lemma_word_len(s: Seq<char>, n: int)
    requires
        0 <= n <= s.len(),
        forall|k: int| 0 <= k < n ==> !space(#[trigger] s[k]),
        n < s.len() ==> space(s[n]),
    ensures
        text::word_len(s) == n,
    decreases n,
{
    if n > 0 {
        assert(!space(s[0]));
        let t = s.drop_first();
        assert forall|k: int| 0 <= k < n - 1 implies !space(#[trigger] t[k]) by {
            assert(t[k] == s[k + 1]);
        }
        lemma_word_len(t, n - 1);
    }
}

/// The first word, and what is behind it.
proof fn lemma_first_word(s: Seq<char>, start: int, end: int)
    requires
        0 <= start < end <= s.len(),
        forall|k: int| 0 <= k < start ==> space(#[trigger] s[k]),
        forall|k: int| start <= k < end ==> !space(#[trigger] s[k]),
        end < s.len() ==> space(s[end]),
    ensures
        text::words(s) == seq![s.subrange(start, end)] + text::words(s.skip(end)),
{
    assert(!space(s[start]));
    lemma_trimmed(s, start);
    let t = s.skip(start);
    assert forall|k: int| 0 <= k < end - start implies !space(#[trigger] t[k]) by {
        assert(t[k] == s[start + k]);
    }
    lemma_word_len(t, end - start);
    assert(t.take(end - start) =~= s.subrange(start, end));
    assert(t.skip(end - start) =~= s.skip(end));
}

proof fn lemma_no_word(s: Seq<char>)
    requires
        forall|k: int| 0 <= k < s.len() ==> space(#[trigger] s[k]),
    ensures
        text::words(s).len() == 0,
{
    lemma_trimmed(s, s.len() as int);
}

pub(crate) proof fn lemma_second_word(s: Seq<char>, w: Words, word: Seq<char>)
    requires
        has_second_word(s, w, word),
    ensures
        text::words(s).len() >= 2,
        text::words(s)[1] == word,
{
    let stop = w.next + word.len();
    assert(space(s[w.end]));
    lemma_first_word(s, w.start, w.end);
    let rest = s.skip(w.end);
    assert forall|k: int| 0 <= k < w.next - w.end implies space(#[trigger] rest[k]) by {
        assert(rest[k] == s[w.end + k]);
    }
    assert forall|k: int| w.next - w.end <= k < stop - w.end implies !space(#[trigger] rest[k]) by {
        assert(rest[k] == s[w.end + k]);
    }
    lemma_first_word(rest, w.next - w.end, stop - w.end);
    assert(rest.subrange(w.next - w.end, stop - w.end) =~= s.subrange(w.next, stop));
    assert(text::words(s)[1] == text::words(rest)[0]);
}

pub(crate) proof fn lemma_one_word(s: Seq<char>, start: int, end: int)
    requires
        has_one_word(s, start, end),
    ensures
        text::words(s).len() < 2,
{
    if start < end {
        lemma_first_word(s, start, end);
        let rest = s.skip(end);
        assert forall|k: int| 0 <= k < rest.len() implies space(#[trigger] rest[k]) by {
            assert(rest[k] == s[end + k]);
        }
        lemma_no_word(rest);
    } else {
        assert forall|k: int| 0 <= k < s.len() implies space(#[trigger] s[k]) by {}
        lemma_no_word(s);
    }
}

/// The second word of a text is found wherever it stands, and only where there is one.
pub proof fn law_second_word(
    s: &[char],
    r: Option<&[char]>,
    w: Words,
    word: Seq<char>,
    start: int,
    end: int,
)
    requires
        call_ensures(text::second_word, (s,), r),
    ensures
        has_second_word(s@, w, word) ==> r is Some && r->0@ == word,
        has_one_word(s@, start, end) ==> r is None,
{
    if has_second_word(s@, w, word) {
        lemma_second_word(s@, w, word);
    }
    if has_one_word(s@, start, end) {
        lemma_one_word(s@, start, end);
    }
}

/// Capitals of ASCII become the small letters; nothing else changes.
pub proof fn law_lower(s: &[char], r: Vec<char>, k: int)
    requires
        call_ensures(text::chars_lower, (s,), r),
    ensures
        r@.len() == s@.len(),
        0 <= k < s@.len() ==> {
            &&& 65 <= s@[k] as int <= 90 ==> r@[k] as int == s@[k] as int + 32
            &&& !(65 <= s@[k] as int <= 90) ==> r@[k] == s@[k]
        },
{
    if 0 <= k < s@.len() {
        assert(r@[k] == text::lower(s@[k]));
    }
}

/// The value of a digit, by its number; letters count in either case.
pub open spec fn digit_value(c: char) -> int {
    let n = c as int;
    if 48 <= n <= 57 {
        n - 48
    } else if 97 <= n <= 102 {
        n - 87
    } else if 65 <= n <= 70 {
        n - 55
    } else {
        16
    }
}

/// The number that a run of digits denotes.
pub open spec fn value(s: Seq<char>, radix: int) -> int
    decreases s.len(),
{
    if s.len() == 0 {
        0
    } else {
        value(s.drop_last(), radix) * radix + digit_value(s.last())
    }
}

proof fn lemma_value(s: Seq<char>, radix: nat)
    requires
        radix <= 16,
        forall|k: int| 0 <= k < s.len() ==> digit_value(#[trigger] s[k]) < radix,
    ensures
        text::digits_value(s, radix) == value(s, radix as int),
        text::all_digits(s, radix),
    decreases s.len(),
{
    assert forall|k: int| 0 <= k < s.len() implies text::digit(#[trigger] s[k], radix) is Some by {
        assert(digit_value(s[k]) < radix);
    }
    if s.len() > 0 {
        let less = s.drop_last();
        assert forall|k: int| 0 <= k < less.len() implies digit_value(#[trigger] less[k])
            < radix by {
            assert(less[k] == s[k]);
        }
        lemma_value(less, radix);
        assert(digit_value(s[s.len() - 1]) < radix);
    }
}

/// Every character is a digit, and there is one at least.
pub open spec fn is_numeral(s: Seq<char>, radix: int) -> bool {
    s.len() > 0 && forall|k: int| 0 <= k < s.len() ==> digit_value(#[trigger] s[k]) < radix
}

/// The text without a plus before it.
pub open spec fn without_plus(s: Seq<char>) -> Seq<char> {
    if s.len() > 0 && s[0] == '+' {
        s.skip(1)
    } else {
        s
    }
}

/// A numeral, with or without a plus before it, is read as the number that it denotes where that
/// is not too large; and nothing else is read as a number.
pub proof fn law_parse_number(s: &[char], radix: u64, max: u64, r: Option<u64>)
    requires
        call_ensures(text::parse_number, (s, radix, max), r),
        2 <= radix <= 16,
    ensures
        r is Some <==> is_numeral(without_plus(s@), radix as int) && value(
            without_plus(s@),
            radix as int,
        ) <= max,
        r is Some ==> r->0 == value(without_plus(s@), radix as int),
{
    let digits = without_plus(s@);
    assert(text::unsigned_part(s@) =~= digits);
    if is_numeral(digits, radix as int) {
        lemma_value(digits, radix as nat);
    } else if digits.len() > 0 {
        let k = choose|k: int| 0 <= k < digits.len() && digit_value(#[trigger] digits[k]) >= radix;
        assert(text::digit(digits[k], radix as nat) is None);
        assert(!text::all_digits(digits, radix as nat));
    }
}

/// A number is written in decimal digits behind what was there.
pub proof fn law_push_decimal(out: &mut String, n: u64)
    requires
        call_ensures(text::push_decimal, (out, n), ()),
    ensures
        final(out)@ == old(out)@ + laws::schedule::decimal(n as nat),
{
    laws::schedule::lemma_decimal(n as nat);
}

} // verus!
