//! Laws of the engine's HTTP answers.

use crate::engine::wire;
use crate::engine::wire::Reply;
use crate::laws;
use crate::text;
use vstd::prelude::*;
use vstd::utf8::*;

verus! {

// ---------------------------------------------------------------------------------------------
// Chunked bodies
// ---------------------------------------------------------------------------------------------

/// The value of a hexadecimal digit; letters count in either case.
pub open spec fn hex_digit(b: u8) -> Option<nat> {
    if 48 <= b <= 57 {
        Some((b - 48) as nat)
    } else if 97 <= b <= 102 {
        Some((b - 87) as nat)
    } else if 65 <= b <= 70 {
        Some((b - 55) as nat)
    } else {
        None
    }
}

/// The line is a hexadecimal numeral.
pub open spec fn is_hex(line: Seq<u8>) -> bool {
    line.len() > 0 && forall|i: int| 0 <= i < line.len() ==> hex_digit(#[trigger] line[i]) is Some
}

/// The number that a hexadecimal numeral denotes.
pub open spec fn hex_value(line: Seq<u8>) -> nat
    decreases line.len(),
{
    if line.len() == 0 {
        0
    } else {
        hex_value(line.drop_last()) * 16 + hex_digit(line.last())->0
    }
}

/// A body in chunks: each behind the line with its size, then the line of the last chunk, which is
/// empty, and then anything.
pub open spec fn framed(
    lines: Seq<Seq<u8>>,
    chunks: Seq<Seq<u8>>,
    zero: Seq<u8>,
    rest: Seq<u8>,
) -> Seq<u8>
    decreases chunks.len(),
{
    if chunks.len() == 0 {
        zero + seq![13u8, 10u8] + rest
    } else {
        lines[0] + seq![13u8, 10u8] + chunks[0] + seq![13u8, 10u8] + framed(
            lines.skip(1),
            chunks.skip(1),
            zero,
            rest,
        )
    }
}

/// Each line is the size of its chunk, in any hexadecimal form, and only the last size is zero.
pub open spec fn sizes_fit(lines: Seq<Seq<u8>>, chunks: Seq<Seq<u8>>, zero: Seq<u8>) -> bool {
    &&& lines.len() == chunks.len()
    &&& forall|i: int|
        0 <= i < lines.len() ==> is_hex(#[trigger] lines[i]) && hex_value(lines[i])
            == chunks[i].len()
    &&& forall|i: int| 0 <= i < chunks.len() ==> 0 < (#[trigger] chunks[i]).len() <= usize::MAX
    &&& is_hex(zero)
    &&& hex_value(zero) == 0
}

/// The characters of ASCII bytes.
pub open spec fn chars(line: Seq<u8>) -> Seq<char> {
    line.map_values(|b: u8| b as char)
}

proof fn lemma_ascii(line: Seq<u8>)
    requires
        forall|i: int| 0 <= i < line.len() ==> #[trigger] line[i] < 128,
    ensures
        valid_utf8(line),
        decode_utf8(line) == chars(line),
{
    let s = chars(line);
    assert forall|i: int| 0 <= i < s.len() implies '\0' <= #[trigger] s[i] <= '\u{7f}' by {
        assert(s[i] == line[i] as char);
    }
    assert(is_ascii_chars(s));
    is_ascii_chars_encode_utf8(s);
    assert forall|i: int| 0 <= i < line.len() implies encode_utf8(s)[i] == line[i] by {
        assert(s[i] as u8 == encode_utf8(s)[i]);
        assert(s[i] == line[i] as char);
    }
    assert(encode_utf8(s) =~= line);
    encode_utf8_valid_utf8(s);
    encode_utf8_decode_utf8(s);
}

proof fn lemma_hex_digits(line: Seq<u8>)
    requires
        forall|i: int| 0 <= i < line.len() ==> hex_digit(#[trigger] line[i]) is Some,
    ensures
        text::digits_value(chars(line), 16) == hex_value(line),
        text::all_digits(chars(line), 16),
    decreases line.len(),
{
    let s = chars(line);
    assert forall|i: int| 0 <= i < s.len() implies text::digit(#[trigger] s[i], 16) is Some by {
        assert(hex_digit(line[i]) is Some);
    }
    if line.len() > 0 {
        assert(s.drop_last() =~= chars(line.drop_last()));
        assert forall|i: int| 0 <= i < line.drop_last().len() implies hex_digit(
            #[trigger] line.drop_last()[i],
        ) is Some by {
            assert(line.drop_last()[i] == line[i]);
        }
        lemma_hex_digits(line.drop_last());
        assert(hex_digit(line[line.len() - 1]) is Some);
        assert(s.last() == line.last() as char);
        assert(text::digit(s.last(), 16) == Some(hex_digit(line.last())->0));
    }
}

/// A hexadecimal line announces its value.
proof fn lemma_hex_line(line: Seq<u8>)
    requires
        is_hex(line),
    ensures
        wire::one_line(line),
        wire::chunk_size(line) == if hex_value(line) <= usize::MAX {
            Some(hex_value(line))
        } else {
            None
        },
{
    let s = chars(line);
    assert forall|i: int| 0 <= i < line.len() implies #[trigger] line[i] < 128 && line[i] != 13 by {
        assert(hex_digit(line[i]) is Some);
    }
    lemma_ascii(line);
    assert forall|i: int| 0 <= i < s.len() implies !text::is_space(#[trigger] s[i]) && s[i] != ';'
        && s[i] != '+' by {
        assert(hex_digit(line[i]) is Some);
    }
    text::lemma_trim_nothing(s);
    assert(!s.contains(';'));
    text::lemma_no_split(s, ';');
    lemma_hex_digits(line);
    assert(text::unsigned_part(s) == s);
}

proof fn lemma_framed(
    lines: Seq<Seq<u8>>,
    chunks: Seq<Seq<u8>>,
    zero: Seq<u8>,
    rest: Seq<u8>,
)
    requires
        sizes_fit(lines, chunks, zero),
    ensures
        wire::dechunked(framed(lines, chunks, zero, rest)) == Some(chunks.flatten()),
    decreases chunks.len(),
{
    if chunks.len() == 0 {
        lemma_hex_line(zero);
        wire::lemma_first_line(zero, rest);
        assert(zero + seq![13u8, 10u8] + rest == zero + wire::crlf() + rest);
    } else {
        let first = chunks[0];
        let others = chunks.skip(1);
        let later = lines.skip(1);
        assert(is_hex(lines[0]));
        lemma_hex_line(lines[0]);
        assert forall|i: int| 0 <= i < later.len() implies is_hex(#[trigger] later[i])
            && hex_value(later[i]) == others[i].len() by {
            assert(later[i] == lines[i + 1]);
        }
        assert forall|i: int| 0 <= i < others.len() implies 0 < (#[trigger] others[i]).len()
            <= usize::MAX by {
            assert(others[i] == chunks[i + 1]);
        }
        lemma_framed(later, others, zero, rest);
        wire::law_chunk_is_read_back(
            lines[0],
            first,
            wire::crlf(),
            framed(later, others, zero, rest),
        );
        assert(others == chunks.drop_first());
    }
}

/// A body in chunks carries the bytes of its chunks, in order, whichever form the sizes have and
/// whatever stands behind the last one.
pub proof fn law_chunks_are_joined(
    body: &[u8],
    r: Option<Vec<u8>>,
    lines: Seq<Seq<u8>>,
    chunks: Seq<Seq<u8>>,
    zero: Seq<u8>,
    rest: Seq<u8>,
)
    requires
        call_ensures(wire::decode_chunked, (body,), r),
        body@ == framed(lines, chunks, zero, rest),
        sizes_fit(lines, chunks, zero),
    ensures
        r is Some,
        r->0@ == chunks.flatten(),
{
    lemma_framed(lines, chunks, zero, rest);
}

/// A body whose first chunk, or the line end behind it, is cut off is refused, however large the
/// size is.
pub proof fn law_cut_off_chunk_is_refused(
    body: &[u8],
    r: Option<Vec<u8>>,
    line: Seq<u8>,
    rest: Seq<u8>,
)
    requires
        call_ensures(wire::decode_chunked, (body,), r),
        body@ == line + seq![13u8, 10u8] + rest,
        is_hex(line),
        hex_value(line) > 0,
        rest.len() < hex_value(line) + 2,
    ensures
        r is None,
{
    lemma_hex_line(line);
    wire::lemma_first_line(line, rest);
    assert(body@ == line + wire::crlf() + rest);
}

/// A body whose first line is no size is refused: nothing, or a word that is no hexadecimal
/// numeral.
pub proof fn law_line_without_size_is_refused(
    body: &[u8],
    r: Option<Vec<u8>>,
    line: Seq<u8>,
    rest: Seq<u8>,
)
    requires
        call_ensures(wire::decode_chunked, (body,), r),
        body@ == line + seq![13u8, 10u8] + rest,
        forall|i: int| 0 <= i < line.len() ==> 33 <= #[trigger] line[i] <= 126 && line[i] != 59,
        !is_hex(line),
        line.len() > 0 && line[0] == 43 ==> !is_hex(line.skip(1)),
    ensures
        r is None,
{
    let s = chars(line);
    lemma_ascii(line);
    assert forall|i: int| 0 <= i < s.len() implies !text::is_space(#[trigger] s[i]) && s[i]
        != ';' by {
        assert(33 <= line[i] <= 126);
    }
    assert(wire::one_line(line)) by {
        assert forall|i: int| 0 <= i < line.len() implies #[trigger] line[i] != 13 by {}
    }
    text::lemma_trim_nothing(s);
    assert(!s.contains(';'));
    text::lemma_no_split(s, ';');
    wire::lemma_first_line(line, rest);
    assert(body@ == line + wire::crlf() + rest);
    let d = text::unsigned_part(s);
    let digits = if line.len() > 0 && line[0] == 43 {
        line.skip(1)
    } else {
        line
    };
    assert(d =~= chars(digits));
    if digits.len() > 0 {
        let i = choose|i: int| 0 <= i < digits.len() && hex_digit(#[trigger] digits[i]) is None;
        assert(33 <= digits[i] <= 126) by {
            if digits != line {
                assert(digits[i] == line[i + 1]);
            }
        }
        assert(d[i] == digits[i] as char);
        assert(text::digit(d[i], 16) is None);
    }
}

proof fn lemma_trim_start(pad: Seq<char>, s: Seq<char>)
    requires
        forall|k: int| 0 <= k < pad.len() ==> text::is_space(#[trigger] pad[k]),
        s.len() > 0,
        !text::is_space(s[0]),
    ensures
        text::trim_start(pad + s) == s,
    decreases pad.len(),
{
    if pad.len() == 0 {
        assert(pad + s =~= s);
    } else {
        assert((pad + s)[0] == pad[0]);
        assert((pad + s).drop_first() =~= pad.drop_first() + s);
        assert forall|k: int| 0 <= k < pad.drop_first().len() implies text::is_space(
            #[trigger] pad.drop_first()[k],
        ) by {
            assert(pad.drop_first()[k] == pad[k + 1]);
        }
        lemma_trim_start(pad.drop_first(), s);
    }
}

/// Nothing is trimmed beyond what is no white space.
proof fn lemma_trim_end(s: Seq<char>, tail: Seq<char>)
    requires
        s.len() > 0,
        !text::is_space(s.last()),
    ensures
        exists|k: int|
            0 <= k <= tail.len() && text::trim_end(s + tail) == s + #[trigger] tail.take(k),
        (forall|k: int| 0 <= k < tail.len() ==> text::is_space(#[trigger] tail[k]))
            ==> text::trim_end(s + tail) == s,
    decreases tail.len(),
{
    let all = s + tail;
    if tail.len() == 0 {
        assert(all =~= s);
        assert(s + tail.take(0) =~= s);
    } else {
        assert(all.last() == tail.last());
        if text::is_space(tail.last()) {
            let less = tail.drop_last();
            assert(all.drop_last() =~= s + less);
            lemma_trim_end(s, less);
            let k = choose|k: int|
                0 <= k <= less.len() && text::trim_end(s + less) == s + #[trigger] less.take(k);
            assert(less.take(k) =~= tail.take(k));
            if forall|k: int| 0 <= k < tail.len() ==> text::is_space(#[trigger] tail[k]) {
                assert forall|k: int| 0 <= k < less.len() implies text::is_space(
                    #[trigger] less[k],
                ) by {
                    assert(less[k] == tail[k]);
                }
            }
        } else {
            assert(tail.take(tail.len() as int) =~= tail);
            assert(!text::is_space(tail[tail.len() - 1]));
        }
    }
}

/// A size line with spaces around the size, and an extension behind it.
pub open spec fn dressed(pad: Seq<u8>, line: Seq<u8>, gap: Seq<u8>, ext: Seq<u8>) -> Seq<u8> {
    pad + line + gap + ext
}

/// Spaces and tabs.
pub open spec fn blank(s: Seq<u8>) -> bool {
    forall|k: int| 0 <= k < s.len() ==> #[trigger] s[k] == 32 || s[k] == 9
}

/// Nothing, or a semicolon and then printable characters.
pub open spec fn is_extension(s: Seq<u8>) -> bool {
    &&& s.len() > 0 ==> s[0] == 59
    &&& forall|k: int| 0 <= k < s.len() ==> 32 <= #[trigger] s[k] <= 126
}

proof fn lemma_dressed(pad: Seq<u8>, line: Seq<u8>, gap: Seq<u8>, ext: Seq<u8>)
    requires
        is_hex(line),
        blank(pad),
        blank(gap),
        is_extension(ext),
    ensures
        wire::one_line(dressed(pad, line, gap, ext)),
        wire::chunk_size(dressed(pad, line, gap, ext)) == wire::chunk_size(line),
{
    let full = dressed(pad, line, gap, ext);
    let p = chars(pad);
    let s = chars(line);
    let g = chars(gap);
    let e = chars(ext);
    assert forall|i: int| 0 <= i < line.len() implies #[trigger] line[i] < 128 && line[i] != 13 by {
        assert(hex_digit(line[i]) is Some);
    }
    assert forall|i: int| 0 <= i < full.len() implies #[trigger] full[i] < 128 && full[i] != 13 by {
        let a = pad.len() as int;
        let b = a + line.len();
        let c = b + gap.len();
        if i < a {
            assert(full[i] == pad[i]);
        } else if i < b {
            assert(full[i] == line[i - a]);
        } else if i < c {
            assert(full[i] == gap[i - b]);
        } else {
            assert(full[i] == ext[i - c]);
        }
    }
    lemma_ascii(full);
    lemma_ascii(line);
    assert(chars(full) =~= p + (s + (g + e)));
    assert forall|k: int| 0 <= k < p.len() implies text::is_space(#[trigger] p[k]) by {
        assert(p[k] == pad[k] as char);
    }
    assert forall|k: int| 0 <= k < g.len() implies text::is_space(#[trigger] g[k]) by {
        assert(g[k] == gap[k] as char);
    }
    assert forall|k: int| 0 <= k < s.len() implies !text::is_space(#[trigger] s[k]) && s[k]
        != ';' by {
        assert(hex_digit(line[k]) is Some);
    }
    let rest = s + (g + e);
    assert(rest[0] == s[0]);
    lemma_trim_start(p, rest);
    assert(s.last() == s[s.len() - 1]);
    if e.len() == 0 {
        assert(g + e =~= g);
        lemma_trim_end(s, g);
        assert(text::trim(chars(full)) == s);
        assert(!s.contains(';'));
        text::lemma_no_split(s, ';');
    } else {
        assert(e[0] == ext[0] as char);
        let head = (s + g).push(e[0]);
        let tail = e.drop_first();
        assert(rest =~= head + tail);
        assert(head.last() == ';');
        lemma_trim_end(head, tail);
        let k = choose|k: int|
            0 <= k <= tail.len() && text::trim_end(head + tail) == head + #[trigger] tail.take(k);
        let trimmed = head + tail.take(k);
        assert(text::trim(chars(full)) == trimmed);
        let sg = s + g;
        assert(!sg.contains(';')) by {
            if sg.contains(';') {
                let i = choose|i: int| 0 <= i < sg.len() && sg[i] == ';';
                if i < s.len() {
                    assert(sg[i] == s[i]);
                } else {
                    assert(sg[i] == g[i - s.len()]);
                    assert(text::is_space(g[i - s.len()]));
                }
            }
        }
        assert(trimmed =~= sg + seq![';'] + tail.take(k));
        text::lemma_split_at_first(sg, ';', tail.take(k));
        assert(text::before(trimmed, ';') == sg);
        lemma_trim_end(s, g);
        assert(text::trim_start(sg) == sg) by {
            assert(sg[0] == s[0]);
        }
        assert(text::trim(sg) == s);
    }
    text::lemma_trim_nothing(s);
    assert(!s.contains(';'));
    text::lemma_no_split(s, ';');
}

/// Spaces around a size and an extension behind it do not matter.
pub proof fn law_size_lines_may_be_dressed(
    plain: &[u8],
    r: Option<Vec<u8>>,
    body: &[u8],
    same: Option<Vec<u8>>,
    pad: Seq<u8>,
    line: Seq<u8>,
    gap: Seq<u8>,
    ext: Seq<u8>,
    rest: Seq<u8>,
)
    requires
        call_ensures(wire::decode_chunked, (plain,), r),
        call_ensures(wire::decode_chunked, (body,), same),
        plain@ == line + seq![13u8, 10u8] + rest,
        body@ == dressed(pad, line, gap, ext) + seq![13u8, 10u8] + rest,
        is_hex(line),
        blank(pad),
        blank(gap),
        is_extension(ext),
    ensures
        r is Some <==> same is Some,
        r is Some ==> r->0@ == same->0@,
{
    let full = dressed(pad, line, gap, ext);
    lemma_dressed(pad, line, gap, ext);
    lemma_hex_line(line);
    wire::lemma_first_line(line, rest);
    wire::lemma_first_line(full, rest);
    assert(plain@ == line + wire::crlf() + rest);
    assert(body@ == full + wire::crlf() + rest);
    if wire::chunk_size(line) is Some {
        let n = wire::chunk_size(line)->0 as int;
        if n > 0 && n + 2 <= rest.len() {
            let a = line.len() as int + 2;
            let b = full.len() as int + 2;
            assert(plain@.subrange(a, a + n) =~= rest.take(n));
            assert(body@.subrange(b, b + n) =~= rest.take(n));
            assert(plain@.skip(a + n + 2) =~= rest.skip(n + 2));
            assert(body@.skip(b + n + 2) =~= rest.skip(n + 2));
        }
    }
}

/// A body without a line end is refused.
pub proof fn law_body_without_lines_is_refused(body: &[u8], r: Option<Vec<u8>>)
    requires
        call_ensures(wire::decode_chunked, (body,), r),
        forall|i: int, j: int|
            0 <= i < body@.len() - 1 && j == i + 1 ==> #[trigger] body@[i] != 13
                || #[trigger] body@[j] != 10,
    ensures
        r is None,
{
    let b = body@;
    assert forall|i: int| !text::occurs_at(b, wire::crlf(), i) by {
        if text::occurs_at(b, wire::crlf(), i) {
            assert(b.subrange(i, i + 2)[0] == b[i]);
            assert(b.subrange(i, i + 2)[1] == b[i + 1]);
        }
    }
}

// ---------------------------------------------------------------------------------------------
// Whole answers
// ---------------------------------------------------------------------------------------------

/// A line ends at `j`, and the next one is empty.
pub open spec fn empty_line_at(b: Seq<u8>, j: int) -> bool {
    &&& 0 <= j <= b.len() - 4
    &&& b[j] == 13 && b[j + 1] == 10
    &&& b[j + 2] == 13 && b[j + 3] == 10
}

/// The bytes are a head: they end at their first empty line.
pub open spec fn ends_at_first_empty_line(head: Seq<u8>) -> bool {
    &&& head.len() >= 4
    &&& forall|j: int|
        0 <= j <= head.len() - 4 ==> (#[trigger] empty_line_at(head, j) <==> j == head.len() - 4)
}

/// The words for the chunked framing stand in the head at `i`, in any case.
pub open spec fn chunked_at(head: Seq<char>, i: int) -> bool {
    &&& 0 <= i <= head.len() - 26
    &&& laws::in_any_case(head.subrange(i, i + 26), "transfer-encoding: chunked"@)
}

proof fn lemma_head_end(head: Seq<u8>)
    requires
        ends_at_first_empty_line(head),
    ensures
        text::first_occurs_at(head, wire::head_end(), head.len() - 4),
{
    let e = head.len() - 4;
    lemma_empty_line(head, e);
    assert forall|j: int| 0 <= j < e implies !text::occurs_at(head, wire::head_end(), j) by {
        lemma_empty_line(head, j);
    }
}

proof fn lemma_empty_line(b: Seq<u8>, j: int)
    ensures
        text::occurs_at(b, wire::head_end(), j) <==> empty_line_at(b, j),
{
    if 0 <= j <= b.len() - 4 {
        let w = b.subrange(j, j + 4);
        assert(w[0] == b[j] && w[1] == b[j + 1] && w[2] == b[j + 2] && w[3] == b[j + 3]);
        if empty_line_at(b, j) {
            assert(w =~= wire::head_end());
        }
    }
}

proof fn lemma_chunked_at(head: Seq<char>)
    ensures
        wire::says_chunked(head) <==> exists|i: int| #[trigger] chunked_at(head, i),
{
    let small = "transfer-encoding: chunked"@;
    reveal_strlit("transfer-encoding: chunked");
    let low = text::ascii_lower(head);
    assert forall|i: int| text::occurs_at(low, small, i) <==> #[trigger] chunked_at(head, i) by {
        if 0 <= i <= head.len() - 26 {
            assert(low.subrange(i, i + 26) =~= text::ascii_lower(head.subrange(i, i + 26)));
            laws::lemma_lower_is_any_case(head.subrange(i, i + 26), small);
        }
    }
    if wire::says_chunked(head) {
        let i = choose|i: int| text::occurs_at(low, small, i);
        assert(chunked_at(head, i));
    }
    if exists|i: int| #[trigger] chunked_at(head, i) {
        let i = choose|i: int| #[trigger] chunked_at(head, i);
        assert(text::occurs_at(low, small, i));
    }
}

/// An answer with status 200 whose head says that the body is chunked, on any of its lines and in
/// any case, gives what the chunks carry.
pub proof fn law_chunked_answer_is_joined(
    raw: &[u8],
    r: Reply,
    head: Seq<u8>,
    v: laws::text::Words,
    i: int,
    lines: Seq<Seq<u8>>,
    chunks: Seq<Seq<u8>>,
    zero: Seq<u8>,
    rest: Seq<u8>,
)
    requires
        call_ensures(wire::read_reply, (raw,), r),
        raw@ == head + framed(lines, chunks, zero, rest),
        ends_at_first_empty_line(head),
        valid_utf8(head),
        laws::text::has_second_word(decode_utf8(head), v, "200"@),
        chunked_at(decode_utf8(head), i),
        sizes_fit(lines, chunks, zero),
    ensures
        r is Body,
        r->Body_0@ == chunks.flatten(),
{
    let body = framed(lines, chunks, zero, rest);
    lemma_head_end(head);
    wire::lemma_head_stays(head, body);
    laws::text::lemma_second_word(decode_utf8(head), v, "200"@);
    lemma_chunked_at(decode_utf8(head));
    lemma_framed(lines, chunks, zero, rest);
    let view = r@;
}

/// A chunked answer is read as its body alone is: it gives what the body carries, and is refused
/// where the body is.
pub proof fn law_chunked_answer_goes_by_its_body(
    raw: &[u8],
    r: Reply,
    head: Seq<u8>,
    v: laws::text::Words,
    i: int,
    body: &[u8],
    carried: Option<Vec<u8>>,
)
    requires
        call_ensures(wire::read_reply, (raw,), r),
        call_ensures(wire::decode_chunked, (body,), carried),
        raw@ == head + body@,
        ends_at_first_empty_line(head),
        valid_utf8(head),
        laws::text::has_second_word(decode_utf8(head), v, "200"@),
        chunked_at(decode_utf8(head), i),
    ensures
        carried matches Some(b) ==> r is Body && r->Body_0@ == b@,
        carried is None ==> r == Reply::Unreadable,
{
    lemma_head_end(head);
    wire::lemma_head_stays(head, body@);
    laws::text::lemma_second_word(decode_utf8(head), v, "200"@);
    lemma_chunked_at(decode_utf8(head));
    let view = r@;
}

/// An answer with status 200 whose head says nothing of chunks gives every byte behind its head.
pub proof fn law_plain_answer_gives_all(
    raw: &[u8],
    r: Reply,
    head: Seq<u8>,
    v: laws::text::Words,
    body: Seq<u8>,
)
    requires
        call_ensures(wire::read_reply, (raw,), r),
        raw@ == head + body,
        ends_at_first_empty_line(head),
        valid_utf8(head),
        laws::text::has_second_word(decode_utf8(head), v, "200"@),
        forall|i: int| !(#[trigger] chunked_at(decode_utf8(head), i)),
    ensures
        r is Body,
        r->Body_0@ == body,
{
    lemma_head_end(head);
    wire::lemma_head_stays(head, body);
    laws::text::lemma_second_word(decode_utf8(head), v, "200"@);
    lemma_chunked_at(decode_utf8(head));
    let view = r@;
}

/// An answer with any other status gives the status and no body.
pub proof fn law_refusal_gives_its_status(
    raw: &[u8],
    r: Reply,
    head: Seq<u8>,
    v: laws::text::Words,
    status: Seq<char>,
    body: Seq<u8>,
)
    requires
        call_ensures(wire::read_reply, (raw,), r),
        raw@ == head + body,
        ends_at_first_empty_line(head),
        valid_utf8(head),
        laws::text::has_second_word(decode_utf8(head), v, status),
        status != "200"@,
    ensures
        r is Refused,
        r->Refused_0@ == status,
{
    lemma_head_end(head);
    wire::lemma_head_stays(head, body);
    laws::text::lemma_second_word(decode_utf8(head), v, status);
    let view = r@;
}

/// A head of one word, or of none, is that of no answer: it has no status.
pub proof fn law_head_needs_a_status(
    raw: &[u8],
    r: Reply,
    head: Seq<u8>,
    start: int,
    end: int,
    body: Seq<u8>,
)
    requires
        call_ensures(wire::read_reply, (raw,), r),
        raw@ == head + body,
        ends_at_first_empty_line(head),
        valid_utf8(head),
        laws::text::has_one_word(decode_utf8(head), start, end),
    ensures
        r == Reply::Unreadable,
{
    lemma_head_end(head);
    wire::lemma_head_stays(head, body);
    laws::text::lemma_one_word(decode_utf8(head), start, end);
    let view = r@;
}

/// Bytes whose head is no UTF-8 are no answer.
pub proof fn law_head_is_text(raw: &[u8], r: Reply, head: Seq<u8>, body: Seq<u8>)
    requires
        call_ensures(wire::read_reply, (raw,), r),
        raw@ == head + body,
        ends_at_first_empty_line(head),
        !valid_utf8(head),
    ensures
        r == Reply::Unreadable,
{
    lemma_head_end(head);
    wire::lemma_head_stays(head, body);
    let view = r@;
}

/// Bytes without an empty line are no answer.
pub proof fn law_head_needs_its_end(raw: &[u8], r: Reply)
    requires
        call_ensures(wire::read_reply, (raw,), r),
        forall|j: int| !(#[trigger] empty_line_at(raw@, j)),
    ensures
        r == Reply::Unreadable,
{
    assert forall|j: int| !text::occurs_at(raw@, wire::head_end(), j) by {
        lemma_empty_line(raw@, j);
    }
    let view = r@;
}

/// How much is read of an answer, how long it may take, and where the containers are listed.
pub proof fn law_limits()
    ensures
        wire::MAX_REPLY_BYTES == 8 * 1024 * 1024,
        wire::REPLY_TIMEOUT_SECS == 3,
        wire::CONTAINERS_PATH@ == "/containers/json"@,
{
}

/// A request names the method and the path, and asks for the connection to be closed.
pub proof fn law_requests(method: &str, path: &str, r: String)
    requires
        call_ensures(wire::request, (method, path), r),
    ensures
        r@ == method@ + " "@ + path@
            + " HTTP/1.1\r\nHost: docker\r\nConnection: close\r\n\r\n"@,
{
}

} // verus!
