//! The engine's HTTP/1.1 answers: the head, the status, and the two framings of a body.

use crate::text;
use vstd::prelude::*;
use vstd::slice::{slice_subrange, slice_to_vec};
use vstd::utf8::*;

verus! {

/// The most bytes of an answer that are read.
pub const MAX_REPLY_BYTES: u64 = 8_388_608;

/// How long the engine may take for each read or write, in seconds.
pub const REPLY_TIMEOUT_SECS: u64 = 3;

/// The request for the containers that run.
pub const CONTAINERS_PATH: &'static str = "/containers/json";

/// The end of a line.
pub open spec fn crlf() -> Seq<u8> {
    seq![13u8, 10u8]
}

/// The size that the first line of a chunk announces: hexadecimal, up to any `;`, with the white
/// space around it left out.
pub open spec fn chunk_size(line: Seq<u8>) -> Option<nat> {
    if valid_utf8(line) {
        text::number(
            text::trim(text::before(text::trim(decode_utf8(line)), ';')),
            16,
            usize::MAX as nat,
        )
    } else {
        None
    }
}

/// Where the first line of a body ends leaves room for that end.
pub proof fn lemma_line_end(body: Seq<u8>)
    ensures
        text::position(body, crlf()) matches Some(e) ==> 0 <= e && e + 2 <= body.len(),
{
    if text::occurs(body, crlf()) {
        let i = choose|i: int| text::occurs_at(body, crlf(), i);
        text::lemma_position_exists(body, crlf(), i);
    }
}

/// What a chunked body carries: the bytes of its chunks up to the chunk of size zero. Nothing if
/// a size line is missing or is no size, or if a chunk or the two bytes behind it are cut off.
pub open spec fn dechunked(body: Seq<u8>) -> Option<Seq<u8>>
    decreases body.len(),
{
    match text::position(body, crlf()) {
        None => None,
        Some(e) => match chunk_size(body.take(e)) {
            None => None,
            Some(n) => if n == 0 {
                Some(Seq::empty())
            } else if e + 2 + n + 2 > body.len() {
                None
            } else {
                proof {
                    lemma_line_end(body);
                }
                match dechunked(body.skip((e + 2 + n + 2) as int)) {
                    None => None,
                    Some(rest) => Some(body.subrange(e + 2, (e + 2 + n) as int) + rest),
                }
            },
        },
    }
}

/// The size that the first line of a chunk announces.
fn parse_chunk_size(line: &[u8]) -> (r: Option<usize>)
    ensures
        r is Some <==> chunk_size(line@) is Some,
        r matches Some(n) ==> chunk_size(line@) == Some(n as nat),
{
    match text::utf8_text(line) {
        None => None,
        Some(s) => {
            let chars = text::chars_of(s);
            let t = text::chars_trim(&chars);
            let end: usize = match text::find_char(t, ';') {
                Some(i) => i,
                None => t.len(),
            };
            let field = slice_subrange(t, 0, end);
            assert(field@ =~= text::before(t@, ';'));
            match text::parse_number(text::chars_trim(field), 16, usize::MAX as u64) {
                Some(n) => Some(n as usize),
                None => None,
            }
        },
    }
}

/// Decode HTTP/1.1 chunked transfer encoding: hex-size line, chunk bytes, CRLF, repeated until a
/// zero-size chunk.
pub fn decode_chunked(body: &[u8]) -> (r: Option<Vec<u8>>)
    ensures
        r is Some <==> dechunked(body@) is Some,
        r matches Some(v) ==> dechunked(body@) == Some(v@),
{
    let mut out: Vec<u8> = Vec::new();
    let mut rest: &[u8] = body;
    loop
        invariant
            dechunked(body@) == match dechunked(rest@) {
                Some(r) => Some(out@ + r),
                None => None,
            },
        decreases rest@.len(),
    {
        let len: usize = rest.len();
        let line_end: usize = match text::find_bytes(rest, &[13u8, 10u8]) {
            Some(e) => e,
            None => {
                return None;
            },
        };
        let line = slice_subrange(rest, 0, line_end);
        assert(line@ =~= rest@.take(line_end as int));
        let size: usize = match parse_chunk_size(line) {
            Some(n) => n,
            None => {
                return None;
            },
        };
        if size == 0 {
            assert(out@ + Seq::<u8>::empty() =~= out@);
            return Some(out);
        }
        let start: usize = line_end + 2;
        if size > len - start || len - start - size < 2 {
            return None;
        }
        let end: usize = start + size;
        let chunk = slice_subrange(rest, start, end);
        let tail = slice_subrange(rest, end + 2, len);
        assert(tail@ =~= rest@.skip(end + 2));
        let ghost before = out@;
        out.extend_from_slice(chunk);
        proof {
            assert(out@ =~= before + chunk@);
            if dechunked(tail@) is Some {
                let r = dechunked(tail@)->0;
                assert((before + chunk@) + r =~= before + (chunk@ + r));
            }
        }
        rest = tail;
    }
}

// ---------------------------------------------------------------------------------------------
// Chunked bodies, written and read
// ---------------------------------------------------------------------------------------------

/// The shortest line that announces a size.
pub open spec fn size_line(n: nat) -> Seq<u8> {
    encode_utf8(text::numeral(n, 16))
}

/// The body that carries `chunks` and then ends.
pub open spec fn chunked(chunks: Seq<Seq<u8>>) -> Seq<u8>
    decreases chunks.len(),
{
    if chunks.len() == 0 {
        size_line(0) + crlf() + crlf()
    } else {
        size_line(chunks[0].len()) + crlf() + chunks[0] + crlf() + chunked(chunks.drop_first())
    }
}

/// `line` is one line: it holds no carriage return.
pub open spec fn one_line(line: Seq<u8>) -> bool {
    forall|i: int| 0 <= i < line.len() ==> #[trigger] line[i] != 13
}

/// A line ends where the first line end stands.
pub(crate) proof fn lemma_first_line(line: Seq<u8>, rest: Seq<u8>)
    requires
        one_line(line),
    ensures
        text::position(line + crlf() + rest, crlf()) == Some(line.len() as int),
        (line + crlf() + rest).take(line.len() as int) == line,
{
    let body = line + crlf() + rest;
    let e = line.len() as int;
    assert(body.subrange(e, e + 2) =~= crlf());
    assert forall|j: int| 0 <= j < e implies !text::occurs_at(body, crlf(), j) by {
        if text::occurs_at(body, crlf(), j) {
            assert(body.subrange(j, j + 2)[0] == 13);
            assert(body[j] == line[j]);
        }
    }
    text::lemma_position(body, crlf(), e);
    assert(body.take(e) =~= line);
}

/// The shortest line for a size announces that size, and is one line.
pub proof fn lemma_size_line(n: nat)
    requires
        n <= usize::MAX,
    ensures
        one_line(size_line(n)),
        chunk_size(size_line(n)) == Some(n),
{
    let s = text::numeral(n, 16);
    text::lemma_numeral(n, 16);
    assert forall|i: int| 0 <= i < s.len() implies !text::is_space(#[trigger] s[i]) && s[i] != ';'
        && '\0' <= s[i] <= '\u{7f}' && s[i] as u8 != 13 by {
        assert(text::digit(s[i], 16) is Some);
    }
    assert(is_ascii_chars(s));
    is_ascii_chars_encode_utf8(s);
    encode_utf8_valid_utf8(s);
    encode_utf8_decode_utf8(s);
    assert forall|i: int| 0 <= i < size_line(n).len() implies #[trigger] size_line(n)[i] != 13 by {
        assert(s[i] as u8 == encode_utf8(s)[i]);
    }
    text::lemma_trim_nothing(s);
    s.index_of_first_ensures(';');
    assert(text::before(s, ';') == s);
    text::law_numeral_denotes_its_number(n, 16, usize::MAX as nat);
}

/// A body that starts with a whole chunk carries that chunk's bytes and then what the rest of it
/// carries. The line may be any that announces the size, and the two bytes behind the chunk may
/// be any two.
pub proof fn law_chunk_is_read_back(line: Seq<u8>, data: Seq<u8>, end: Seq<u8>, rest: Seq<u8>)
    requires
        one_line(line),
        chunk_size(line) == Some(data.len()),
        data.len() > 0,
        end.len() == 2,
    ensures
        dechunked(line + crlf() + data + end + rest) == match dechunked(rest) {
            Some(r) => Some(data + r),
            None => None,
        },
{
    let body = line + crlf() + data + end + rest;
    let tail = data + end + rest;
    assert(body =~= line + crlf() + tail);
    lemma_first_line(line, tail);
    let start: int = line.len() as int + 2;
    assert(body.subrange(start, start + data.len()) =~= data);
    assert(body.skip(start + data.len() + 2) =~= rest);
}

/// A body whose chunk, or the line end behind it, is cut off is refused.
pub proof fn law_truncated_chunk_is_refused(line: Seq<u8>, n: nat, rest: Seq<u8>)
    requires
        one_line(line),
        chunk_size(line) == Some(n),
        n > 0,
        rest.len() < n + 2,
    ensures
        dechunked(line + crlf() + rest) is None,
{
    lemma_first_line(line, rest);
}

/// Reading a chunked body gives back what was written into it.
pub proof fn law_chunked_round_trip(chunks: Seq<Seq<u8>>)
    requires
        forall|i: int|
            0 <= i < chunks.len() ==> 0 < (#[trigger] chunks[i]).len() <= usize::MAX,
    ensures
        dechunked(chunked(chunks)) == Some(chunks.flatten()),
    decreases chunks.len(),
{
    if chunks.len() == 0 {
        lemma_size_line(0);
        lemma_first_line(size_line(0), crlf());
    } else {
        let first = chunks[0];
        let others = chunks.drop_first();
        lemma_size_line(first.len());
        assert forall|i: int| 0 <= i < others.len() implies 0 < (#[trigger] others[i]).len()
            <= usize::MAX by {
            assert(others[i] == chunks[i + 1]);
        }
        law_chunked_round_trip(others);
        law_chunk_is_read_back(size_line(first.len()), first, crlf(), chunked(others));
    }
}

// ---------------------------------------------------------------------------------------------
// Whole answers
// ---------------------------------------------------------------------------------------------

/// What an answer of the engine comes to.
#[derive(PartialEq, Eq, Debug)]
pub enum Reply {
    /// The engine accepted the request; this is the payload.
    Body(Vec<u8>),
    /// The engine answered with another status than 200.
    Refused(String),
    /// The answer is not one that can be read.
    Unreadable,
}

/// What an answer of the engine comes to, as mathematical values.
pub enum ReplyView {
    Body(Seq<u8>),
    Refused(Seq<char>),
    Unreadable,
}

impl View for Reply {
    type V = ReplyView;

    open spec fn view(&self) -> ReplyView {
        match self {
            Reply::Body(b) => ReplyView::Body(b@),
            Reply::Refused(s) => ReplyView::Refused(s@),
            Reply::Unreadable => ReplyView::Unreadable,
        }
    }
}

/// The empty line that ends the head of an answer, with the end of the line before it.
pub open spec fn head_end() -> Seq<u8> {
    seq![13u8, 10u8, 13u8, 10u8]
}

/// The head says that the body is chunked.
pub open spec fn says_chunked(head: Seq<char>) -> bool {
    text::occurs(text::ascii_lower(head), "transfer-encoding: chunked"@)
}

/// What the bytes of an answer come to: the head reaches to the first empty line and is UTF-8,
/// its second word is the status, and behind it stands the body.
pub open spec fn reply(raw: Seq<u8>) -> ReplyView {
    match text::position(raw, head_end()) {
        None => ReplyView::Unreadable,
        Some(e) => {
            let head = decode_utf8(raw.take(e + 4));
            let body = raw.skip(e + 4);
            if !valid_utf8(raw.take(e + 4)) || text::words(head).len() < 2 {
                ReplyView::Unreadable
            } else if text::words(head)[1] != "200"@ {
                ReplyView::Refused(text::words(head)[1])
            } else if says_chunked(head) {
                match dechunked(body) {
                    Some(b) => ReplyView::Body(b),
                    None => ReplyView::Unreadable,
                }
            } else {
                ReplyView::Body(body)
            }
        },
    }
}

/// Read one whole answer of the engine, as it came over a connection that was then closed. The
/// body is given only for status 200.
pub fn read_reply(raw: &[u8]) -> (r: Reply)
    ensures
        r@ == reply(raw@),
{
    let len: usize = raw.len();
    let end: usize = match text::find_bytes(raw, &[13u8, 10u8, 13u8, 10u8]) {
        Some(e) => e + 4,
        None => {
            return Reply::Unreadable;
        },
    };
    let head_bytes = slice_subrange(raw, 0, end);
    assert(head_bytes@ =~= raw@.take(end as int));
    let head = match text::utf8_text(head_bytes) {
        Some(s) => text::chars_of(s),
        None => {
            return Reply::Unreadable;
        },
    };
    let status = match text::second_word(&head) {
        Some(w) => text::string_of(w),
        None => {
            return Reply::Unreadable;
        },
    };
    if !text::same_text(status.as_str(), "200") {
        return Reply::Refused(status);
    }
    let body = slice_subrange(raw, end, len);
    assert(body@ =~= raw@.skip(end as int));
    let small = text::chars_lower(&head);
    if text::contains_text(&small, "transfer-encoding: chunked") {
        match decode_chunked(body) {
            Some(b) => Reply::Body(b),
            None => Reply::Unreadable,
        }
    } else {
        Reply::Body(slice_to_vec(body))
    }
}

/// `head` is the head of an answer: UTF-8 with a status, and it ends at its first empty line.
pub open spec fn is_head(head: Seq<u8>, status: Seq<char>) -> bool {
    &&& text::first_occurs_at(head, head_end(), head.len() - 4)
    &&& valid_utf8(head)
    &&& text::words(decode_utf8(head)).len() >= 2
    &&& text::words(decode_utf8(head))[1] == status
}

/// What stands behind a head does not move the end of the head.
pub(crate) proof fn lemma_head_stays(head: Seq<u8>, body: Seq<u8>)
    requires
        text::first_occurs_at(head, head_end(), head.len() - 4),
    ensures
        text::position(head + body, head_end()) == Some(head.len() - 4),
        (head + body).take(head.len() as int) == head,
        (head + body).skip(head.len() as int) == body,
{
    let raw = head + body;
    let e = head.len() - 4;
    assert(raw.subrange(e, e + 4) =~= head.subrange(e, e + 4));
    assert forall|j: int| 0 <= j < e implies !text::occurs_at(raw, head_end(), j) by {
        assert(raw.subrange(j, j + 4) =~= head.subrange(j, j + 4));
        assert(!text::occurs_at(head, head_end(), j));
    }
    text::lemma_position(raw, head_end(), e);
    assert(raw.take(head.len() as int) =~= head);
    assert(raw.skip(head.len() as int) =~= body);
}

/// An accepted answer gives back the body that the engine wrote, whichever framing it used.
pub proof fn law_accepted_answer_gives_its_body(head: Seq<u8>, chunks: Seq<Seq<u8>>)
    requires
        is_head(head, "200"@),
        forall|i: int|
            0 <= i < chunks.len() ==> 0 < (#[trigger] chunks[i]).len() <= usize::MAX,
    ensures
        says_chunked(decode_utf8(head)) ==> reply(head + chunked(chunks)) == ReplyView::Body(
            chunks.flatten(),
        ),
        !says_chunked(decode_utf8(head)) ==> reply(head + chunks.flatten()) == ReplyView::Body(
            chunks.flatten(),
        ),
{
    lemma_head_stays(head, chunked(chunks));
    lemma_head_stays(head, chunks.flatten());
    law_chunked_round_trip(chunks);
}

/// An answer with another status gives no body, whatever stands behind its head.
pub proof fn law_other_status_gives_no_body(head: Seq<u8>, status: Seq<char>, body: Seq<u8>)
    requires
        is_head(head, status),
        status != "200"@,
    ensures
        reply(head + body) == ReplyView::Refused(status),
{
    lemma_head_stays(head, body);
}

/// The text of a request.
pub open spec fn request_text(method: Seq<char>, path: Seq<char>) -> Seq<char> {
    method + " "@ + path + " HTTP/1.1\r\nHost: docker\r\nConnection: close\r\n\r\n"@
}

/// The text of a request.
pub fn request(method: &str, path: &str) -> (r: String)
    ensures
        r@ == request_text(method@, path@),
{
    let mut out = method.to_owned();
    out.append(" ");
    out.append(path);
    out.append(" HTTP/1.1\r\nHost: docker\r\nConnection: close\r\n\r\n");
    out
}

/// The note for the log on a request that the engine refused.
pub fn refusal_note(status: &str, method: &str, path: &str) -> (r: String)
    ensures
        r@ == "container engine returned HTTP "@ + status@ + " for "@ + method@ + " "@ + path@,
{
    let mut out = "container engine returned HTTP ".to_owned();
    out.append(status);
    out.append(" for ");
    out.append(method);
    out.append(" ");
    out.append(path);
    out
}

} // verus!
