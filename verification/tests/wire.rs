use watchlite::engine::wire::{decode_chunked, read_reply, refusal_note, request, Reply};

#[test]
fn decodes_chunked_body() {
    let body = b"4\r\nWiki\r\n5\r\npedia\r\n0\r\n\r\n";
    assert_eq!(decode_chunked(body).unwrap(), b"Wikipedia");
}

#[test]
fn rejects_truncated_chunk() {
    assert!(decode_chunked(b"ff\r\nshort\r\n").is_none());
}

#[test]
fn chunk_of_the_largest_size_is_truncated() {
    assert!(decode_chunked(b"ffffffffffffffff\r\nshort\r\n").is_none());
    assert!(decode_chunked(b"fffffffffffffffe\r\nshort\r\n").is_none());
    assert!(decode_chunked(b"10000000000000000\r\nshort\r\n").is_none());
}

#[test]
fn chunk_without_its_line_end_is_truncated() {
    assert!(decode_chunked(b"4\r\nWiki").is_none());
    assert!(decode_chunked(b"4\r\nWiki\r").is_none());
    assert!(decode_chunked(b"4\r\nWiki\r\n").is_none());
}

#[test]
fn size_lines_may_hold_extensions_spaces_and_a_sign() {
    assert_eq!(decode_chunked(b" 4 ; name=value\r\nWiki\r\n0\r\n").unwrap(), b"Wiki");
    assert_eq!(decode_chunked("\u{2003}+A\u{a0}\r\n0123456789\r\n0\r\n".as_bytes()).unwrap(), b"0123456789");
    assert_eq!(decode_chunked(b"a\r\n0123456789xx0;last\r\ntrailer").unwrap(), b"0123456789");
}

#[test]
fn bad_size_lines_are_refused() {
    assert!(decode_chunked(b"").is_none());
    assert!(decode_chunked(b"\r\n").is_none());
    assert!(decode_chunked(b"4").is_none());
    assert!(decode_chunked(b"+\r\n").is_none());
    assert!(decode_chunked(b"-0\r\n").is_none());
    assert!(decode_chunked(b"0x0\r\n").is_none());
    assert!(decode_chunked(b"g\r\n").is_none());
    assert!(decode_chunked(b"\xff0\r\n").is_none());
    assert!(decode_chunked(b"; 0\r\n").is_none());
}

#[test]
fn chunked_bodies_are_read_back() {
    let chunks: Vec<Vec<u8>> = vec![vec![7; 1], vec![13, 10, 13, 10], vec![9; 300]];
    let mut body: Vec<u8> = Vec::new();
    let mut plain: Vec<u8> = Vec::new();
    for c in &chunks {
        body.extend_from_slice(format!("{:x}\r\n", c.len()).as_bytes());
        body.extend_from_slice(c);
        body.extend_from_slice(b"\r\n");
        plain.extend_from_slice(c);
    }
    body.extend_from_slice(b"0\r\n\r\n");
    assert_eq!(decode_chunked(&body).unwrap(), plain);
}

#[test]
fn plain_reply_gives_its_body() {
    let raw = b"HTTP/1.1 200 OK\r\nContent-Length: 3\r\n\r\n[]\n";
    assert_eq!(read_reply(raw), Reply::Body(b"[]\n".to_vec()));
}

#[test]
fn chunked_reply_gives_its_body() {
    let raw = b"HTTP/1.1 200 OK\r\nTRANSFER-Encoding: Chunked\r\n\r\n2\r\n[]\r\n0\r\n\r\n";
    assert_eq!(read_reply(raw), Reply::Body(b"[]".to_vec()));
    let raw = b"HTTP/1.1 200 OK\r\nTransfer-Encoding: chunked\r\n\r\nff\r\n[]\r\n";
    assert_eq!(read_reply(raw), Reply::Unreadable);
}

#[test]
fn other_status_is_a_refusal() {
    let raw = b"HTTP/1.1 409 Conflict\r\n\r\nin use";
    assert_eq!(read_reply(raw), Reply::Refused("409".to_string()));
    let raw = b"HTTP/1.1\xc2\xa0500 Oops\r\n\r\n";
    assert_eq!(read_reply(raw), Reply::Refused("500".to_string()));
}

#[test]
fn unreadable_replies() {
    assert_eq!(read_reply(b""), Reply::Unreadable);
    assert_eq!(read_reply(b"HTTP/1.1 200 OK\r\n"), Reply::Unreadable);
    assert_eq!(read_reply(b"HTTP/1.1\r\n\r\n"), Reply::Unreadable);
    assert_eq!(read_reply(b"HTTP/1.1 200 \xff\r\n\r\n"), Reply::Unreadable);
}

#[test]
fn body_need_not_be_text() {
    assert_eq!(read_reply(b"HTTP/1.1 200 OK\r\n\r\n\xff\xfe"), Reply::Body(vec![255, 254]));
}

#[test]
fn requests_close_the_connection() {
    assert_eq!(
        request("GET", "/images/json"),
        "GET /images/json HTTP/1.1\r\nHost: docker\r\nConnection: close\r\n\r\n"
    );
}

#[test]
fn refusals_are_noted() {
    assert_eq!(
        refusal_note("404", "DELETE", "/images/x"),
        "container engine returned HTTP 404 for DELETE /images/x"
    );
}
