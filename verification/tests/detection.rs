use meow::mixed::{detect_protocol, detect_waiting, Protocol, PEEK_LEN};
use meow::request_line::{is_http_proxy_request, is_proxy_request_text, white_space};

#[test]
fn connect_request_is_a_proxy_request() {
    assert!(is_http_proxy_request(b"CONNECT example.com:443 HTTP/1.1\r\nHost: example.com\r\n\r\n"));
    assert!(is_http_proxy_request(b"CONNECT a b"));
}

#[test]
fn absolute_uri_is_a_proxy_request() {
    assert!(is_http_proxy_request(b"GET http://example.com/path HTTP/1.1\r\n"));
    assert!(is_http_proxy_request(b"POST https://example.com/ HTTP/1.1\r\n"));
    assert!(is_http_proxy_request(b"G http:// x"));
}

#[test]
fn origin_form_is_no_proxy_request() {
    assert!(!is_http_proxy_request(b"GET / HTTP/1.1\r\nHost: example.com\r\n"));
    assert!(!is_http_proxy_request(b"GET HTTP://example.com/ HTTP/1.1\r\n"));
    assert!(!is_http_proxy_request(b"GET ftp://example.com/ HTTP/1.1\r\n"));
}

#[test]
fn method_must_be_upper_case_ascii() {
    assert!(!is_http_proxy_request(b"connect example.com:443 HTTP/1.1\r\n"));
    assert!(!is_http_proxy_request(b"Connect example.com:443 HTTP/1.1\r\n"));
    assert!(!is_http_proxy_request(b"GE7 http://example.com/ HTTP/1.1\r\n"));
    assert!(!is_http_proxy_request("G\u{c9}T http://example.com/ HTTP/1.1\r\n".as_bytes()));
    assert!(is_http_proxy_request(b"BREW http://example.com/ HTTP/1.1\r\n"));
}

#[test]
fn three_words_are_needed_on_the_first_line() {
    assert!(!is_http_proxy_request(b""));
    assert!(!is_http_proxy_request(b"CONNECT"));
    assert!(!is_http_proxy_request(b"CONNECT example.com:443"));
    assert!(!is_http_proxy_request(b"CONNECT example.com:443\r\nHTTP/1.1 x"));
    assert!(!is_http_proxy_request(b"\nCONNECT example.com:443 HTTP/1.1\r\n"));
    assert!(is_http_proxy_request(b"CONNECT example.com:443 HTTP/1.1 more words"));
}

#[test]
fn any_white_space_separates_words() {
    assert!(is_http_proxy_request(b"  CONNECT\thost:1   HTTP/1.1"));
    assert!(is_http_proxy_request("CONNECT\u{a0}host:1\u{3000}HTTP/1.1".as_bytes()));
    assert!(!is_http_proxy_request("CONNECT\u{200b}host:1\u{200b}HTTP/1.1".as_bytes()));
}

#[test]
fn bytes_that_are_no_utf8_are_part_of_words() {
    assert!(is_http_proxy_request(b"CONNECT \xff\xfe \x80"));
    assert!(!is_http_proxy_request(b"CONN\xffECT host:1 HTTP/1.1"));
    assert!(is_http_proxy_request(b"CONNECT host:1 HTTP/1.1\n\xff\xff"));
    // A peek that ends inside a character.
    assert!(is_http_proxy_request(b"CONNECT host:1 \xe3\x80"));
}

#[test]
fn what_follows_the_first_line_feed_does_not_matter() {
    let line: &[u8] = b"CONNECT host:1 HTTP/1.1\n";
    for tail in [&b""[..], b"\n\n", b"GET / x", b"\xc3\x28", b"\0\0\0"] {
        let mut all = line.to_vec();
        all.extend_from_slice(tail);
        assert_eq!(is_http_proxy_request(&all), is_http_proxy_request(line));
    }
}

#[test]
fn no_proxy_request_is_shorter_than_eleven_bytes() {
    let full: &[u8] = b"CONNECT a b";
    assert_eq!(full.len(), 11);
    assert!(is_http_proxy_request(full));
    for n in 0..11 {
        assert!(!is_http_proxy_request(&full[..n]));
    }
}

#[test]
fn text_is_judged_like_bytes() {
    assert!(is_proxy_request_text("GET http://h/ HTTP/1.1"));
    assert!(!is_proxy_request_text("GET /http:// HTTP/1.1"));
}

#[test]
fn white_space_is_what_unicode_says() {
    let mut n = 0;
    for code in 0..=0x10ffffu32 {
        if let Some(c) = char::from_u32(code) {
            assert_eq!(white_space(c), c.is_whitespace(), "{code:x}");
            if white_space(c) {
                n += 1;
            }
        }
    }
    assert_eq!(n, 25);
}

#[test]
fn protocols_are_told_apart() {
    assert_eq!(detect_protocol(b""), None);
    assert_eq!(detect_protocol(&[0x05, 0x01, 0x00]), Some(Protocol::Socks5));
    assert_eq!(detect_protocol(&[0x05]), Some(Protocol::Socks5));
    assert_eq!(detect_protocol(&[0x04, 0x01]), Some(Protocol::Transparent));
    assert_eq!(detect_protocol(&[0x16, 0x03, 0x01, 0x02, 0x00]), Some(Protocol::Transparent));
    assert_eq!(detect_protocol(b"GET / HTTP/1.1\r\n"), Some(Protocol::Transparent));
    assert_eq!(
        detect_protocol(b"CONNECT example.com:443 HTTP/1.1\r\n"),
        Some(Protocol::HttpProxy)
    );
    assert_eq!(detect_protocol(b"GET http://h/ HTTP/1.1\r\n"), Some(Protocol::HttpProxy));
}

#[test]
fn waiting_connect_request_goes_to_the_http_handler() {
    assert_eq!(
        detect_waiting(b"CONNECT example.com:443 HTTP/1.1\r\n\r\n"),
        Some(Protocol::HttpProxy)
    );
}

#[test]
fn waiting_absolute_uri_request_goes_to_the_http_handler() {
    assert_eq!(
        detect_waiting(b"GET http://example.com/ HTTP/1.1\r\n\r\n"),
        Some(Protocol::HttpProxy)
    );
}

#[test]
fn waiting_bytes_are_judged_by_the_first_peek_len() {
    assert_eq!(detect_waiting(b""), None);
    assert_eq!(detect_waiting(&[0x05, 0x01, 0x00]), Some(Protocol::Socks5));
    // A line that just fits, with more bytes behind it.
    let mut fits = b"GET http://h/".to_vec();
    fits.resize(PEEK_LEN - " HTTP/1.1".len(), b'x');
    fits.extend_from_slice(b" HTTP/1.1");
    assert_eq!(fits.len(), PEEK_LEN);
    for tail in [&b""[..], b"\r\n", b"\r\nHost: h\r\n\r\n", b"\n\xff"] {
        let mut waiting = fits.clone();
        waiting.extend_from_slice(tail);
        assert_eq!(detect_waiting(&waiting), Some(Protocol::HttpProxy));
    }
    // The third word begins behind what is looked at.
    let mut longer = b"GET http://h/".to_vec();
    longer.resize(PEEK_LEN, b'x');
    longer.extend_from_slice(b" HTTP/1.1\r\n");
    assert_eq!(detect_waiting(&longer), Some(Protocol::Transparent));
    assert_eq!(detect_protocol(&longer), Some(Protocol::HttpProxy));
}

#[test]
fn of_any_bytes_only_the_first_line_decides() {
    let lines: [&[u8]; 8] = [
        b"",
        b"CONNECT \xff\xfe \x80",
        b"CONNECT host:1 \xe3\x80",
        b"CONN\xffECT host:1 HTTP/1.1",
        b"GET http://\xc3 \xf0\x9f\x92",
        b"\xe2\x80 a b",
        b"CONNECT a b\r\r",
        b"CONNECT a\nb c",
    ];
    for line in lines {
        let expected = is_http_proxy_request(line);
        let returned = [line, b"\r\n"].concat();
        assert_eq!(is_http_proxy_request(&returned), expected);
        for after in [&b""[..], b"x", b"\n", b"\x80\x80", b"GET http://h/ x"] {
            let fed = [line, b"\n", after].concat();
            assert_eq!(is_http_proxy_request(&fed), expected);
        }
    }
    assert!(is_http_proxy_request(lines[1]));
    assert!(!is_http_proxy_request(lines[3]));
}

#[test]
fn a_text_needs_no_line_terminator() {
    for text in ["CONNECT a b", "GET http://h/ x", "GET / x", "", "CONNECT a"] {
        let expected = is_proxy_request_text(text);
        assert_eq!(is_proxy_request_text(&format!("{text}\n")), expected);
        assert_eq!(is_proxy_request_text(&format!("{text}\r\n")), expected);
    }
}
