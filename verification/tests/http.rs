use dsh_desktop::http::{
    address, auth_token, cookie_of_text, engine_url, fetch_auth_cookie_name_value, full_path,
    http_reply, is_dsh, is_lowered_to, looks_like_dsh, request, server_up, status_of_text,
    text_looks_like_dsh, Reply, ReplyBuffer, READ_CHUNK, REPLY_BUDGET,
};

fn reply(status: u16, body: &str) -> Option<Reply> {
    Some(Reply { status, body: body.as_bytes().to_vec() })
}

#[test]
fn urls_name_the_loopback_port() {
    assert_eq!(engine_url(3080), "http://127.0.0.1:3080");
    assert_eq!(engine_url(0), "http://127.0.0.1:0");
    assert_eq!(address(65535), "127.0.0.1:65535");
}

#[test]
fn token_is_appended_to_the_query() {
    assert_eq!(full_path("/", None), "/");
    assert_eq!(full_path("/", Some("")), "/");
    assert_eq!(full_path("/", Some("abc")), "/?token=abc");
    assert_eq!(full_path("/x?y=1", Some("abc")), "/x?y=1&token=abc");
}

#[test]
fn request_is_spelt_out() {
    assert_eq!(
        request(3480, "/", Some("t0k")),
        "GET /?token=t0k HTTP/1.1\r\nHost: 127.0.0.1:3480\r\nConnection: close\r\n\r\n"
    );
    assert_eq!(
        request(80, "/", None),
        "GET / HTTP/1.1\r\nHost: 127.0.0.1:80\r\nConnection: close\r\n\r\n"
    );
}

#[test]
fn request_carries_the_token() {
    for path in ["/", "/a?b=c", "/token", ""] {
        assert_eq!(auth_token(&full_path(path, Some("v1.x-y"))), Some("v1.x-y".to_string()));
    }
}

#[test]
fn reading_stops_at_the_budget_the_end_and_errors() {
    let mut b = ReplyBuffer::new();
    assert!(b.feed(Some(b"HTTP")));
    assert!(b.feed(Some(b"/1.1 200")));
    assert!(!b.feed(Some(b"")));
    assert!(!b.failed);
    assert_eq!(b.bytes, b"HTTP/1.1 200".to_vec());

    let mut b = ReplyBuffer::new();
    assert!(b.feed(Some(b"HTTP")));
    assert!(!b.feed(None));
    assert!(b.failed);
    assert!(!b.feed(Some(b"/1.1 200")));
    assert!(b.failed);

    let mut b = ReplyBuffer::new();
    let chunk = vec![7u8; READ_CHUNK];
    let mut reads = 1;
    while b.feed(Some(&chunk)) {
        reads += 1;
    }
    assert_eq!(reads, 64);
    assert_eq!(b.bytes.len(), REPLY_BUDGET);
    assert!(!b.failed);
}

#[test]
fn last_chunk_may_pass_the_budget() {
    let mut b = ReplyBuffer::new();
    assert!(b.feed(Some(b"HTTP/1.1 200 OK\r\n\r\n")));
    let chunk = vec![b'x'; READ_CHUNK];
    while b.feed(Some(&chunk)) {}
    assert_eq!(b.bytes.len(), REPLY_BUDGET + 19);
    assert_eq!(b.reply().unwrap().status, 200);
}

#[test]
fn failed_read_gives_no_reply() {
    let mut b = ReplyBuffer::new();
    assert!(b.feed(Some(b"HTTP/1.1 200 OK\r\n\r\n")));
    assert!(!b.feed(None));
    assert!(b.reply().is_none());

    let mut b = ReplyBuffer::new();
    assert!(!b.feed(None));
    assert!(b.reply().is_none());
}

#[test]
fn complete_read_gives_the_reply() {
    let mut b = ReplyBuffer::new();
    assert!(b.feed(Some(b"HTTP/1.1 303 See")));
    assert!(b.feed(Some(b" Other\r\n\r\n")));
    assert!(!b.feed(Some(b"")));
    let r = b.reply().unwrap();
    assert_eq!(r.status, 303);
    assert_eq!(r.body, b"HTTP/1.1 303 See Other\r\n\r\n".to_vec());

    let mut b = ReplyBuffer::new();
    assert!(b.feed(Some(b"no status here")));
    assert!(!b.feed(Some(b"")));
    assert!(b.reply().is_none());
    assert!(ReplyBuffer::new().reply().is_none());
}

#[test]
fn status_is_the_second_word() {
    assert_eq!(status_of_text("HTTP/1.1 200 OK\r\n\r\n"), Some(200));
    assert_eq!(status_of_text("HTTP/1.1 303"), Some(303));
    assert_eq!(status_of_text("HTTP/1.1"), None);
    assert_eq!(status_of_text(""), None);
    assert_eq!(status_of_text("HTTP/1.1 abc"), None);
    assert_eq!(status_of_text("HTTP/1.1 70000 x"), None);
}

#[test]
fn reply_keeps_its_bytes() {
    let r = http_reply(b"HTTP/1.1 401 Unauthorized\r\n\r\nno".to_vec()).unwrap();
    assert_eq!(r.status, 401);
    assert_eq!(r.body, b"HTTP/1.1 401 Unauthorized\r\n\r\nno".to_vec());
    assert!(http_reply(Vec::new()).is_none());
    assert!(http_reply(b"garbage".to_vec()).is_none());
}

#[test]
fn invalid_bytes_do_not_hide_the_status() {
    let r = http_reply(b"\xff\xfe/1.1 200 \x80".to_vec()).unwrap();
    assert_eq!(r.status, 200);
    assert_eq!(r.body, b"\xff\xfe/1.1 200 \x80".to_vec());
}

#[test]
fn server_is_up_when_it_answers() {
    assert!(server_up(&reply(200, "")));
    assert!(server_up(&reply(401, "")));
    assert!(!server_up(&reply(500, "")));
    assert!(!server_up(&reply(303, "")));
    assert!(!server_up(&None));
}

#[test]
fn engine_is_told_by_its_page() {
    assert!(looks_like_dsh(b"<script>window.__DSH_BOOT__ = 1</script>"));
    assert!(looks_like_dsh(b"\xff<title>DeepSeek Harness</title>"));
    assert!(!looks_like_dsh(b"<title>deepseek harness</title>"));
    assert!(!looks_like_dsh(b""));
    for (before, after) in [
        (&b""[..], &b"\xf0\x9f"[..]),
        (&b"\xe2\x82"[..], &b"\xff"[..]),
        (&b"\xc3"[..], &b"\x80x"[..]),
    ] {
        let page = [before, &b"__DSH_BOOT__"[..], after].concat();
        assert!(looks_like_dsh(&page), "{:?}", page);
    }
    assert!(!looks_like_dsh(b"__DSH\xff_BOOT__"));
    assert!(!looks_like_dsh(b"DeepSeek\xc2\xa0Harness"));
    assert!(text_looks_like_dsh("x DeepSeek Harness"));
    assert!(!text_looks_like_dsh("DeepSeek"));

    assert!(is_dsh(&reply(200, "DeepSeek Harness")));
    assert!(!is_dsh(&reply(200, "something else")));
    assert!(is_dsh(&reply(401, "something else")));
    assert!(!is_dsh(&reply(500, "DeepSeek Harness")));
    assert!(!is_dsh(&None));
}

#[test]
fn token_is_found_in_the_url() {
    assert_eq!(
        auth_token("http://127.0.0.1:3480/?token=abc.def"),
        Some("abc.def".to_string())
    );
    assert_eq!(auth_token("http://h/?token=abc&x=1"), Some("abc".to_string()));
    assert_eq!(auth_token("http://h/?token=abctoken=def"), Some("abc".to_string()));
    assert_eq!(auth_token("http://h/?token="), None);
    assert_eq!(auth_token("http://h/?token=&a=b"), None);
    assert_eq!(auth_token("http://h/"), None);
    assert_eq!(auth_token(""), None);
}

#[test]
fn lower_case_is_that_of_std() {
    for l in "set-cookie:".chars() {
        for c in '\0'..=char::MAX {
            let lower: String = c.to_string().to_lowercase();
            assert_eq!(is_lowered_to(c, l), lower == l.to_string(), "{:?} {:?}", c, l);
        }
    }
}

#[test]
fn header_is_found_in_any_letter_case() {
    for name in [
        "set-cookie:", "Set-Cookie:", "SET-COOKIE:", "sEt-CoOkIe:", "set-coo\u{212a}ie:",
        "set-cook\u{130}e:", "\u{17f}et-cookie:", "set-cookie", "xset-cookie:", " set-cookie:",
    ] {
        let line = format!("{name} a=b");
        let expected = line.to_ascii_lowercase().starts_with("set-cookie:");
        let text = format!("HTTP/1.1 303 See Other\r\n{line}\r\n\r\n");
        assert_eq!(cookie_of_text(&text).is_some(), expected, "{:?}", name);
    }
}

#[test]
fn oddly_spelt_header_ends_the_search() {
    assert_eq!(cookie_of_text("set-coo\u{212a}ie: a=b"), None);
    assert_eq!(cookie_of_text("set-coo\u{212a}ie: a=b\nset-cookie: c=d"), None);
    assert_eq!(
        cookie_of_text("\u{17f}et-cookie: a=b\nset-cookie: c=d"),
        Some("c=d".to_string())
    );
}

#[test]
fn exchanged_cookie_is_a_single_pair() {
    let url = "http://127.0.0.1:3480/?token=t";
    let r = reply(303, "HTTP/1.1 303\r\nset-cookie: \t a=b c \t; Path=/; X\r\n\r\n");
    let pair = fetch_auth_cookie_name_value(url, &r).unwrap();
    assert_eq!(pair, "a=b c");
    assert_eq!(pair.trim(), pair);
    assert!(!pair.contains('\n') && !pair.contains(';'));
}

#[test]
fn cookie_is_the_first_pair_of_the_first_header() {
    let text = "HTTP/1.1 303 See Other\r\nLocation: /\r\n\
                set-cookie: dsh-auth-xxx=v1.JWT; Path=/; HttpOnly\r\nset-cookie: b=c\r\n\r\n";
    assert_eq!(cookie_of_text(text), Some("dsh-auth-xxx=v1.JWT".to_string()));
    assert_eq!(cookie_of_text("Set-Cookie:a=b"), Some("a=b".to_string()));
    assert_eq!(cookie_of_text("set-cookie:   a=b   ; x"), Some("a=b".to_string()));
    assert_eq!(cookie_of_text("set-cookie: ; x\nset-cookie: a=b"), None);
    assert_eq!(cookie_of_text("set-cookie:\n"), None);
    assert_eq!(cookie_of_text("HTTP/1.1 303\r\n\r\n"), None);
    assert_eq!(cookie_of_text(""), None);
}

#[test]
fn exchange_yields_the_cookie() {
    let url = "http://127.0.0.1:3480/?token=t";
    let body = "HTTP/1.1 303 See Other\r\nSet-Cookie: dsh-auth-xxx=v1.JWT; Path=/\r\n\r\n";
    assert_eq!(
        fetch_auth_cookie_name_value(url, &reply(303, body)),
        Some("dsh-auth-xxx=v1.JWT".to_string())
    );
    assert_eq!(fetch_auth_cookie_name_value(url, &reply(200, body)), None);
    assert_eq!(fetch_auth_cookie_name_value(url, &None), None);
    assert_eq!(fetch_auth_cookie_name_value("http://h/", &reply(303, body)), None);
    assert_eq!(fetch_auth_cookie_name_value(url, &reply(303, "HTTP/1.1 303\r\n")), None);
}

#[test]
fn cookie_with_invalid_bytes_is_replaced() {
    let r = Some(Reply { status: 303, body: b"set-cookie: a=\xff; x".to_vec() });
    assert_eq!(
        fetch_auth_cookie_name_value("?token=t", &r),
        Some("a=\u{fffd}".to_string())
    );
}
