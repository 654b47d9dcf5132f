use saba_core::error::Error;
use saba_core::http::HttpResponse;

#[test]
fn test_status_line_only() {
    let raw = "HTTP/1.1 200 OK\n\n".to_string();
    let res = HttpResponse::new(raw).expect("failed to parse http response");

    assert_eq!(res.version(), "HTTP/1.1");
    assert_eq!(res.status_code(), 200);
    assert_eq!(res.reason(), "OK");
}

#[test]
fn test_one_header() {
    let raw = "HTTP/1.1 200 OK\nDate:xx xx xx\n\n".to_string();
    let res = HttpResponse::new(raw).expect("failed to parse http response");

    assert_eq!(res.version(), "HTTP/1.1");
    assert_eq!(res.status_code(), 200);
    assert_eq!(res.reason(), "OK");

    assert_eq!(res.header_value("Date"), Ok("xx xx xx".to_string()));
}

#[test]
fn test_two_headers_with_white_space() {
    let raw = "HTTP/1.1 200 OK\nDate: xx xx xx\nContent-Length: 42\n\n".to_string();
    let res = HttpResponse::new(raw).expect("failed to parse http response");

    assert_eq!(res.version(), "HTTP/1.1");
    assert_eq!(res.status_code(), 200);
    assert_eq!(res.reason(), "OK");

    assert_eq!(res.header_value("Date"), Ok("xx xx xx".to_string()));
    assert_eq!(res.header_value("Content-Length"), Ok("42".to_string()));
}

#[test]
fn test_body() {
    let raw = "HTTP/1.1 200 OK\nDate: xx xx xx\n\nbody message".to_string();
    let res = HttpResponse::new(raw).expect("failed to parse http response");

    assert_eq!(res.version(), "HTTP/1.1");
    assert_eq!(res.status_code(), 200);
    assert_eq!(res.reason(), "OK");

    assert_eq!(res.header_value("Date"), Ok("xx xx xx".to_string()));

    assert_eq!(res.body(), "body message".to_string());
}

#[test]
fn test_invalid() {
    let raw = "HTTP/1.1 200 OK".to_string();
    assert!(HttpResponse::new(raw).is_err());
}

#[test]
fn refusal_names_the_preprocessed_text() {
    let raw = "  \t HTTP/1.1 200 OK".to_string();
    match HttpResponse::new(raw) {
        Err(Error::Network(message)) => {
            assert_eq!(message, "invalid http response: HTTP/1.1 200 OK")
        }
        Ok(_) => panic!("a response without a line feed was accepted"),
    }
}

#[test]
fn status_line_with_two_parts_is_refused() {
    let raw = "HTTP/1.1 200\n\n".to_string();
    assert_eq!(
        HttpResponse::new(raw).err(),
        Some(Error::Network("invalid http response: HTTP/1.1 200\n\n".to_string()))
    );
}

#[test]
fn header_line_without_colon_is_refused() {
    let raw = "HTTP/1.1 200 OK\nDate xx\n\nbody".to_string();
    assert!(HttpResponse::new(raw).is_err());
    let raw = "HTTP/1.1 200 OK\n\n\nbody".to_string();
    assert!(HttpResponse::new(raw).is_err());
}

#[test]
fn leading_white_space_is_dropped() {
    let raw = " \n\t HTTP/1.1 200 OK\nDate: x\n\nb".to_string();
    let res = HttpResponse::new(raw).expect("failed to parse http response");
    assert_eq!(res.version(), "HTTP/1.1");
    assert_eq!(res.body(), "b");
}

#[test]
fn line_feed_and_carriage_return_fold_into_line_feed() {
    let raw = "HTTP/1.1 200 OK\n\rDate: x\n\r\n\rbody\n\rend\r\n".to_string();
    let res = HttpResponse::new(raw).expect("failed to parse http response");
    assert_eq!(res.reason(), "OK");
    assert_eq!(res.header_value("Date"), Ok("x".to_string()));
    assert_eq!(res.body(), "body\nend\r\n");
}

#[test]
fn carriage_return_before_line_feed_stays() {
    let raw = "HTTP/1.1 200 OK\r\nDate: x\r\n\r\nbody".to_string();
    let res = HttpResponse::new(raw).expect("failed to parse http response");
    assert_eq!(res.reason(), "OK\r");
    assert_eq!(res.headers().len(), 1);
    assert_eq!(res.header_value("Date"), Ok("x".to_string()));
    assert_eq!(res.body(), "body");
}

#[test]
fn response_without_blank_line_is_refused() {
    for raw in [
        "HTTP/1.1 200 OK\nDate: xx xx xx",
        "HTTP/1.1 200 OK\nbody",
        "HTTP/1.1 200 OK\n",
        "HTTP/1.1 200 OK\nA: 1\nB: 2\n",
        "HTTP/1.1 200 OK\r\nA: b\r\n",
        "",
    ] {
        assert_eq!(
            HttpResponse::new(raw.to_string()).err(),
            Some(Error::Network(format!("invalid http response: {}", raw))),
            "{:?}",
            raw
        );
    }
}

#[test]
fn blank_line_right_after_the_status_line_leaves_no_headers() {
    let raw = "HTTP/1.1 200 OK\n\nDate: xx".to_string();
    let res = HttpResponse::new(raw).expect("failed to parse http response");
    assert_eq!(res.headers().len(), 0);
    assert_eq!(res.header_value("Date"), Err("failed to find Date in headers".to_string()));
    assert_eq!(res.body(), "\nDate: xx");
}

#[test]
fn unreadable_status_code_counts_as_404() {
    for code in ["abc", "", "-1", "20x", "4294967296", "99999999999999999999", "+", "2 00", "１２"] {
        let raw = format!("HTTP/1.1 {} OK\n\n", code);
        if code == "2 00" {
            let res = HttpResponse::new(raw).expect("failed to parse http response");
            assert_eq!(res.status_code(), 2);
            assert_eq!(res.reason(), "00");
            continue;
        }
        let res = HttpResponse::new(raw).expect("failed to parse http response");
        assert_eq!(res.status_code(), 404, "code {:?}", code);
    }
}

#[test]
fn status_code_is_read_as_decimal() {
    for (text, code) in [
        ("0", 0u32),
        ("007", 7),
        ("+301", 301),
        ("4294967295", 4294967295),
        ("0000000000004294967295", 4294967295),
    ] {
        let raw = format!("HTTP/1.1 {} OK\n\n", text);
        let res = HttpResponse::new(raw).expect("failed to parse http response");
        assert_eq!(res.status_code(), code);
        assert_eq!(text.parse::<u32>().unwrap_or(404), code);
    }
}

#[test]
fn double_space_makes_an_empty_part() {
    let raw = "HTTP/1.1  200 OK\n\n".to_string();
    let res = HttpResponse::new(raw).expect("failed to parse http response");
    assert_eq!(res.version(), "HTTP/1.1");
    assert_eq!(res.status_code(), 404);
    assert_eq!(res.reason(), "200");
}

#[test]
fn reason_is_the_third_part_only() {
    let raw = "HTTP/1.1 404 Not Found\n\n".to_string();
    let res = HttpResponse::new(raw).expect("failed to parse http response");
    assert_eq!(res.status_code(), 404);
    assert_eq!(res.reason(), "Not");
}

#[test]
fn header_lookup_is_exact_and_takes_the_first() {
    let raw = "HTTP/1.1 200 OK\nA: 1\na: 2\nA: 3\nB:  x : y \n\n".to_string();
    let res = HttpResponse::new(raw).expect("failed to parse http response");
    assert_eq!(res.headers().len(), 4);
    assert_eq!(res.header_value("A"), Ok("1".to_string()));
    assert_eq!(res.header_value("a"), Ok("2".to_string()));
    assert_eq!(res.header_value("B"), Ok("x : y".to_string()));
    assert_eq!(res.header_value("C"), Err("failed to find C in headers".to_string()));
    assert_eq!(res.header_value(""), Err("failed to find  in headers".to_string()));
}

#[test]
fn header_names_and_values_lose_unicode_white_space() {
    let raw = "HTTP/1.1 200 OK\n\u{3000}Name\u{a0}:\u{2003}va lue\t\n\n".to_string();
    let res = HttpResponse::new(raw).expect("failed to parse http response");
    assert_eq!(res.header_value("Name"), Ok("va lue".to_string()));
}

#[test]
fn clone_keeps_the_response() {
    let raw = "HTTP/1.1 201 Created\nA: 1\n\nbody".to_string();
    let res = HttpResponse::new(raw).expect("failed to parse http response");
    let copy = res.clone();
    assert_eq!(copy.version(), "HTTP/1.1");
    assert_eq!(copy.status_code(), 201);
    assert_eq!(copy.reason(), "Created");
    assert_eq!(copy.header_value("A"), Ok("1".to_string()));
    assert_eq!(copy.body(), "body");
}
