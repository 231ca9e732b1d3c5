use axum::http::header::{HeaderName, HeaderValue};
use fpm_gateway::error::GatewayError;
use fpm_gateway::headers::HEADER_MAP_ROOM;
use fpm_gateway::response::{
    collect_headers, parse_fpm_fields, parse_fpm_header, parse_fpm_response, parse_status,
    HeaderIter,
};

fn failure(data: &[u8]) -> Option<GatewayError> {
    parse_fpm_response(data).err()
}

#[test]
fn status_header_sets_the_status_and_is_not_forwarded() {
    let parsed = parse_fpm_response(b"Status: 404 Not Found\r\nX-Foo: bar\r\n\r\nbody-bytes")
        .ok()
        .unwrap();
    assert_eq!(parsed.status, 404);
    assert_eq!(parsed.headers.get("x-foo").unwrap().as_bytes(), b"bar");
    assert_eq!(parsed.headers.get("X-Foo").unwrap().as_bytes(), b"bar");
    assert!(!parsed.headers.contains_key("status"));
    assert_eq!(parsed.headers.len(), 1);
    assert_eq!(parsed.body, b"body-bytes".to_vec());
}

#[test]
fn status_defaults_to_200() {
    let parsed = parse_fpm_response(b"Content-Type: text/plain\r\n\r\nhi").ok().unwrap();
    assert_eq!(parsed.status, 200);
    assert_eq!(parsed.headers.len(), 1);
    assert_eq!(parsed.headers.get("content-type").unwrap().as_bytes(), b"text/plain");
    assert_eq!(parsed.body, b"hi".to_vec());
}

#[test]
fn answer_without_blank_line_has_no_body_boundary() {
    assert_eq!(failure(b"Content-Type: text/plain\r\nhi"), Some(GatewayError::MissingBodyBoundary));
    assert_eq!(failure(b""), Some(GatewayError::MissingBodyBoundary));
    assert_eq!(failure(b"\r\n\r"), Some(GatewayError::MissingBodyBoundary));
    assert_eq!(failure(b"A: b\n\nbody"), Some(GatewayError::MissingBodyBoundary));
}

#[test]
fn line_without_separator_is_malformed() {
    assert_eq!(
        failure(b"Content-Type text/plain\r\n\r\nhi"),
        Some(GatewayError::MalformedHeaderLine)
    );
    assert_eq!(failure(b"X-Foo:bar\r\n\r\n"), Some(GatewayError::MalformedHeaderLine));
    assert_eq!(parse_fpm_header(b"no separator").err(), Some(GatewayError::MalformedHeaderLine));
    assert_eq!(parse_fpm_header(b"").err(), Some(GatewayError::MalformedHeaderLine));
}

#[test]
fn status_without_digits_is_invalid() {
    assert_eq!(failure(b"Status: abc\r\n\r\n"), Some(GatewayError::InvalidStatus));
    assert_eq!(failure(b"Status: \r\n\r\n"), Some(GatewayError::InvalidStatus));
    assert_eq!(failure(b"Status:  200\r\n\r\n"), Some(GatewayError::InvalidStatus));
    assert_eq!(parse_status(b"abc"), Err(GatewayError::InvalidStatus));
    assert_eq!(parse_status(b""), Err(GatewayError::InvalidStatus));
}

#[test]
fn status_reads_only_the_leading_digits() {
    let parsed = parse_fpm_response(b"Status: 204 No Content\r\n\r\n").ok().unwrap();
    assert_eq!(parsed.status, 204);
    assert!(parsed.headers.is_empty());
    assert!(parsed.body.is_empty());
    assert_eq!(parse_status(b"204 No Content"), Ok(204));
    assert_eq!(parse_status(b"301x99"), Ok(301));
    assert_eq!(parse_status(b"0200"), Ok(200));
    assert_eq!(parse_status(b"999"), Ok(999));
    assert_eq!(parse_status(b"100"), Ok(100));
}

#[test]
fn status_outside_100_to_999_is_invalid() {
    assert_eq!(parse_status(b"99"), Err(GatewayError::InvalidStatus));
    assert_eq!(parse_status(b"0"), Err(GatewayError::InvalidStatus));
    assert_eq!(parse_status(b"1000"), Err(GatewayError::InvalidStatus));
    assert_eq!(parse_status(b"65535"), Err(GatewayError::InvalidStatus));
    assert_eq!(parse_status(b"65536"), Err(GatewayError::InvalidStatus));
    assert_eq!(parse_status(b"65736"), Err(GatewayError::InvalidStatus));
    assert_eq!(
        parse_status(b"340282366920938463463374607431768211656"),
        Err(GatewayError::InvalidStatus)
    );
    assert_eq!(failure(b"Status: 99\r\n\r\n"), Some(GatewayError::InvalidStatus));
}

#[test]
fn status_name_is_read_in_any_case() {
    assert_eq!(parse_fpm_response(b"STATUS: 201\r\n\r\n").ok().unwrap().status, 201);
    assert_eq!(parse_fpm_response(b"status: 202\r\n\r\n").ok().unwrap().status, 202);
    let parsed = parse_fpm_response(b"sTaTuS: 203\r\nStatus-Note: x\r\n\r\n").ok().unwrap();
    assert_eq!(parsed.status, 203);
    assert_eq!(parsed.headers.len(), 1);
    assert!(parsed.headers.contains_key("status-note"));
}

#[test]
fn last_status_wins() {
    let parsed = parse_fpm_response(b"Status: 404\r\nStatus: 500\r\n\r\n").ok().unwrap();
    assert_eq!(parsed.status, 500);
}

#[test]
fn last_header_of_a_name_wins() {
    let parsed = parse_fpm_response(b"X-A: 1\r\nX-B: 2\r\nx-a: 3\r\n\r\n").ok().unwrap();
    assert_eq!(parsed.headers.len(), 2);
    assert_eq!(parsed.headers.get("x-a").unwrap().as_bytes(), b"3");
    assert_eq!(parsed.headers.get_all("x-a").iter().count(), 1);
    assert_eq!(parsed.headers.get("x-b").unwrap().as_bytes(), b"2");
}

#[test]
fn first_error_wins() {
    assert_eq!(failure(b"Status: abc\r\nbroken\r\n\r\n"), Some(GatewayError::InvalidStatus));
    assert_eq!(failure(b"broken\r\nStatus: abc\r\n\r\n"), Some(GatewayError::MalformedHeaderLine));
}

#[test]
fn header_name_must_be_a_token() {
    assert_eq!(failure(b"X Foo: bar\r\n\r\n"), Some(GatewayError::MalformedHeaderLine));
    assert_eq!(failure(b": bar\r\n\r\n"), Some(GatewayError::MalformedHeaderLine));
    assert_eq!(failure(b"X-F\xc3\xb6: bar\r\n\r\n"), Some(GatewayError::MalformedHeaderLine));
    assert_eq!(failure(b"X(Foo): bar\r\n\r\n"), Some(GatewayError::MalformedHeaderLine));
    let long_name = vec![b'a'; 65536];
    let mut line = long_name.clone();
    line.extend_from_slice(b": v");
    assert_eq!(parse_fpm_header(&line).err(), Some(GatewayError::MalformedHeaderLine));
    let mut line = long_name[..65535].to_vec();
    line.extend_from_slice(b": v");
    assert!(parse_fpm_header(&line).is_ok());
}

#[test]
fn header_value_must_hold_no_control_byte() {
    assert_eq!(failure(b"X-Foo: a\x01b\r\n\r\n"), Some(GatewayError::MalformedHeaderLine));
    assert_eq!(failure(b"X-Foo: a\x7fb\r\n\r\n"), Some(GatewayError::MalformedHeaderLine));
    assert_eq!(failure(b"X-Foo: bar\r\r\n\r\n"), Some(GatewayError::MalformedHeaderLine));
    assert_eq!(failure(b"Status: 200\x00\r\n\r\n"), Some(GatewayError::MalformedHeaderLine));
    let parsed = parse_fpm_response(b"X-Foo: a\tb \xff\r\n\r\n").ok().unwrap();
    assert_eq!(parsed.headers.get("x-foo").unwrap().as_bytes(), b"a\tb \xff");
}

#[test]
fn header_is_split_at_the_first_separator() {
    let (name, value) = parse_fpm_header(b"X-Foo: a: b").ok().unwrap();
    assert_eq!(name, HeaderName::from_static("x-foo"));
    assert_eq!(value, HeaderValue::from_static("a: b"));
    let (name, value) = parse_fpm_header(b"Location: ").ok().unwrap();
    assert_eq!(name.as_str(), "location");
    assert_eq!(value.as_bytes(), b"");
}

#[test]
fn header_name_is_kept_in_lower_case() {
    let (name, value) = parse_fpm_header(b"X-Powered-BY: PHP/8.3").ok().unwrap();
    assert_eq!(name.as_str(), "x-powered-by");
    assert_eq!(value.as_bytes(), b"PHP/8.3");
    let (name, _) = parse_fpm_header(b"CONTENT-TYPE: Text/HTML").ok().unwrap();
    assert_eq!(name.as_str(), "content-type");
}

#[test]
fn empty_header_block_is_well_formed() {
    let parsed = parse_fpm_response(b"\r\n\r\nbody").ok().unwrap();
    assert_eq!(parsed.status, 200);
    assert!(parsed.headers.is_empty());
    assert_eq!(parsed.body, b"body".to_vec());
}

#[test]
fn body_starts_after_the_first_blank_line() {
    let parsed = parse_fpm_response(b"A: b\r\n\r\n\r\n\r\nC: d\r\n\r\nrest").ok().unwrap();
    assert_eq!(parsed.headers.len(), 1);
    assert_eq!(parsed.body, b"\r\n\r\nC: d\r\n\r\nrest".to_vec());
    let parsed = parse_fpm_response(b"A: b\r\n\r\n\r\nbody").ok().unwrap();
    assert_eq!(parsed.body, b"\r\nbody".to_vec());
}

#[test]
fn body_is_kept_byte_for_byte() {
    let mut data = b"Content-Type: application/octet-stream\r\n\r\n".to_vec();
    let body: Vec<u8> = (0..=255).collect();
    data.extend_from_slice(&body);
    let parsed = parse_fpm_response(&data).ok().unwrap();
    assert_eq!(parsed.body, body);
}

#[test]
fn empty_line_in_the_block_is_malformed() {
    assert_eq!(parse_fpm_fields(b"\r\nA: b").err(), Some(GatewayError::MalformedHeaderLine));
    assert_eq!(parse_fpm_fields(b"A: b\r\n\r\n").err(), Some(GatewayError::MalformedHeaderLine));
}

#[test]
fn line_end_at_the_end_of_the_block_opens_no_line() {
    let (status, headers) = parse_fpm_fields(b"A: b\r\n").ok().unwrap();
    assert_eq!(status, 200);
    assert_eq!(headers.len(), 1);
    let (status, headers) = parse_fpm_fields(b"").ok().unwrap();
    assert_eq!(status, 200);
    assert!(headers.is_empty());
}

#[test]
fn header_iter_reads_line_by_line() {
    let mut lines = HeaderIter::new(b"A: 1\r\nbroken\r\nB: 2");
    let (name, value) = lines.next().unwrap().ok().unwrap();
    assert_eq!(name.as_str(), "a");
    assert_eq!(value.as_bytes(), b"1");
    assert_eq!(lines.next().unwrap().err(), Some(GatewayError::MalformedHeaderLine));
    let (name, value) = lines.next().unwrap().ok().unwrap();
    assert_eq!(name.as_str(), "b");
    assert_eq!(value.as_bytes(), b"2");
    assert!(lines.next().is_none());
    assert!(lines.next().is_none());
}

#[test]
fn header_iter_on_an_empty_block_is_at_its_end() {
    let mut lines = HeaderIter::new(b"");
    assert!(lines.next().is_none());
}

#[test]
fn parsing_twice_gives_the_same_answer() {
    let data = b"Status: 302 Found\r\nLocation: /next\r\nX-A: 1\r\nX-A: 2\r\n\r\nmoved";
    let first = parse_fpm_response(data).ok().unwrap();
    let second = parse_fpm_response(data).ok().unwrap();
    assert_eq!(first.status, second.status);
    assert_eq!(first.headers, second.headers);
    assert_eq!(first.body, second.body);
    assert_eq!(first.status, 302);
}

#[test]
fn many_headers_are_all_kept() {
    let mut data = Vec::new();
    for i in 0..2000 {
        data.extend_from_slice(format!("X-Header-{}: value-{}\r\n", i, i).as_bytes());
    }
    data.extend_from_slice(b"\r\nbody");
    let parsed = parse_fpm_response(&data).ok().unwrap();
    assert_eq!(parsed.headers.len(), 2000);
    assert_eq!(parsed.headers.get("x-header-1999").unwrap().as_bytes(), b"value-1999");
    assert_eq!(parsed.headers.get("x-header-0").unwrap().as_bytes(), b"value-0");
}

#[test]
fn more_headers_than_the_map_takes_are_refused() {
    let mut data = Vec::new();
    for i in 0..40000 {
        data.extend_from_slice(format!("X-Header-{}: v\r\n", i).as_bytes());
    }
    data.extend_from_slice(b"\r\n");
    assert_eq!(failure(&data), Some(GatewayError::HeaderMapFull));
    data.truncate(data.len() - 2);
    data.extend_from_slice(b"broken\r\n\r\n");
    assert_eq!(failure(&data), Some(GatewayError::MalformedHeaderLine));
}

#[test]
fn fields_are_read_in_the_order_of_their_lines() {
    let (status, headers) =
        parse_fpm_fields(b"X-A: 1\r\nStatus: 404 Not Found\r\nX-B: 2\r\nx-a: 3").ok().unwrap();
    assert_eq!(status, 404);
    assert_eq!(headers.len(), 3);
    assert_eq!(headers[0].0.as_str(), "x-a");
    assert_eq!(headers[0].1.as_bytes(), b"1");
    assert_eq!(headers[1].0.as_str(), "x-b");
    assert_eq!(headers[1].1.as_bytes(), b"2");
    assert_eq!(headers[2].0.as_str(), "x-a");
    assert_eq!(headers[2].1.as_bytes(), b"3");
}

#[test]
fn collected_headers_keep_the_last_of_a_name() {
    let headers = vec![
        (HeaderName::from_static("x-a"), HeaderValue::from_static("1")),
        (HeaderName::from_static("x-b"), HeaderValue::from_static("2")),
        (HeaderName::from_static("x-a"), HeaderValue::from_static("3")),
    ];
    let map = collect_headers(headers).unwrap();
    assert_eq!(map.len(), 2);
    assert_eq!(map.get("x-a").unwrap().as_bytes(), b"3");
    assert_eq!(map.get_all("x-a").iter().count(), 1);
    assert_eq!(map.get("x-b").unwrap().as_bytes(), b"2");
    assert!(collect_headers(Vec::new()).unwrap().is_empty());
}

#[test]
fn collecting_more_headers_than_the_map_takes_gives_none() {
    let mut headers = Vec::new();
    for i in 0..40000 {
        let name = HeaderName::from_bytes(format!("x-{}", i).as_bytes()).unwrap();
        headers.push((name, HeaderValue::from_static("v")));
    }
    assert!(collect_headers(headers).is_none());
}

fn write_answer(status: Option<(u16, &str)>, headers: &[(&str, &[u8])], body: &[u8]) -> Vec<u8> {
    let mut lines: Vec<Vec<u8>> = Vec::new();
    if let Some((code, note)) = status {
        lines.push(format!("Status: {}{}", code, note).into_bytes());
    }
    for (name, value) in headers {
        let mut line = name.as_bytes().to_vec();
        line.extend_from_slice(b": ");
        line.extend_from_slice(value);
        lines.push(line);
    }
    let mut data = lines.join(&b"\r\n"[..]);
    data.extend_from_slice(b"\r\n\r\n");
    data.extend_from_slice(body);
    data
}

#[test]
fn written_answers_read_back() {
    let headers: [(&str, &[u8]); 4] = [
        ("Content-Type", b"text/html; charset=utf-8"),
        ("X-Empty", b""),
        ("Set-Cookie", b"a=b: c; Path=/"),
        ("x-bytes", b"\x80\xff\t "),
    ];
    for status in [None, Some((100, "")), Some((404, " Not Found")), Some((999, "-x"))] {
        for count in 0..=headers.len() {
            for body in [&b""[..], b"body", b"\r\n\r\nA: b\r\n\r\n"] {
                let data = write_answer(status, &headers[..count], body);
                let parsed = parse_fpm_response(&data).ok().unwrap();
                assert_eq!(parsed.status, status.map(|s| s.0).unwrap_or(200));
                assert_eq!(parsed.headers.len(), count);
                for (name, value) in &headers[..count] {
                    let found = parsed.headers.get(name.to_ascii_lowercase()).unwrap();
                    assert_eq!(found.as_bytes(), *value);
                }
                assert_eq!(parsed.body, body.to_vec());
            }
        }
    }
}

#[test]
fn as_many_names_as_the_map_has_room_for_are_all_kept() {
    assert_eq!(HEADER_MAP_ROOM, 3277);
    let mut data = Vec::new();
    let mut headers = Vec::new();
    for i in 0..HEADER_MAP_ROOM {
        data.extend_from_slice(format!("N{}: {}\r\n", i, i).as_bytes());
        let name = HeaderName::from_bytes(format!("n{}", i).as_bytes()).unwrap();
        headers.push((name, HeaderValue::from_static("v")));
    }
    data.extend_from_slice(b"\r\n");
    let parsed = parse_fpm_response(&data).ok().unwrap();
    assert_eq!(parsed.headers.len(), HEADER_MAP_ROOM);
    assert_eq!(collect_headers(headers).unwrap().len(), HEADER_MAP_ROOM);
}

#[test]
fn few_names_given_many_times_are_all_taken() {
    let mut data = Vec::new();
    for i in 0..50000 {
        data.extend_from_slice(format!("X-{}: {}\r\n", i % 100, i).as_bytes());
    }
    data.extend_from_slice(b"\r\nend");
    let parsed = parse_fpm_response(&data).ok().unwrap();
    assert_eq!(parsed.headers.len(), 100);
    assert_eq!(parsed.headers.get("x-99").unwrap().as_bytes(), b"49999");
    assert_eq!(parsed.body, b"end".to_vec());
}
