use base64::Engine;
use dagproxy::sniff::{
    parse_host_from_http_request, parse_host_from_request, target_from_http_head,
    target_from_server_name, RequestType, SniffError,
};

/// A TLS ClientHello for `localhost`, in base 64.
const SAMPLE_HELLO: &[u8; 692] = b"FgMBAgABAAH8AwN3t6WJKcsKcWo+roqQX7Nuc8SYCUAKTIkINuDoJm4ooiDRiC2236q0JY/NewWV9KcViEzk7S03gwwUSioSOKbOcAAkEwETAxMCwCvAL8ypzKjALMAwwArACcATwBQAMwA5AC8ANQAKAQABjwAAAA4ADAAACWxvY2FsaG9zdAAXAAD/AQABAAAKAA4ADAAdABcAGAAZAQABAQALAAIBAAAjAAAAEAAOAAwCaDIIaHR0cC8xLjEABQAFAQAAAAAAMwBrAGkAHQAgcqzbr+1AYblh6qcR+qvjokWhIpbChkaqpXuDY9uHhVoAFwBBBAq/uAsPt0n3lc9MGArs6RqLoQE+1eWkstNR0zPjxlQcqGSD+1mKyvSCGEwU0DCZAEFEvhnj5YxSyqcAFODwnp4AKwAJCAMEAwMDAgMBAA0AGAAWBAMFAwYDCAQIBQgGBAEFAQYBAgMCAQAtAAIBAQAcAAJAAQAVAJUAAAAAAAAAAAAAAAAAAAAAAAAAAAAAAAAAAAAAAAAAAAAAAAAAAAAAAAAAAAAAAAAAAAAAAAAAAAAAAAAAAAAAAAAAAAAAAAAAAAAAAAAAAAAAAAAAAAAAAAAAAAAAAAAAAAAAAAAAAAAAAAAAAAAAAAAAAAAAAAAAAAAAAAAAAAAAAAAAAAAAAAAAAAAAAAAAAAAAAA==";

#[test]
fn test_tls_client_hello_parser() {
    let client_hello = base64::engine::general_purpose::STANDARD.decode(SAMPLE_HELLO).unwrap();
    assert_eq!(client_hello[0], 0x16);
    let (req_type, hostname) =
        parse_host_from_request(&client_hello, &Some("localhost".to_string())).unwrap();
    assert!(matches!(req_type, RequestType::Other));
    assert_eq!(hostname, "localhost:443");
}

#[test]
fn tls_record_without_server_name_fails() {
    let client_hello = base64::engine::general_purpose::STANDARD.decode(SAMPLE_HELLO).unwrap();
    assert_eq!(parse_host_from_request(&client_hello, &None), Err(SniffError::NoServerName));
    assert_eq!(target_from_server_name(&None), Err(SniffError::NoServerName));
}

#[test]
fn connect_line_gives_its_target() {
    let data = b"CONNECT example.com:443 HTTP/1.1\r\nHost: example.com:443\r\n\r\n";
    let r = parse_host_from_request(data, &None).unwrap();
    assert_eq!(r, (RequestType::Connect, "example.com:443".to_string()));
}

#[test]
fn connect_line_keeps_target_as_written() {
    let data = b"CONNECT  \t example.com HTTP/1.1\r\n";
    let r = parse_host_from_request(data, &None).unwrap();
    assert_eq!(r, (RequestType::Connect, "example.com".to_string()));
    let bare = b"CONNECT a.b:8443";
    assert_eq!(parse_host_from_request(bare, &None).unwrap().1, "a.b:8443");
}

#[test]
fn connect_line_without_target_fails() {
    assert_eq!(parse_host_from_request(b"CONNECT ", &None), Err(SniffError::MissingTarget));
    assert_eq!(parse_host_from_request(b"CONNECT \r\n\r\n", &None), Err(SniffError::MissingTarget));
}

#[test]
fn http_request_without_port_gets_port_80() {
    let data = b"GET /index.html HTTP/1.1\r\nHost: example.com\r\n\r\n";
    let r = parse_host_from_request(data, &None).unwrap();
    assert_eq!(r, (RequestType::Other, "example.com:80".to_string()));
}

#[test]
fn http_request_keeps_its_port() {
    let data = b"GET http://example.com:8080/ HTTP/1.1\r\nHost: example.com:8080\r\n\r\n";
    assert_eq!(parse_host_from_request(data, &None).unwrap().1, "example.com:8080");
}

#[test]
fn https_target_gets_port_443() {
    let data = b"GET https://example.com/ HTTP/1.1\r\nHost: example.com\r\n\r\n";
    assert_eq!(parse_host_from_http_request(data).unwrap().1, "example.com:443");
}

#[test]
fn host_header_name_is_case_insensitive() {
    let data = b"GET / HTTP/1.1\r\nAccept: */*\r\nhOsT: example.org\r\n\r\n";
    assert_eq!(parse_host_from_request(data, &None).unwrap().1, "example.org:80");
}

#[test]
fn partial_request_with_host_is_enough() {
    let data = b"GET / HTTP/1.1\r\nHost: partial.example\r\n";
    let r = parse_host_from_request(data, &None).unwrap();
    assert_eq!(r, (RequestType::Other, "partial.example:80".to_string()));
}

#[test]
fn request_without_host_fails() {
    let data = b"GET / HTTP/1.1\r\nAccept: */*\r\n\r\n";
    assert_eq!(parse_host_from_request(data, &None), Err(SniffError::NoHostHeader));
    assert_eq!(parse_host_from_request(b"GET / HTTP/1.1\r\n", &None), Err(SniffError::NoHostHeader));
}

#[test]
fn garbage_is_no_request() {
    let data = b"\x00\x01garbage\r\n\r\n";
    assert_eq!(parse_host_from_request(data, &None), Err(SniffError::MalformedRequest));
}

#[test]
fn http_head_from_parser_values() {
    let headers = vec![
        ("Accept".to_string(), b"*/*".to_vec()),
        ("Host".to_string(), b"first.example".to_vec()),
        ("Host".to_string(), b"second.example".to_vec()),
    ];
    let r = target_from_http_head(&Some("https://first.example/".to_string()), &headers);
    assert_eq!(r, Ok((RequestType::Other, "first.example:443".to_string())));
    let none: Vec<(String, Vec<u8>)> = Vec::new();
    assert_eq!(target_from_http_head(&None, &none), Err(SniffError::NoHostHeader));
}

#[test]
fn connect_line_splits_on_unicode_white_space() {
    let data = "CONNECT \u{a0}x HTTP/1.1\r\n".as_bytes();
    let r = parse_host_from_request(data, &None).unwrap();
    assert_eq!(r, (RequestType::Connect, "x".to_string()));
    let only_space = "CONNECT \u{3000}\u{2028}".as_bytes();
    assert_eq!(parse_host_from_request(only_space, &None), Err(SniffError::MissingTarget));
    let glued = "CONNECT\u{3000}host.example:443".as_bytes();
    assert_eq!(parse_host_from_request(glued, &None), Err(SniffError::MalformedRequest));
}
