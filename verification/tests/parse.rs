use sysproxy::parse::{parse_proxy_address, parse_server};

#[test]
fn parse_single_host_port() {
    let (host, port) = parse_server("127.0.0.1:7890");
    assert_eq!(host, "127.0.0.1");
    assert_eq!(port, 7890);
}

#[test]
fn parse_multi_prefers_http_segment() {
    let (host, port) = parse_server("http=127.0.0.1:7890;https=127.0.0.1:7891");
    assert_eq!(host, "127.0.0.1");
    assert_eq!(port, 7890);
}

#[test]
fn parse_no_http_uses_first_segment() {
    let (host, port) = parse_server("socks=127.0.0.1:1080");
    assert_eq!(host, "127.0.0.1");
    assert_eq!(port, 1080);
}

#[test]
fn parse_bare_hostname_defaults_to_port_80() {
    let (host, port) = parse_server("example.com");
    assert_eq!(host, "example.com");
    assert_eq!(port, 80);
}

#[test]
fn parse_garbage_still_returns_a_pair() {
    let (host, port) = parse_server("not a valid::: string");
    assert_eq!(host, "not a valid::: string");
    assert_eq!(port, 80);
}

#[test]
fn parse_path_takes_host_from_url() {
    let (host, port) = parse_server("example.com/path");
    assert_eq!(host, "example.com");
    assert_eq!(port, 80);
}

#[test]
fn parse_key_match_is_trimmed_and_case_insensitive() {
    let (host, port) = parse_server(" HTTP=1.2.3.4:9;socks=5.6.7.8:10");
    assert_eq!(host, "1.2.3.4");
    assert_eq!(port, 9);
}

#[test]
fn parse_port_accepts_leading_plus() {
    let (host, port) = parse_proxy_address("host:+443");
    assert_eq!(host, "host");
    assert_eq!(port, 443);
}

#[test]
fn parse_port_out_of_range_degrades() {
    let (host, port) = parse_server("host:99999");
    assert_eq!(host, "host:99999");
    assert_eq!(port, 80);
}

#[test]
fn parse_empty_string_degrades() {
    let (host, port) = parse_server("");
    assert_eq!(host, "");
    assert_eq!(port, 80);
}

#[test]
fn parse_value_stops_at_second_equals() {
    let (host, port) = parse_server("key=val=extra");
    assert_eq!(host, "val");
    assert_eq!(port, 80);
}

#[test]
fn parse_last_colon_splits() {
    let (host, port) = parse_proxy_address("a:b:8080");
    assert_eq!(host, "a:b");
    assert_eq!(port, 8080);
}
