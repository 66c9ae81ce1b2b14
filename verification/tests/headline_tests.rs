use socks_relay::headline::parse_http_headline;

#[test]
fn splits_method_path_and_version() {
    let line = String::from("GET /index.html HTTP/1.1\r\n");
    let (method, path, version) = parse_http_headline(&line);
    assert_eq!(method, "GET");
    assert_eq!(path, "/index.html");
    assert_eq!(version, "HTTP/1.1");
}

#[test]
fn version_keeps_inner_spaces_and_loses_outer_ones() {
    let line = String::from("POST /submit HTTP/1.0 extra \n");
    let (method, path, version) = parse_http_headline(&line);
    assert_eq!(method, "POST");
    assert_eq!(path, "/submit");
    assert_eq!(version, "HTTP/1.0 extra");
}

#[test]
fn empty_fields_between_adjacent_spaces() {
    let line = String::from("GET  HTTP/1.1");
    let (method, path, version) = parse_http_headline(&line);
    assert_eq!(method, "GET");
    assert_eq!(path, "");
    assert_eq!(version, "HTTP/1.1");
}
