use co2_monitor::http::{
    build_post_request, get_server_ip_address_and_port, parse_ipv4_address, parse_port_number,
    push_ipv4_text, reading_body, ServerEndpoint,
};

#[test]
fn endpoint_from_configured_text() {
    let e = get_server_ip_address_and_port(b"192.168.4.1", b"8080");
    assert_eq!(e, ServerEndpoint { ip: [192, 168, 4, 1], port: 8080 });
    let e = get_server_ip_address_and_port(b"010.0.0.+9", b"+80");
    assert_eq!(e, ServerEndpoint { ip: [10, 0, 0, 9], port: 80 });
}

#[test]
fn address_text_accepted_and_rejected() {
    assert_eq!(parse_ipv4_address(b"192.168.4.1"), Some([192, 168, 4, 1]));
    assert_eq!(parse_ipv4_address(b"0.0.0.0"), Some([0, 0, 0, 0]));
    assert_eq!(parse_ipv4_address(b"192.168.4"), None);
    assert_eq!(parse_ipv4_address(b"1.2.3.4.5"), None);
    assert_eq!(parse_ipv4_address(b"1.2.3.256"), None);
    assert_eq!(parse_ipv4_address(b"1..3.4"), None);
    assert_eq!(parse_ipv4_address(b""), None);
    assert_eq!(parse_ipv4_address(b"1.2.3.-4"), None);
}

#[test]
fn port_text_accepted_and_rejected() {
    assert_eq!(parse_port_number(b"8080"), Some(8080));
    assert_eq!(parse_port_number(b"65535"), Some(65535));
    assert_eq!(parse_port_number(b"65536"), None);
    assert_eq!(parse_port_number(b""), None);
    assert_eq!(parse_port_number(b"8o"), None);
}

#[test]
fn host_text_reads_back_as_the_endpoint() {
    let endpoints = [
        ServerEndpoint { ip: [0, 0, 0, 0], port: 0 },
        ServerEndpoint { ip: [255, 255, 255, 255], port: 65535 },
        ServerEndpoint { ip: [10, 42, 0, 1], port: 3000 },
    ];
    for e in endpoints {
        let mut ip_text = Vec::new();
        push_ipv4_text(&mut ip_text, &e.ip);
        let port_text = e.port.to_string();
        assert_eq!(get_server_ip_address_and_port(&ip_text, port_text.as_bytes()), e);
    }
}

#[test]
fn post_request_bytes() {
    let e = ServerEndpoint { ip: [10, 42, 0, 1], port: 3000 };
    let req = build_post_request(&e, b"{}");
    let expected = "POST /api/data HTTP/1.1\r\nHost:10.42.0.1:3000\r\nConnection: close\r\nContent-Type: application/json\r\nContent-Length: 2\r\n\r\n{}\n    \r\n";
    assert_eq!(req, expected.as_bytes().to_vec());
}

#[test]
fn post_request_content_length_is_body_length() {
    let e = ServerEndpoint { ip: [1, 2, 3, 4], port: 80 };
    let body = reading_body("Küche".as_bytes(), 400, 12);
    let req = build_post_request(&e, &body);
    let text = String::from_utf8(req).unwrap();
    let header = format!("Content-Length: {}\r\n\r\n", body.len());
    assert!(text.contains(&header));
    assert!(text.ends_with(&format!("{}\n    \r\n", String::from_utf8(body).unwrap())));
}

#[test]
fn reading_body_bytes() {
    let body = reading_body(b"kitchen", 400, 12);
    let expected = "{\r\n\"room\": \"kitchen\",\r\n\"eco2\": 400,\r\n\"tvoc\": 12\r\n}";
    assert_eq!(body, expected.as_bytes().to_vec());
}

#[test]
fn reading_body_of_extreme_values() {
    let body = reading_body(b"", 0, 65535);
    let expected = "{\r\n\"room\": \"\",\r\n\"eco2\": 0,\r\n\"tvoc\": 65535\r\n}";
    assert_eq!(body, expected.as_bytes().to_vec());
}

#[test]
fn post_request_matches_the_format_of_the_request() {
    let e = ServerEndpoint { ip: [192, 168, 4, 1], port: 8080 };
    let body = "{\"room\": \"hall\"}";
    let server_ip = "192.168.4.1";
    let server_port: u16 = 8080;
    let expected = format!(
        "\
    POST /api/data HTTP/1.1\r\n\
    Host:{}:{}\r\n\
    Connection: close\r\n\
    Content-Type: application/json\r\n\
    Content-Length: {}\r\n\r\n\
    {}
    \r\n",
        server_ip,
        server_port,
        body.len(),
        body
    );
    assert_eq!(build_post_request(&e, body.as_bytes()), expected.into_bytes());
}

#[test]
fn reading_body_matches_the_format_of_the_body() {
    let room = "office";
    let eco2: u16 = 1234;
    let tvoc: u16 = 56;
    let expected = format!("{{\r\n\
            \"room\": \"{room}\",\r\n\
            \"eco2\": {eco2},\r\n\
            \"tvoc\": {tvoc}\r\n\
        }}");
    assert_eq!(reading_body(room.as_bytes(), eco2, tvoc), expected.into_bytes());
}
