use exchanger::headers::{header, Headers};
use exchanger::route::{handle_request, upstream_failure, Request, Step, UpstreamFailure};
use exchanger::target::{parse_host_port, upstream_target};

const SUFFIX: &[u8] = b"hsse.sudti.cn";

fn headers_of(fields: &[(&[u8], &[u8])]) -> Headers {
    let mut h = Headers::new();
    for (name, value) in fields {
        h.push_field(name.to_vec(), value.to_vec());
    }
    h
}

#[test]
fn computed_upstream_is_service_dot_suffix_port_443() {
    let t = upstream_target(b"svc1", SUFFIX);
    assert_eq!(t.host, b"svc1.hsse.sudti.cn".to_vec());
    assert_eq!(t.port, 443);
}

#[test]
fn parse_accepts_host_port() {
    let hp = parse_host_port(b"example.com:8443").unwrap();
    assert_eq!(hp.host, b"example.com".to_vec());
    assert_eq!(hp.port, 8443);
}

#[test]
fn parse_takes_the_last_colon() {
    let hp = parse_host_port(b"a:b:443").unwrap();
    assert_eq!(hp.host, b"a:b".to_vec());
    assert_eq!(hp.port, 443);
}

#[test]
fn parse_accepts_largest_port() {
    let hp = parse_host_port(b"h:65535").unwrap();
    assert_eq!(hp.port, 65535);
}

#[test]
fn parse_rejects_bad_targets() {
    assert!(parse_host_port(b"nocolon").is_none());
    assert!(parse_host_port(b":443").is_none());
    assert!(parse_host_port(b"h:").is_none());
    assert!(parse_host_port(b"h:12a3").is_none());
    assert!(parse_host_port(b"h:65536").is_none());
    assert!(parse_host_port(b"h:123456").is_none());
    assert!(parse_host_port(b"").is_none());
}

#[test]
fn missing_routing_header_is_rejected_with_400_and_no_dial() {
    let req = Request {
        connect: false,
        authority: None,
        headers: headers_of(&[(b"accept", b"*/*")]),
    };
    match handle_request(req, SUFFIX) {
        Step::Respond(e) => {
            assert_eq!(e.status, 400);
            assert!(e.content_type_json);
            let v: serde_json::Value = serde_json::from_slice(&e.body).unwrap();
            assert_eq!(v["success"], serde_json::Value::Bool(false));
            assert_eq!(v["error"].as_str().unwrap(), "missing header(x-sc)");
        }
        _ => panic!("a request without the routing header must be answered directly"),
    }
}

#[test]
fn undecodable_routing_header_is_rejected_like_a_missing_one() {
    let req = Request {
        connect: false,
        authority: None,
        headers: headers_of(&[(b"x-sc", &[0xffu8, 0x01u8])]),
    };
    match handle_request(req, SUFFIX) {
        Step::Respond(e) => assert_eq!(e.status, 400),
        _ => panic!("an undecodable routing value must be answered directly"),
    }
}

#[test]
fn connect_with_bad_target_gets_400_and_no_dial() {
    let req = Request {
        connect: true,
        authority: Some("not-a-socket-address".to_string()),
        headers: headers_of(&[]),
    };
    match handle_request(req, SUFFIX) {
        Step::Respond(e) => {
            assert_eq!(e.status, 400);
            let text = String::from_utf8(e.body).unwrap();
            assert!(text.contains("CONNECT must be to a socket address: not-a-socket-address"));
        }
        _ => panic!("a CONNECT without host:port must be answered directly"),
    }
}

#[test]
fn connect_with_valid_target_opens_a_tunnel_after_the_success_response() {
    let req = Request {
        connect: true,
        authority: Some("example.com:443".to_string()),
        headers: headers_of(&[]),
    };
    match handle_request(req, SUFFIX) {
        Step::OpenTunnel { target, reply } => {
            assert_eq!(target.host, b"example.com".to_vec());
            assert_eq!(target.port, 443);
            assert_eq!(reply.status, 200);
            assert!(reply.body.is_empty());
        }
        _ => panic!("a CONNECT with a valid target must open a tunnel"),
    }
}

#[test]
fn forward_dials_the_header_selected_upstream_with_rewritten_headers() {
    let req = Request {
        connect: false,
        authority: None,
        headers: headers_of(&[
            (b"Accept", b"*/*"),
            (b"X-SC", b"billing"),
            (b"Host", b"old.example"),
            (b"x-trace", b"1"),
        ]),
    };
    match handle_request(req, SUFFIX) {
        Step::DialUpstream { target, headers } => {
            assert_eq!(target.host, b"billing.hsse.sudti.cn".to_vec());
            assert_eq!(target.port, 443);
            let names: Vec<Vec<u8>> =
                headers.fields.iter().map(|f| f.name.clone()).collect();
            assert_eq!(
                names,
                vec![b"Accept".to_vec(), b"x-trace".to_vec(), b"host".to_vec()]
            );
            assert_eq!(
                headers.fields.last().unwrap().value,
                b"billing.hsse.sudti.cn".to_vec()
            );
            assert!(headers.get(b"x-sc").is_none());
            assert_eq!(
                headers.get(b"HOST").unwrap(),
                &b"billing.hsse.sudti.cn".to_vec()
            );
        }
        _ => panic!("a forward request with the routing header must dial"),
    }
}

#[test]
fn routing_header_lookup_is_case_insensitive_and_takes_the_first() {
    let h = headers_of(&[(b"X-Sc", b"first"), (b"x-sc", b"second")]);
    assert_eq!(h.get(b"x-sc").unwrap(), &b"first".to_vec());
    assert!(h.get(b"nothere").is_none());
}

#[test]
fn rewrite_strips_routing_and_pins_host() {
    let mut h = headers_of(&[(b"x-sc", b"svc"), (b"A", b"1"), (b"host", b"old")]);
    header(&mut h, &b"svc.hsse.sudti.cn".to_vec());
    assert!(h.get(b"x-sc").is_none());
    assert_eq!(h.get(b"host").unwrap(), &b"svc.hsse.sudti.cn".to_vec());
    assert_eq!(h.fields.len(), 2);
    assert_eq!(h.fields[0].name, b"A".to_vec());
}

#[test]
fn failed_dial_yields_500_with_a_stage_labeled_body() {
    // The end-to-end failure path: the router decides to dial
    // billing.hsse.sudti.cn:443, the dial fails, and the client sees a 500
    // whose body names the failed stage.
    let req = Request {
        connect: false,
        authority: None,
        headers: headers_of(&[(b"x-sc", b"billing")]),
    };
    let target = match handle_request(req, SUFFIX) {
        Step::DialUpstream { target, .. } => target,
        _ => panic!("the request must reach the dial stage"),
    };
    assert_eq!(target.host, b"billing.hsse.sudti.cn".to_vec());
    let e = upstream_failure(UpstreamFailure::Connect, "connection refused");
    assert_eq!(e.status, 500);
    let v: serde_json::Value = serde_json::from_slice(&e.body).unwrap();
    assert_eq!(v["error"].as_str().unwrap(), "access failed: connection refused");
}

#[test]
fn each_failure_stage_keeps_its_own_label() {
    let sni = upstream_failure(UpstreamFailure::UnknownHost, "bad name");
    let tls = upstream_failure(UpstreamFailure::TlsHandshake, "alert");
    assert_eq!(sni.status, 500);
    assert_eq!(tls.status, 500);
    let v: serde_json::Value = serde_json::from_slice(&sni.body).unwrap();
    assert_eq!(v["error"].as_str().unwrap(), "unknown host: bad name");
    let v: serde_json::Value = serde_json::from_slice(&tls.body).unwrap();
    assert_eq!(v["error"].as_str().unwrap(), "TLS handshake failed: alert");
}
