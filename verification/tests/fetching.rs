//! The decisions of a client, protocol lists, sessions and texts.
use quic_oack::alpn::{encode_protos, select_proto};
use quic_oack::client::{
    bind_address, hq_request, hq_request_for, is_parsable, next_timeout, request_for,
    request_headers, request_path, server_name, server_name_for, Client, H3Action, H3Event,
    RequestPlan,
};
use quic_oack::session::store_session;
use quic_oack::text::{hdrs_to_strings, hex_dump, Header};
use quic_oack::time::Duration;

const NOTHING: RequestPlan =
    RequestPlan { leave: false, send_hq: false, open_h3: false, send_h3: false };

fn header(name: &str, value: &str) -> Header {
    Header { name: name.as_bytes().to_vec(), value: value.as_bytes().to_vec() }
}

#[test]
fn request_has_the_parts_of_the_url() {
    assert_eq!(
        request_for("HTTPS://Example.COM:4433/a/../b%20c?q=1&r#frag"),
        Some(vec![
            header(":method", "GET"),
            header(":scheme", "https"),
            header(":authority", "example.com"),
            header(":path", "/b%20c?q=1&r"),
            header("user-agent", "quiche"),
        ]),
    );
    let headers = request_for("https://[::1]").unwrap();
    assert_eq!(headers[2], header(":authority", "[::1]"));
    assert_eq!(headers[3], header(":path", "/"));
}

#[test]
fn labels_of_the_host_are_bounded() {
    let label = "\u{fdfa}".repeat(214);
    let plain = "a".repeat(5_000);
    for url in [
        format!("https://{label}/x"),
        format!("https:\\\\{label}.{label}?q"),
        format!("https://host/{label}a"),
        format!("https://host?{label}a"),
        format!("https://host#{label}a"),
        format!("https://{plain}\u{10081}@host"),
        format!("https://user:{label}a@b@host"),
        format!("https://host:{label}a"),
        format!("https://{plain}/"),
        format!("https://xn--{}/", "a".repeat(3_851)),
        format!("foo://{label}a/"),
        format!("{label}a"),
        String::new(),
        "https://".to_string(),
        "https".to_string(),
    ] {
        assert!(is_parsable(&url));
        request_for(&url);
    }
    assert_eq!(request_for(&format!("https://{label}/x")), None);
    let user = format!("https://{plain}\u{10081}@host/p");
    assert_eq!(request_for(&user).unwrap()[2], header(":authority", "host"));
    assert_eq!(request_for(&format!("https://{plain}/")).unwrap()[2], header(":authority", &plain));
    for url in [
        format!("https://{label}a/x"),
        format!("HTTP:{label}a"),
        format!("https://x.{label}a.x"),
        format!("ws://user@{label}a"),
        format!("wss://a[b:{label}"),
        format!("ftp://{}%/", "a".repeat(214)),
        format!("gopher://Xn--{}/", "a".repeat(3_852)),
        format!("https://\t{plain}\t{plain}"),
        format!("https://{}\u{10081}/x", "a".repeat(65_534)),
        format!("file://{label}a@host/x"),
        format!(" h\nttps:\n//\t{label}a"),
    ] {
        assert!(!is_parsable(&url));
    }
}

#[test]
fn request_needs_a_url_with_a_host() {
    assert_eq!(request_for("example.com"), None);
    assert_eq!(request_for(""), None);
    assert_eq!(request_for("mailto:someone@example.com"), None);
}

#[test]
fn request_from_given_parts() {
    assert_eq!(request_path("/p", None), "/p");
    assert_eq!(request_path("/p", Some("a=b")), "/p?a=b");
    assert_eq!(request_path("/p", Some("")), "/p?");
    assert_eq!(
        request_headers("https", "host", "/p"),
        vec![
            header(":method", "GET"),
            header(":scheme", "https"),
            header(":authority", "host"),
            header(":path", "/p"),
            header("user-agent", "quiche"),
        ],
    );
    assert_eq!(hq_request("/p"), "GET /p\r\n");
}

#[test]
fn simple_request_leaves_the_query_out() {
    assert_eq!(hq_request_for("https://host/x/./y?q").as_deref(), Some("GET /x/y\r\n"));
    assert_eq!(hq_request_for("no url"), None);
}

#[test]
fn server_is_named_by_its_domain() {
    assert_eq!(server_name_for("https://Example.com/x"), "example.com");
    assert_eq!(server_name_for("https://127.0.0.1/x"), "server4");
    assert_eq!(server_name_for("https://[::1]/x"), "server4");
    assert_eq!(server_name(Some("name".to_string())), "name");
    assert_eq!(server_name(None), "server4");
}

#[test]
fn any_address_of_the_family_is_bound() {
    assert_eq!(bind_address(true), "0.0.0.0:0");
    assert_eq!(bind_address(false), "[::]:0");
}

#[test]
fn first_timeout_counts() {
    let short = Some(Duration { nanos: 3 });
    let long = Some(Duration { nanos: 7 });
    assert_eq!(next_timeout(short, long), short);
    assert_eq!(next_timeout(long, short), short);
    assert_eq!(next_timeout(long, None), long);
    assert_eq!(next_timeout(None, short), short);
    assert_eq!(next_timeout(None, None), None);
}

#[test]
fn http3_request_is_sent_once() {
    let mut client = Client::new(false, true);
    assert_eq!(client.stream_id, 4);
    assert_eq!(client.next_request(false, false), NOTHING);
    assert_eq!(
        client.next_request(true, false),
        RequestPlan { open_h3: true, send_h3: true, ..NOTHING },
    );
    client.on_request_stream(0);
    assert_eq!(client.stream_id, 0);
    assert!(client.h3_open && client.req_sent);
    assert_eq!(client.next_request(true, false), NOTHING);
    assert_eq!(client.next_request(true, true), RequestPlan { leave: true, ..NOTHING });
}

#[test]
fn simple_request_is_sent_once() {
    let mut client = Client::new(true, false);
    client.on_request_stream(0);
    assert_eq!(client.next_request(false, false), NOTHING);
    assert_eq!(client.next_request(true, true), RequestPlan { leave: true, ..NOTHING });
    assert_eq!(client.next_request(true, false), RequestPlan { send_hq: true, ..NOTHING });
    assert_eq!(client.stream_id, 4);
    assert!(!client.h3_open);
    assert_eq!(client.next_request(true, false), NOTHING);
}

#[test]
fn events_of_http3_lead_to_actions() {
    let reading = Client::new(false, false);
    let acknowledging = Client::new(false, true);
    assert_eq!(reading.on_h3_event(H3Event::Data), H3Action::ReadBody);
    assert_eq!(acknowledging.on_h3_event(H3Event::Data), H3Action::Next);
    for client in [reading, acknowledging] {
        assert_eq!(client.on_h3_event(H3Event::Headers), H3Action::Next);
        assert_eq!(client.on_h3_event(H3Event::Finished), H3Action::Close);
        assert_eq!(client.on_h3_event(H3Event::Reset), H3Action::Close);
        assert_eq!(client.on_h3_event(H3Event::GoAway), H3Action::Next);
        assert_eq!(client.on_h3_event(H3Event::Done), H3Action::Stop);
        assert_eq!(client.on_h3_event(H3Event::Failed), H3Action::Stop);
    }
}

#[test]
fn limits_are_raised_once() {
    let mut client = Client::new(false, true);
    assert!(!client.raises_limits(false));
    assert!(client.raises_limits(true));
    assert!(!client.raises_limits(true));
    let mut client = Client::new(false, false);
    assert!(!client.raises_limits(true));
    assert!(!client.did_increase_max_data);
}

#[test]
fn strategy_is_activated_once_established() {
    let client = Client::new(false, true);
    assert!(client.activates_oack(true, false));
    assert!(!client.activates_oack(true, true));
    assert!(!client.activates_oack(false, false));
}

#[test]
fn protocols_are_preceded_by_their_lengths() {
    assert_eq!(encode_protos(&[]), b"".to_vec());
    assert_eq!(encode_protos(&[b"h3", b"", b"hq"]), b"\x02h3\x00\x02hq".to_vec());
    let long = [7u8; 258];
    let wire = encode_protos(&[&long]);
    assert_eq!(wire.len(), 259);
    assert_eq!(wire[0], 2);
}

#[test]
fn encoded_protocols_are_selected_again() {
    let supported = vec![b"a".to_vec(), b"h3".to_vec(), b"h3".to_vec()];
    assert_eq!(select_proto(&supported, &encode_protos(&[b"x", b"h3", b"a"])), Some(1));
    assert_eq!(select_proto(&supported, &encode_protos(&[b"x", b"a", b"h3"])), Some(0));
    assert_eq!(select_proto(&supported, &encode_protos(&[b"x", b"", b"h"])), None);
    assert_eq!(select_proto(&vec![], &encode_protos(&[b"a"])), None);
    assert_eq!(select_proto(&vec![b"".to_vec()], b"\0"), Some(0));
}

#[test]
fn stored_session_holds_both_parts() {
    assert_eq!(store_session(b"", b""), vec![0; 16]);
    let stored = store_session(&[9; 300], b"pp");
    assert_eq!(stored[..8], [0, 0, 0, 0, 0, 0, 1, 44]);
    assert_eq!(stored[8..308], [9; 300]);
    assert_eq!(stored[308..], *b"\0\0\0\0\0\0\0\x02pp");
}

#[test]
fn bytes_in_hexadecimal() {
    assert_eq!(hex_dump(&[]), "");
    assert_eq!(hex_dump(&[0, 9, 10, 0x7f, 0xa5, 255]), "00090a7fa5ff");
}

#[test]
fn headers_as_text() {
    let headers = vec![
        header(":status", "200"),
        header("x-ü", "é€😀"),
        Header { name: vec![b'a', 0xff, b'b'], value: vec![0xe2, 0x82] },
    ];
    let texts = hdrs_to_strings(&headers);
    assert_eq!(texts[0], (":status".to_string(), "200".to_string()));
    assert_eq!(texts[1], ("x-ü".to_string(), "é€😀".to_string()));
    assert_eq!(texts[2], ("a\u{fffd}b".to_string(), "\u{fffd}".to_string()));
    assert_eq!(texts.len(), 3);
}
