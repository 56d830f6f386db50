use distributed_nodes::crypto::{build_heartbeat_payload, build_welcome_payload, be_bytes_of};
use distributed_nodes::protocol::{PeerAddr, PeerInfoMessage};
use distributed_nodes::wire::{frame_line, is_white_space_char, line_body, trim_line};

fn addr(port: u16) -> PeerAddr {
    PeerAddr::V4 { octets: [127, 0, 0, 1], port }
}

#[test]
fn trim_line_removes_surrounding_white_space() {
    assert_eq!(trim_line("  {\"a\": 1}\r\n"), "{\"a\": 1}");
    assert_eq!(trim_line("\t\u{a0}x y\u{3000}\n"), "x y");
    assert_eq!(trim_line("   \n"), "");
    assert_eq!(trim_line(""), "");
    assert_eq!(trim_line("abc"), "abc");
}

#[test]
fn trim_line_agrees_with_str_trim() {
    let samples = [
        " a ", "\u{85}b\u{2028}", "\u{1680}\u{2000}\u{200a}c\u{202f}\u{205f}", "\u{b}\u{c}d\u{2029}",
        "e\u{200b}", "\u{feff}f",
    ];
    for s in samples.iter() {
        assert_eq!(trim_line(s), s.trim());
    }
}

#[test]
fn white_space_matches_char_is_whitespace() {
    for u in 0u32..0x3100 {
        if let Some(c) = char::from_u32(u) {
            assert_eq!(is_white_space_char(c), c.is_whitespace(), "char {:x}", u);
        }
    }
}

#[test]
fn frame_line_appends_a_newline() {
    assert_eq!(frame_line("{\"x\":1}"), "{\"x\":1}\n");
    assert_eq!(frame_line(""), "\n");
}

#[test]
fn framed_message_reads_back_unchanged() {
    let body = "{\"NodeToServer\":{\"Disconnect\":{\"reason\":\"bye\",\"signature\":null}}}";
    let line = frame_line(body);
    assert_eq!(line_body(line.len(), &line), Some(body));
}

#[test]
fn no_bytes_read_means_closed() {
    assert_eq!(line_body(0, ""), None);
    assert_eq!(line_body(0, "ignored"), None);
    assert_eq!(line_body(3, " \n"), Some(""));
}

#[test]
fn big_endian_bytes() {
    assert_eq!(be_bytes_of(0x0102030405060708), vec![1, 2, 3, 4, 5, 6, 7, 8]);
    assert_eq!(be_bytes_of(0), vec![0; 8]);
    assert_eq!(be_bytes_of(u64::MAX), vec![0xff; 8]);
    assert_eq!(be_bytes_of(1700000000).as_slice(), &1700000000u64.to_be_bytes()[..]);
}

#[test]
fn heartbeat_payload_is_id_then_timestamp() {
    let p = build_heartbeat_payload("w1", 258);
    assert_eq!(p, vec![b'w', b'1', 0, 0, 0, 0, 0, 0, 1, 2]);
    let p = build_heartbeat_payload("é", 0);
    assert_eq!(p, vec![0xc3, 0xa9, 0, 0, 0, 0, 0, 0, 0, 0]);
}

#[test]
fn welcome_payload_is_id_then_peer_ids_and_keys() {
    let peers = vec![
        PeerInfoMessage { node_id: "a".to_string(), addr: addr(1), pub_key: vec![9, 8], signature: vec![7] },
        PeerInfoMessage { node_id: "bc".to_string(), addr: addr(2), pub_key: vec![6], signature: vec![] },
    ];
    let p = build_welcome_payload("new", &peers);
    assert_eq!(p, vec![b'n', b'e', b'w', b'a', 9, 8, b'b', b'c', 6]);
    assert_eq!(build_welcome_payload("x", &vec![]), vec![b'x']);
}
