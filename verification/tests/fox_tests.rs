use theshy::{Line, LineType};

fn connected_fox(request: Vec<u8>) -> Line {
    let mut l = Line::new(1, LineType::Fox, 0);
    assert_eq!(l.fox_data(vec![5, 1, 0]), None);
    assert_eq!(l.stage(), 1);
    assert_eq!(l.queue(), &vec![5, 0]);
    assert_eq!(l.fox_data(request), None);
    assert_eq!(l.stage(), 2);
    l
}

#[test]
fn socks5_ipv4_request() {
    let l = connected_fox(vec![5, 1, 0, 1, 1, 2, 3, 4, 0, 80]);
    assert_eq!(l.host(), "1.2.3.4:80");
    assert_eq!(l.queue(), &vec![5, 0, 5, 0, 0, 1, 0, 0, 0, 0, 0, 0]);
}

#[test]
fn socks5_domain_request() {
    let mut req = vec![5, 1, 0, 3, 11];
    req.extend_from_slice(b"example.com");
    req.extend_from_slice(&[1, 187]);
    let l = connected_fox(req);
    assert_eq!(l.host(), "example.com:443");
}

#[test]
fn socks5_domain_with_invalid_utf8_is_replaced() {
    let l = connected_fox(vec![5, 1, 0, 3, 3, 0xff, b'a', b'b', 0, 1]);
    assert_eq!(l.host(), "\u{FFFD}ab:1");
}

#[test]
fn socks5_ipv6_and_unknown_types() {
    let l = connected_fox(vec![5, 1, 0, 4, 0, 0, 0, 0, 0x1f, 0x90]);
    assert_eq!(l.host(), "unexpected:4");
    let l = connected_fox(vec![5, 1, 0, 2, 0, 0, 0x01, 0x00]);
    assert_eq!(l.host(), "ipv6:256");
    let l = connected_fox(vec![5, 1, 0, 1, 255, 0, 10, 99, 0xff, 0xff]);
    assert_eq!(l.host(), "255.0.10.99:65535");
}

#[test]
fn third_payload_is_shuffled_frame() {
    let mut l = connected_fox(vec![5, 1, 0, 1, 1, 2, 3, 4, 0, 80]);
    let out = l.fox_data(vec![9]).unwrap();
    // frame: [10] "1.2.3.4:80" [0,0,0,0,0,0,0,1] [9]
    let mut frame = vec![10u8];
    frame.extend_from_slice(b"1.2.3.4:80");
    frame.extend_from_slice(&[0, 0, 0, 0, 0, 0, 0, 1, 9]);
    let mut expected: Vec<u8> = frame.iter().step_by(2).cloned().collect();
    expected.extend(frame.iter().skip(1).step_by(2).cloned());
    assert_eq!(out, expected);
    assert_ne!(out, frame);
    assert_eq!(l.stage(), 3);
    assert_eq!(l.fox_data(vec![7, 7]), Some(vec![7, 7]));
    assert_eq!(l.stage(), 3);
}

#[test]
fn small_frame_shuffle_exact() {
    let mut l = connected_fox(vec![5, 1, 0, 2, 0, 0, 0, 5]);
    assert_eq!(l.host(), "ipv6:5");
    let out = l.fox_data(vec![]).unwrap();
    // frame: [6] "ipv6:5" [0,0,0,0,0,0,0,1] -> 15 bytes
    assert_eq!(
        out,
        vec![6, b'p', b'6', b'5', 0, 0, 0, 1, b'i', b'v', b':', 0, 0, 0, 0]
    );
}

#[test]
fn operator_opens_what_fox_sent() {
    let mut fox = connected_fox(vec![5, 1, 0, 1, 10, 0, 0, 1, 1, 0]);
    let wire = fox.fox_data(vec![22, 3, 1, 0, 5]).unwrap();
    let mut op = Line::new(42, LineType::Operator, 0);
    let payload = op.decrypt_sni(&wire);
    assert_eq!(payload, Some(vec![22, 3, 1, 0, 5]));
    assert_eq!(op.host(), "10.0.0.1:256");
}

#[test]
fn operator_reads_frame_by_hand() {
    // clear frame [2] "ab" [0..0,5] [1,2]; shuffled: even then odd positions
    let frame = vec![2u8, b'a', b'b', 0, 0, 0, 0, 0, 0, 0, 5, 1, 2];
    let mut wire: Vec<u8> = frame.iter().step_by(2).cloned().collect();
    wire.extend(frame.iter().skip(1).step_by(2).cloned());
    let mut op = Line::new(1, LineType::Operator, 0);
    assert_eq!(op.decrypt_sni(&wire), Some(vec![1, 2]));
    assert_eq!(op.host(), "ab");
}

#[test]
fn operator_reads_sender_id() {
    let mut fox = connected_fox(vec![5, 1, 0, 1, 10, 0, 0, 1, 1, 0]);
    let wire = fox.fox_data(vec![1]).unwrap();
    assert_eq!(theshy::operator::sni_tag(&wire), 1);
    let frame = vec![1u8, b'a', 0, 0, 0, 0, 0, 0, 0x12, 0x34];
    let mut wire: Vec<u8> = frame.iter().step_by(2).cloned().collect();
    wire.extend(frame.iter().skip(1).step_by(2).cloned());
    assert_eq!(theshy::operator::sni_tag(&wire), 0x1234);
}
