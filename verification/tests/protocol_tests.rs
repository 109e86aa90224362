use nonogram_fetcher::protocol::{
    first_packet, keeps_listening, message_from_content, message_from_packet, message_header,
    read_le_u32, stream_frame_len, Message, PacketStep, MSG_FETCH_REQUEST, MSG_UNKNOWN,
};
use nonogram_fetcher::protocol::{check_socket_path, stream_prefix, SocketPathError};

#[test]
fn header_layout() {
    assert_eq!(message_header(3, "hello"), vec![3, 0, 0, 0, 5, 0, 0, 0]);
    assert_eq!(message_header(0x01020304, ""), vec![4, 3, 2, 1, 0, 0, 0, 0]);
    // the length is counted in bytes of UTF-8
    assert_eq!(message_header(1, "ñ"), vec![1, 0, 0, 0, 2, 0, 0, 0]);
}

#[test]
fn header_read_back() {
    let h = message_header(2, &"x".repeat(300));
    match first_packet(&h) {
        PacketStep::ReadContent { msg_type, max_len } => {
            assert_eq!(msg_type, 2);
            assert_eq!(max_len, 300);
        }
        _ => panic!("expected a header"),
    }
}

#[test]
fn first_packet_cases() {
    match first_packet(&[7, 0, 0, 0, 0, 0, 0, 0]) {
        PacketStep::Complete(m) => {
            assert_eq!(m.msg_type, 7);
            assert_eq!(m.contents, "");
        }
        _ => panic!("expected a complete message"),
    }
    match first_packet(&[0, 0, 0, 0, 0, 0, 2, 0]) {
        PacketStep::ReadContent { msg_type, max_len } => {
            assert_eq!(msg_type, 0);
            assert_eq!(max_len, 65536);
        }
        _ => panic!("expected a content read"),
    }
    assert!(matches!(first_packet(b"{}"), PacketStep::Whole));
    assert!(matches!(first_packet(&[1, 2, 3, 4, 5, 6, 7, 8, 9]), PacketStep::Whole));
}

#[test]
fn content_is_trimmed() {
    let m = message_from_content(0, b"  {\"type_bw\":true}\n");
    assert_eq!(m.msg_type, 0);
    assert_eq!(m.contents, "{\"type_bw\":true}");
}

#[test]
fn content_is_decoded_leniently() {
    let m = message_from_content(1, &[b'a', 0xff, b'b']);
    assert_eq!(m.contents, "a\u{fffd}b");
}

#[test]
fn whole_packet_json_wins() {
    let json = Message { msg_type: 5, contents: "x".to_string() };
    let m = message_from_packet(b"anything", Some(json));
    assert_eq!(m.msg_type, 5);
    assert_eq!(m.contents, "x");
}

#[test]
fn whole_packet_raw_text() {
    let m = message_from_packet(b" {type_bw: true} ", None);
    assert_eq!(m.msg_type, MSG_FETCH_REQUEST);
    assert_eq!(m.contents, "{type_bw: true}");
    let m = message_from_packet(b"hello", None);
    assert_eq!(m.msg_type, MSG_UNKNOWN);
    assert_eq!(m.contents, "hello");
}

#[test]
fn stream_length_prefix() {
    assert_eq!(stream_frame_len(&[10, 0, 0, 0]), 10);
    assert_eq!(stream_frame_len(&[0, 1, 0, 0]), 256);
    assert_eq!(stream_frame_len(&[255, 255, 255, 255]), 4294967295);
    assert_eq!(read_le_u32(&[9, 1, 2, 3, 4, 9], 1), 0x04030201);
}

#[test]
fn read_errors_that_keep_the_loop_going() {
    assert!(keeps_listening("timeout"));
    assert!(keeps_listening("expected value at line 1 column 1"));
    assert!(keeps_listening("invalid type: string, expected u32"));
    assert!(keeps_listening("trailing characters at line 1"));
    assert!(!keeps_listening("timeout!"));
    assert!(!keeps_listening("recv returned 0: connection reset"));
    assert!(!keeps_listening(""));
}

#[test]
fn header_then_content_packet() {
    match first_packet(&[43, 0, 0, 0, 3, 0, 0, 0]) {
        PacketStep::ReadContent { msg_type, max_len } => {
            assert_eq!((msg_type, max_len), (43, 3));
            let m = message_from_content(msg_type, b"hi\n");
            assert_eq!((m.msg_type, m.contents.as_str()), (43, "hi"));
        }
        _ => panic!("expected a header"),
    }
    let mut body = vec![b'a'; 119];
    body.extend_from_slice("\u{e9}".as_bytes());
    assert_eq!(body.len(), 121);
    match first_packet(&[0, 0, 0, 0, 121, 0, 0, 0]) {
        PacketStep::ReadContent { msg_type, max_len } => {
            assert_eq!(max_len, 121);
            let m = message_from_content(msg_type, &body);
            assert_eq!(m.contents, "a".repeat(119) + "\u{e9}");
        }
        _ => panic!("expected a header"),
    }
}

#[test]
fn sent_message_reads_back_trimmed() {
    for (t, s) in [(1u32, "SAVED:/x.pdf"), (3, "  progress \n"), (2, "\u{f1}and\u{fa}")] {
        let h = message_header(t, s);
        match first_packet(&h) {
            PacketStep::ReadContent { msg_type, max_len } => {
                assert_eq!(max_len, s.len());
                let m = message_from_content(msg_type, s.as_bytes());
                assert_eq!(m.msg_type, t);
                assert_eq!(m.contents, s.trim());
            }
            _ => panic!("expected a header"),
        }
    }
}

#[test]
fn stream_prefix_reads_back() {
    assert_eq!(stream_prefix(10), vec![10, 0, 0, 0]);
    assert_eq!(stream_frame_len(&stream_prefix(70000)), 70000);
}

#[test]
fn socket_paths() {
    assert_eq!(check_socket_path("/run/appload.sock"), Ok(()));
    assert_eq!(check_socket_path("a\0b"), Err(SocketPathError::NulByte));
    assert_eq!(check_socket_path(&"x".repeat(107)), Ok(()));
    assert_eq!(check_socket_path(&"x".repeat(108)), Err(SocketPathError::TooLong));
}
