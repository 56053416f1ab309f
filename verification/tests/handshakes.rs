use failsafe::bytes::u32_to_be_bytes;
use failsafe::handshake::{
    assemble_port_init, build_desktop_init, build_input_init, build_lan_init, build_port_init,
    build_screen_list_init, build_screen_stream_init, build_shell_init, classify_stream_header,
    is_desktop_handshake, is_input_handshake, is_lan_handshake, is_port_handshake,
    is_screen_list_handshake, is_screen_stream_handshake, is_shell_handshake, parse_desktop_init,
    parse_port_init, parse_screen_stream_init, parse_shell_init, parse_shell_size, PortProtocol,
    StreamKind,
};

#[test]
fn desktop_init_roundtrip() {
    let init = build_desktop_init(false, 2);
    assert!(is_desktop_handshake(&init));
    assert_eq!(parse_desktop_init(&init), Some((false, 2)));
}

#[test]
fn input_handshake_is_distinct() {
    let init = build_input_init();
    assert!(is_input_handshake(&init));
    assert!(!is_desktop_handshake(&init));
}

#[test]
fn lan_handshake_is_recognized() {
    let init = build_lan_init();
    assert!(is_lan_handshake(&init));
}

#[test]
fn port_init_roundtrip() {
    let init = build_port_init(3000, PortProtocol::Tcp);
    assert!(is_port_handshake(&init));
    assert_eq!(parse_port_init(&init), Some((3000, PortProtocol::Tcp)));
}

#[test]
fn feature_length_prefix_is_not_port_handshake() {
    let frame = [0, 0, 0, 5];
    assert!(!is_port_handshake(&frame));
}

#[test]
fn screen_list_init_is_recognized() {
    let init = build_screen_list_init();
    assert!(is_screen_list_handshake(&init));
    assert!(!is_screen_stream_handshake(&init));
}

#[test]
fn screen_stream_init_roundtrip() {
    let init = build_screen_stream_init(2);
    assert!(is_screen_stream_handshake(&init));
    assert_eq!(parse_screen_stream_init(&init), Some(2));
}

#[test]
fn feature_length_prefix_is_not_screen_handshake() {
    let frame = [0, 0, 0, 5];
    assert!(!is_screen_list_handshake(&frame));
    assert!(!is_screen_stream_handshake(&frame));
}

#[test]
fn shell_init_roundtrip() {
    let init = build_shell_init(24, 80);
    assert!(is_shell_handshake(&init));
    assert_eq!(parse_shell_init(&init), Some((24, 80)));
}

#[test]
fn feature_length_prefix_is_not_shell_handshake() {
    let frame = [0, 0, 0, 5];
    assert!(!is_shell_handshake(&frame));
}

#[test]
fn desktop_init_keeps_view_only_and_display() {
    let init = build_desktop_init(true, 7);
    assert_eq!(parse_desktop_init(&init), Some((true, 7)));
    assert!(!is_shell_handshake(&init));
}

#[test]
fn short_inits_do_not_parse() {
    assert_eq!(parse_shell_init(&[0, 0, 0]), None);
    assert_eq!(parse_port_init(&[0, 0, 0, 5]), None);
    assert_eq!(parse_screen_stream_init(&[0, 0, 0, 5]), None);
    assert_eq!(parse_desktop_init(&[0, 0, 0, 5]), None);
}

#[test]
fn shell_init_is_big_endian() {
    let init = build_shell_init(0x0102, 0x0304);
    assert_eq!(&init[4..], &[1, 2, 3, 4]);
    let mut size = [0u8; 4];
    size.copy_from_slice(&init[4..]);
    assert_eq!(parse_shell_size(size), (0x0102, 0x0304));
}

#[test]
fn stream_headers_are_classified() {
    let port = build_port_init(8080, PortProtocol::Tcp);
    let mut head = [0u8; 4];
    head.copy_from_slice(&port[..4]);
    assert!(matches!(classify_stream_header(head), StreamKind::Port));
    let mut tail = [0u8; 3];
    tail.copy_from_slice(&port[4..]);
    assert_eq!(assemble_port_init(head, tail), Some((8080, PortProtocol::Tcp)));

    assert!(matches!(classify_stream_header(build_lan_init()), StreamKind::Lan));

    let shell = build_shell_init(24, 80);
    let mut head = [0u8; 4];
    head.copy_from_slice(&shell[..4]);
    assert!(matches!(classify_stream_header(head), StreamKind::Shell));

    assert!(matches!(classify_stream_header(u32_to_be_bytes(5)), StreamKind::Feature));
}
