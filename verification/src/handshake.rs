//! Stream handshakes: the four-byte tags with which a peer opens a stream of
//! one kind or another, and the fixed-size init records that follow them.

use vstd::prelude::*;

use crate::bytes::{
    lemma_u16_be_roundtrip, lemma_u32_be_roundtrip, lemma_u32_be_small_first_byte,
    u16_be, u16_from_be, u16_from_be_bytes, u16_to_be_bytes, u32_be, u32_from_be,
    u32_from_be_bytes, u32_to_be_bytes,
};

verus! {

/// Opens a remote-desktop view/control stream ("FDT1").
pub const DESKTOP_HANDSHAKE: [u8; 4] = [0x46, 0x44, 0x54, 0x31];

/// Length of a desktop init record: tag, view-only flag, display index.
pub const DESKTOP_INIT_LEN: usize = 9;

/// Opens a remote-input stream ("FDI1").
pub const INPUT_HANDSHAKE: [u8; 4] = [0x46, 0x44, 0x49, 0x31];

/// Opens a virtual-LAN packet stream ("FSL1").
pub const LAN_HANDSHAKE: [u8; 4] = [0x46, 0x53, 0x4c, 0x31];

/// Largest packet carried on a virtual-LAN stream.
pub const MAX_LAN_PACKET_SIZE: usize = 65535;

/// Opens a port-forwarding stream ("FSP1").
pub const PORT_HANDSHAKE: [u8; 4] = [0x46, 0x53, 0x50, 0x31];

/// Length of a port init record: tag, remote port, protocol byte.
pub const PORT_INIT_LEN: usize = 7;

/// The protocol byte that stands for TCP.
pub const PORT_PROTOCOL_TCP: u8 = 0;

/// Opens a screen-list stream; the tag is the same as the virtual-LAN one ("FSL1").
pub const SCREEN_LIST_HANDSHAKE: [u8; 4] = [0x46, 0x53, 0x4c, 0x31];

/// Opens a screen-stream stream ("FSS1").
pub const SCREEN_STREAM_HANDSHAKE: [u8; 4] = [0x46, 0x53, 0x53, 0x31];

/// Length of a screen-list init record: the tag alone.
pub const SCREEN_LIST_INIT_LEN: usize = 4;

/// Length of a screen-stream init record: tag and screen id.
pub const SCREEN_STREAM_INIT_LEN: usize = 8;

/// Opens a remote-shell stream ("FSH1").
pub const SHELL_HANDSHAKE: [u8; 4] = [0x46, 0x53, 0x48, 0x31];

/// Length of a shell init record: tag, rows, columns.
pub const SHELL_INIT_LEN: usize = 8;

/// Transport protocol of a forwarded port.
#[derive(Debug, Clone, Copy, PartialEq, Eq, Structural)]
pub enum PortProtocol {
    Tcp,
}

pub open spec fn desktop_tag() -> Seq<u8> {
    seq![0x46u8, 0x44u8, 0x54u8, 0x31u8]
}

pub open spec fn input_tag() -> Seq<u8> {
    seq![0x46u8, 0x44u8, 0x49u8, 0x31u8]
}

pub open spec fn lan_tag() -> Seq<u8> {
    seq![0x46u8, 0x53u8, 0x4cu8, 0x31u8]
}

pub open spec fn port_tag() -> Seq<u8> {
    seq![0x46u8, 0x53u8, 0x50u8, 0x31u8]
}

pub open spec fn screen_list_tag() -> Seq<u8> {
    seq![0x46u8, 0x53u8, 0x4cu8, 0x31u8]
}

pub open spec fn screen_stream_tag() -> Seq<u8> {
    seq![0x46u8, 0x53u8, 0x53u8, 0x31u8]
}

pub open spec fn shell_tag() -> Seq<u8> {
    seq![0x46u8, 0x53u8, 0x48u8, 0x31u8]
}

/// `header` opens with the four bytes of `tag`.
pub open spec fn starts_with_tag(header: Seq<u8>, tag: Seq<u8>) -> bool {
    header.len() >= 4 && header.subrange(0, 4) == tag
}

/// The desktop init record for the given flag and display.
pub open spec fn desktop_init_bytes(view_only: bool, display_index: u32) -> Seq<u8> {
    desktop_tag() + seq![if view_only { 1u8 } else { 0u8 }] + u32_be(display_index)
}

/// What a desktop init record says, if `bytes` holds one.
pub open spec fn desktop_init_fields(bytes: Seq<u8>) -> Option<(bool, u32)> {
    if bytes.len() >= DESKTOP_INIT_LEN && starts_with_tag(bytes, desktop_tag()) {
        Some((bytes[4] != 0, u32_from_be(bytes[5], bytes[6], bytes[7], bytes[8])))
    } else {
        None
    }
}

/// The port init record for the given port and protocol.
pub open spec fn port_init_bytes(remote_port: u16, protocol: PortProtocol) -> Seq<u8> {
    port_tag() + u16_be(remote_port) + seq![
        match protocol {
            PortProtocol::Tcp => PORT_PROTOCOL_TCP,
        },
    ]
}

/// What a port init record says, if `bytes` holds one with a known protocol.
pub open spec fn port_init_fields(bytes: Seq<u8>) -> Option<(u16, PortProtocol)> {
    if bytes.len() >= PORT_INIT_LEN && starts_with_tag(bytes, port_tag()) && bytes[6]
        == PORT_PROTOCOL_TCP {
        Some((u16_from_be(bytes[4], bytes[5]), PortProtocol::Tcp))
    } else {
        None
    }
}

/// The screen-stream init record for the given screen.
pub open spec fn screen_stream_init_bytes(screen_id: u32) -> Seq<u8> {
    screen_stream_tag() + u32_be(screen_id)
}

/// The screen id of a screen-stream init record, if `bytes` holds one.
pub open spec fn screen_stream_init_field(bytes: Seq<u8>) -> Option<u32> {
    if bytes.len() >= SCREEN_STREAM_INIT_LEN && starts_with_tag(bytes, screen_stream_tag()) {
        Some(u32_from_be(bytes[4], bytes[5], bytes[6], bytes[7]))
    } else {
        None
    }
}

/// The shell init record for the given terminal size.
pub open spec fn shell_init_bytes(rows: u16, cols: u16) -> Seq<u8> {
    shell_tag() + u16_be(rows) + u16_be(cols)
}

/// The terminal size of a shell init record, if `bytes` holds one.
pub open spec fn shell_init_fields(bytes: Seq<u8>) -> Option<(u16, u16)> {
    if bytes.len() >= SHELL_INIT_LEN && starts_with_tag(bytes, shell_tag()) {
        Some((u16_from_be(bytes[4], bytes[5]), u16_from_be(bytes[6], bytes[7])))
    } else {
        None
    }
}

/// Whether `header` opens with `tag`.
fn starts_with(header: &[u8], tag: [u8; 4]) -> (r: bool)
    ensures
        r == starts_with_tag(header@, tag@),
{
    if header.len() < 4 {
        return false;
    }
    let r = header[0] == tag[0] && header[1] == tag[1] && header[2] == tag[2] && header[3]
        == tag[3];
    proof {
        if r {
            assert(header@.subrange(0, 4) =~= tag@);
        } else if header@.subrange(0, 4) == tag@ {
            assert(header@.subrange(0, 4)[0] == header@[0]);
            assert(header@.subrange(0, 4)[1] == header@[1]);
            assert(header@.subrange(0, 4)[2] == header@[2]);
            assert(header@.subrange(0, 4)[3] == header@[3]);
        }
    }
    r
}

pub fn is_desktop_handshake(header: &[u8]) -> (r: bool)
    ensures
        r == starts_with_tag(header@, desktop_tag()),
{
    assert(DESKTOP_HANDSHAKE@ =~= desktop_tag());
    starts_with(header, DESKTOP_HANDSHAKE)
}

pub fn is_input_handshake(header: &[u8]) -> (r: bool)
    ensures
        r == starts_with_tag(header@, input_tag()),
{
    assert(INPUT_HANDSHAKE@ =~= input_tag());
    starts_with(header, INPUT_HANDSHAKE)
}

pub fn is_lan_handshake(header: &[u8]) -> (r: bool)
    ensures
        r == starts_with_tag(header@, lan_tag()),
{
    assert(LAN_HANDSHAKE@ =~= lan_tag());
    starts_with(header, LAN_HANDSHAKE)
}

pub fn is_port_handshake(header: &[u8]) -> (r: bool)
    ensures
        r == starts_with_tag(header@, port_tag()),
{
    assert(PORT_HANDSHAKE@ =~= port_tag());
    starts_with(header, PORT_HANDSHAKE)
}

pub fn is_screen_list_handshake(header: &[u8]) -> (r: bool)
    ensures
        r == starts_with_tag(header@, screen_list_tag()),
{
    assert(SCREEN_LIST_HANDSHAKE@ =~= screen_list_tag());
    starts_with(header, SCREEN_LIST_HANDSHAKE)
}

pub fn is_screen_stream_handshake(header: &[u8]) -> (r: bool)
    ensures
        r == starts_with_tag(header@, screen_stream_tag()),
{
    assert(SCREEN_STREAM_HANDSHAKE@ =~= screen_stream_tag());
    starts_with(header, SCREEN_STREAM_HANDSHAKE)
}

pub fn is_shell_handshake(header: &[u8]) -> (r: bool)
    ensures
        r == starts_with_tag(header@, shell_tag()),
{
    assert(SHELL_HANDSHAKE@ =~= shell_tag());
    starts_with(header, SHELL_HANDSHAKE)
}

pub fn build_desktop_init(view_only: bool, display_index: u32) -> (r: [u8; DESKTOP_INIT_LEN])
    ensures
        r@ == desktop_init_bytes(view_only, display_index),
{
    let idx = u32_to_be_bytes(display_index);
    let flag: u8 = if view_only {
        1
    } else {
        0
    };
    let r = [0x46u8, 0x44, 0x54, 0x31, flag, idx[0], idx[1], idx[2], idx[3]];
    assert(r@ =~= desktop_init_bytes(view_only, display_index));
    r
}

pub fn parse_desktop_init(bytes: &[u8]) -> (r: Option<(bool, u32)>)
    ensures
        r == desktop_init_fields(bytes@),
{
    if bytes.len() < DESKTOP_INIT_LEN || !is_desktop_handshake(bytes) {
        return None;
    }
    let view_only = bytes[4] != 0;
    let display_index = u32_from_be_bytes(bytes[5], bytes[6], bytes[7], bytes[8]);
    Some((view_only, display_index))
}

pub fn build_input_init() -> (r: [u8; 4])
    ensures
        r@ == input_tag(),
{
    let r = INPUT_HANDSHAKE;
    assert(r@ =~= input_tag());
    r
}

pub fn build_lan_init() -> (r: [u8; 4])
    ensures
        r@ == lan_tag(),
{
    let r = LAN_HANDSHAKE;
    assert(r@ =~= lan_tag());
    r
}

pub fn build_port_init(remote_port: u16, protocol: PortProtocol) -> (r: [u8; PORT_INIT_LEN])
    ensures
        r@ == port_init_bytes(remote_port, protocol),
{
    let p = u16_to_be_bytes(remote_port);
    let proto: u8 = match protocol {
        PortProtocol::Tcp => PORT_PROTOCOL_TCP,
    };
    let r = [0x46u8, 0x53, 0x50, 0x31, p[0], p[1], proto];
    assert(r@ =~= port_init_bytes(remote_port, protocol));
    r
}

pub fn parse_port_init(bytes: &[u8]) -> (r: Option<(u16, PortProtocol)>)
    ensures
        r == port_init_fields(bytes@),
{
    if bytes.len() < PORT_INIT_LEN || !is_port_handshake(bytes) {
        return None;
    }
    let remote_port = u16_from_be_bytes(bytes[4], bytes[5]);
    if bytes[6] == PORT_PROTOCOL_TCP {
        Some((remote_port, PortProtocol::Tcp))
    } else {
        None
    }
}

pub fn build_screen_list_init() -> (r: [u8; SCREEN_LIST_INIT_LEN])
    ensures
        r@ == screen_list_tag(),
{
    let r = SCREEN_LIST_HANDSHAKE;
    assert(r@ =~= screen_list_tag());
    r
}

pub fn build_screen_stream_init(screen_id: u32) -> (r: [u8; SCREEN_STREAM_INIT_LEN])
    ensures
        r@ == screen_stream_init_bytes(screen_id),
{
    let s = u32_to_be_bytes(screen_id);
    let r = [0x46u8, 0x53, 0x53, 0x31, s[0], s[1], s[2], s[3]];
    assert(r@ =~= screen_stream_init_bytes(screen_id));
    r
}

pub fn parse_screen_stream_init(bytes: &[u8]) -> (r: Option<u32>)
    ensures
        r == screen_stream_init_field(bytes@),
{
    if bytes.len() < SCREEN_STREAM_INIT_LEN || !is_screen_stream_handshake(bytes) {
        return None;
    }
    Some(u32_from_be_bytes(bytes[4], bytes[5], bytes[6], bytes[7]))
}

pub fn build_shell_init(rows: u16, cols: u16) -> (r: [u8; SHELL_INIT_LEN])
    ensures
        r@ == shell_init_bytes(rows, cols),
{
    let rb = u16_to_be_bytes(rows);
    let cb = u16_to_be_bytes(cols);
    let r = [0x46u8, 0x53, 0x48, 0x31, rb[0], rb[1], cb[0], cb[1]];
    assert(r@ =~= shell_init_bytes(rows, cols));
    r
}

pub fn parse_shell_init(bytes: &[u8]) -> (r: Option<(u16, u16)>)
    ensures
        r == shell_init_fields(bytes@),
{
    if bytes.len() < SHELL_INIT_LEN || !is_shell_handshake(bytes) {
        return None;
    }
    let rows = u16_from_be_bytes(bytes[4], bytes[5]);
    let cols = u16_from_be_bytes(bytes[6], bytes[7]);
    Some((rows, cols))
}


/// Which handler an inbound peer stream goes to, as told by its first four bytes.
#[derive(Debug, Clone, Copy, PartialEq, Eq, Structural)]
pub enum StreamKind {
    Port,
    Lan,
    Shell,
    Feature,
}

/// The handler for a stream that opens with `header`: port, LAN and shell
/// tags are tried in that order, and anything else is a feature frame.
pub open spec fn stream_kind_of(header: Seq<u8>) -> StreamKind {
    if starts_with_tag(header, port_tag()) {
        StreamKind::Port
    } else if starts_with_tag(header, lan_tag()) {
        StreamKind::Lan
    } else if starts_with_tag(header, shell_tag()) {
        StreamKind::Shell
    } else {
        StreamKind::Feature
    }
}

/// Dispatches an inbound stream on its four header bytes.
pub fn classify_stream_header(header: [u8; 4]) -> (r: StreamKind)
    ensures
        r == stream_kind_of(header@),
{
    if is_port_handshake(&header) {
        StreamKind::Port
    } else if is_lan_handshake(&header) {
        StreamKind::Lan
    } else if is_shell_handshake(&header) {
        StreamKind::Shell
    } else {
        StreamKind::Feature
    }
}

/// The port init record of a port stream: its header followed by the three
/// bytes read after it, parsed; `None` when the record is not valid.
pub fn assemble_port_init(header: [u8; 4], tail: [u8; 3]) -> (r: Option<(u16, PortProtocol)>)
    ensures
        r == port_init_fields(header@ + tail@),
{
    let init = [header[0], header[1], header[2], header[3], tail[0], tail[1], tail[2]];
    assert(init@ =~= header@ + tail@);
    parse_port_init(&init)
}

/// The terminal size carried by the four bytes that follow a shell tag:
/// rows then columns, each big-endian.
pub fn parse_shell_size(size: [u8; 4]) -> (r: (u16, u16))
    ensures
        r == (u16_from_be(size@[0], size@[1]), u16_from_be(size@[2], size@[3])),
{
    (u16_from_be_bytes(size[0], size[1]), u16_from_be_bytes(size[2], size[3]))
}

/// A desktop init record reads back as the flag and display it was built from,
/// and opens with the desktop tag.
pub proof fn lemma_desktop_init_roundtrip(view_only: bool, display_index: u32)
    ensures
        desktop_init_fields(desktop_init_bytes(view_only, display_index)) == Some(
            (view_only, display_index),
        ),
        starts_with_tag(desktop_init_bytes(view_only, display_index), desktop_tag()),
{
    let b = desktop_init_bytes(view_only, display_index);
    assert(b.subrange(0, 4) =~= desktop_tag());
    lemma_u32_be_roundtrip(display_index);
}

/// A port init record reads back as the port and protocol it was built from,
/// and opens with the port tag.
pub proof fn lemma_port_init_roundtrip(remote_port: u16, protocol: PortProtocol)
    ensures
        port_init_fields(port_init_bytes(remote_port, protocol)) == Some((remote_port, protocol)),
        starts_with_tag(port_init_bytes(remote_port, protocol), port_tag()),
{
    let b = port_init_bytes(remote_port, protocol);
    assert(b.subrange(0, 4) =~= port_tag());
    lemma_u16_be_roundtrip(remote_port);
}

/// A screen-stream init record reads back as the screen it was built for,
/// and opens with the screen-stream tag.
pub proof fn lemma_screen_stream_init_roundtrip(screen_id: u32)
    ensures
        screen_stream_init_field(screen_stream_init_bytes(screen_id)) == Some(screen_id),
        starts_with_tag(screen_stream_init_bytes(screen_id), screen_stream_tag()),
{
    let b = screen_stream_init_bytes(screen_id);
    assert(b.subrange(0, 4) =~= screen_stream_tag());
    lemma_u32_be_roundtrip(screen_id);
}

/// A shell init record reads back as the terminal size it was built for,
/// and opens with the shell tag.
pub proof fn lemma_shell_init_roundtrip(rows: u16, cols: u16)
    ensures
        shell_init_fields(shell_init_bytes(rows, cols)) == Some((rows, cols)),
        starts_with_tag(shell_init_bytes(rows, cols), shell_tag()),
{
    let b = shell_init_bytes(rows, cols);
    assert(b.subrange(0, 4) =~= shell_tag());
    lemma_u16_be_roundtrip(rows);
    lemma_u16_be_roundtrip(cols);
}

/// The handshake tags tell stream kinds apart, all but the virtual-LAN and
/// screen-list tags, which are the same four bytes.
pub proof fn lemma_handshake_tags_distinct()
    ensures
        desktop_tag() != input_tag(),
        screen_list_tag() != screen_stream_tag(),
        lan_tag() == screen_list_tag(),
        port_tag() != lan_tag(),
        port_tag() != shell_tag(),
        lan_tag() != shell_tag(),
        desktop_tag() != port_tag(),
        desktop_tag() != lan_tag(),
        desktop_tag() != shell_tag(),
        desktop_tag() != screen_stream_tag(),
        input_tag() != port_tag(),
        input_tag() != lan_tag(),
        input_tag() != shell_tag(),
        input_tag() != screen_stream_tag(),
        screen_stream_tag() != port_tag(),
        screen_stream_tag() != shell_tag(),
{
    assert(desktop_tag()[2] != input_tag()[2]);
    assert(screen_list_tag()[2] != screen_stream_tag()[2]);
    assert(lan_tag() =~= screen_list_tag());
    assert(port_tag()[2] != lan_tag()[2]);
    assert(port_tag()[2] != shell_tag()[2]);
    assert(lan_tag()[2] != shell_tag()[2]);
    assert(desktop_tag()[1] != port_tag()[1]);
    assert(desktop_tag()[1] != lan_tag()[1]);
    assert(desktop_tag()[1] != shell_tag()[1]);
    assert(desktop_tag()[1] != screen_stream_tag()[1]);
    assert(input_tag()[1] != port_tag()[1]);
    assert(input_tag()[1] != lan_tag()[1]);
    assert(input_tag()[1] != shell_tag()[1]);
    assert(input_tag()[1] != screen_stream_tag()[1]);
    assert(screen_stream_tag()[2] != port_tag()[2]);
    assert(screen_stream_tag()[2] != shell_tag()[2]);
}

/// A stream that opens with the length prefix of a feature frame within the
/// 16 MiB limit is never taken for a handshake of any kind, and is dispatched
/// as a feature frame.
pub proof fn lemma_length_prefix_is_no_handshake(length: u32, rest: Seq<u8>)
    requires
        length <= 0x0100_0000,
    ensures
        !starts_with_tag(u32_be(length) + rest, desktop_tag()),
        !starts_with_tag(u32_be(length) + rest, input_tag()),
        !starts_with_tag(u32_be(length) + rest, lan_tag()),
        !starts_with_tag(u32_be(length) + rest, port_tag()),
        !starts_with_tag(u32_be(length) + rest, screen_list_tag()),
        !starts_with_tag(u32_be(length) + rest, screen_stream_tag()),
        !starts_with_tag(u32_be(length) + rest, shell_tag()),
        stream_kind_of(u32_be(length) + rest) == StreamKind::Feature,
{
    lemma_u32_be_small_first_byte(length);
    let h = u32_be(length) + rest;
    assert(h.subrange(0, 4)[0] == h[0]);
}

} // verus!
