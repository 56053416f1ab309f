//! Framing of feature messages on peer streams: a four-byte big-endian
//! length followed by the serialized message, at most 16 MiB of it.

use vstd::prelude::*;

use crate::bytes::{u32_be, u32_from_be, u32_from_be_bytes, u32_to_be_bytes, lemma_u32_be_roundtrip};
use crate::error::TransportError;
use crate::ids::DeviceId;
use crate::ids::FeatureId;
use crate::text::push_decimal;
use crate::handshake::MAX_LAN_PACKET_SIZE;
use crate::text::decimal;

verus! {

/// Largest serialized feature message, in bytes.
pub const MAX_MESSAGE_SIZE: usize = 16777216;

/// A message of one feature, sent from one device to another.
#[derive(Debug, Clone)]
pub struct FeatureMessage {
    pub from: DeviceId,
    pub to: DeviceId,
    pub feature: FeatureId,
    pub payload: Vec<u8>,
}

/// Why a frame could not be read.
pub enum FrameFault {
    TooShort,
    TooLarge,
    Incomplete,
}

/// The text of the codec error for a fault.
pub open spec fn fault_message(f: FrameFault) -> Seq<char> {
    match f {
        FrameFault::TooShort => "frame too short"@,
        FrameFault::TooLarge => "message exceeds maximum size of 16777216 bytes"@,
        FrameFault::Incomplete => "incomplete frame"@,
    }
}

/// The frame that carries `payload`.
pub open spec fn framed(payload: Seq<u8>) -> Seq<u8> {
    u32_be(payload.len() as u32) + payload
}

/// The payload a frame carries, or why it cannot be read. Bytes after the
/// announced length are ignored.
pub open spec fn unframed(frame: Seq<u8>) -> Result<Seq<u8>, FrameFault> {
    if frame.len() < 4 {
        Err(FrameFault::TooShort)
    } else {
        let n = u32_from_be(frame[0], frame[1], frame[2], frame[3]);
        if n > MAX_MESSAGE_SIZE {
            Err(FrameFault::TooLarge)
        } else if frame.len() < 4 + n {
            Err(FrameFault::Incomplete)
        } else {
            Ok(frame.subrange(4, 4 + n))
        }
    }
}

/// `e` is the codec error for fault `f`.
pub open spec fn is_fault_error(e: TransportError, f: FrameFault) -> bool {
    e matches TransportError::Codec(m) && m@ == fault_message(f)
}

fn fault_error(f: FrameFault) -> (e: TransportError)
    ensures
        is_fault_error(e, f),
{
    match f {
        FrameFault::TooShort => TransportError::Codec(String::from_str("frame too short")),
        FrameFault::TooLarge => TransportError::Codec(
            String::from_str("message exceeds maximum size of 16777216 bytes"),
        ),
        FrameFault::Incomplete => TransportError::Codec(String::from_str("incomplete frame")),
    }
}

/// Appends `s` to `v`.
pub fn append_bytes(v: &mut Vec<u8>, s: &[u8])
    ensures
        final(v)@ == old(v)@ + s@,
{
    let ghost start = v@;
    let mut i: usize = 0;
    while i < s.len()
        invariant
            i <= s.len(),
            v@ == start + s@.subrange(0, i as int),
        decreases s.len() - i,
    {
        v.push(s[i]);
        i = i + 1;
        assert(v@ =~= start + s@.subrange(0, i as int));
    }
    assert(s@.subrange(0, s@.len() as int) =~= s@);
}

/// Frames a serialized message: its length, big-endian, then the bytes.
/// Refused when the message is longer than `MAX_MESSAGE_SIZE`.
pub fn encode(payload: &[u8]) -> (r: Result<Vec<u8>, TransportError>)
    ensures
        payload@.len() <= MAX_MESSAGE_SIZE ==> (r matches Ok(frame) && frame@ == framed(
            payload@,
        )),
        payload@.len() > MAX_MESSAGE_SIZE ==> (r matches Err(e) && is_fault_error(
            e,
            FrameFault::TooLarge,
        )),
{
    if payload.len() > MAX_MESSAGE_SIZE {
        return Err(fault_error(FrameFault::TooLarge));
    }
    let header = u32_to_be_bytes(payload.len() as u32);
    let mut frame: Vec<u8> = Vec::new();
    append_bytes(&mut frame, &header);
    append_bytes(&mut frame, payload);
    Ok(frame)
}

/// The serialized message a frame carries.
pub fn decode(frame: &[u8]) -> (r: Result<Vec<u8>, TransportError>)
    ensures
        match unframed(frame@) {
            Ok(p) => r matches Ok(v) && v@ == p,
            Err(f) => r matches Err(e) && is_fault_error(e, f),
        },
{
    if frame.len() < 4 {
        return Err(fault_error(FrameFault::TooShort));
    }
    let length = u32_from_be_bytes(frame[0], frame[1], frame[2], frame[3]) as usize;
    if length > MAX_MESSAGE_SIZE {
        return Err(fault_error(FrameFault::TooLarge));
    }
    if frame.len() < 4 + length {
        return Err(fault_error(FrameFault::Incomplete));
    }
    let body = vstd::slice::slice_subrange(frame, 4, 4 + length);
    Ok(vstd::slice::slice_to_vec(body))
}

/// A frame read back gives the message it was made from.
pub proof fn lemma_frame_roundtrip(payload: Seq<u8>)
    requires
        payload.len() <= MAX_MESSAGE_SIZE,
    ensures
        unframed(framed(payload)) == Ok::<Seq<u8>, FrameFault>(payload),
{
    let f = framed(payload);
    lemma_u32_be_roundtrip(payload.len() as u32);
    assert(f.subrange(4, 4 + payload.len() as int) =~= payload);
}

/// The length announced by the four header bytes of a feature frame, when
/// it is within `MAX_MESSAGE_SIZE`; a larger frame is dropped.
pub fn feature_frame_length(header: [u8; 4]) -> (r: Option<usize>)
    ensures
        u32_from_be(header@[0], header@[1], header@[2], header@[3]) <= MAX_MESSAGE_SIZE ==> r
            == Some(u32_from_be(header@[0], header@[1], header@[2], header@[3]) as usize),
        u32_from_be(header@[0], header@[1], header@[2], header@[3]) > MAX_MESSAGE_SIZE ==> r
            is None,
{
    let length = u32_from_be_bytes(header[0], header[1], header[2], header[3]) as usize;
    if length > MAX_MESSAGE_SIZE {
        None
    } else {
        Some(length)
    }
}

/// What becomes of a decoded inbound message that arrived on a connection
/// with `device`: one addressed to another device than `local` is dropped,
/// and a kept one is marked as coming from `device`, whatever it claimed.
pub open spec fn inbound_delivery(message: FeatureMessage, device: DeviceId, local: DeviceId) -> Option<FeatureMessage> {
    if message.to == local {
        Some(FeatureMessage { from: device, ..message })
    } else {
        None
    }
}

/// Applies `inbound_delivery` to a decoded inbound message.
pub fn accept_inbound(message: FeatureMessage, device: DeviceId, local: DeviceId) -> (r: Option<FeatureMessage>)
    ensures
        r == inbound_delivery(message, device, local),
{
    if message.to == local {
        let mut m = message;
        m.from = device;
        Some(m)
    } else {
        None
    }
}

/// The length of a virtual-LAN packet announced by four header bytes; refused
/// when zero or above `MAX_LAN_PACKET_SIZE`, with the length in the message.
pub fn lan_packet_length(header: [u8; 4]) -> (r: Result<usize, TransportError>)
    ensures
        ({
            let n = u32_from_be(header@[0], header@[1], header@[2], header@[3]);
            if n == 0 || n > MAX_LAN_PACKET_SIZE {
                r matches Err(TransportError::Codec(m)) && m@ == "invalid lan packet length: "@
                    + decimal(n as nat)
            } else {
                r == Ok::<usize, TransportError>(n as usize)
            }
        }),
{
    let n = u32_from_be_bytes(header[0], header[1], header[2], header[3]);
    if n == 0 || n as usize > MAX_LAN_PACKET_SIZE {
        let mut m = String::from_str("invalid lan packet length: ");
        push_decimal(&mut m, n as u64);
        return Err(TransportError::Codec(m));
    }
    Ok(n as usize)
}

/// The bytes that carry a virtual-LAN packet: its length, big-endian, then the
/// packet; refused when empty or above `MAX_LAN_PACKET_SIZE`.
pub fn lan_packet_frame(packet: &[u8]) -> (r: Result<Vec<u8>, TransportError>)
    ensures
        packet@.len() == 0 || packet@.len() > MAX_LAN_PACKET_SIZE ==> (r matches Err(
            TransportError::Codec(m),
        ) && m@ == "invalid lan packet size: "@ + decimal(packet@.len())),
        0 < packet@.len() <= MAX_LAN_PACKET_SIZE ==> (r matches Ok(v) && v@ == framed(packet@)),
{
    if packet.len() == 0 || packet.len() > MAX_LAN_PACKET_SIZE {
        let mut m = String::from_str("invalid lan packet size: ");
        push_decimal(&mut m, packet.len() as u64);
        return Err(TransportError::Codec(m));
    }
    let header = u32_to_be_bytes(packet.len() as u32);
    let mut v: Vec<u8> = Vec::new();
    append_bytes(&mut v, &header);
    append_bytes(&mut v, packet);
    Ok(v)
}

/// A virtual-LAN packet that was framed for sending is read back at the same
/// length.
pub proof fn lemma_lan_packet_roundtrip(packet: Seq<u8>)
    requires
        0 < packet.len() <= MAX_LAN_PACKET_SIZE,
    ensures
        ({
            let f = framed(packet);
            let n = u32_from_be(f[0], f[1], f[2], f[3]);
            n == packet.len() && !(n == 0 || n > MAX_LAN_PACKET_SIZE)
                && f.subrange(4, 4 + n as int) == packet
        }),
{
    lemma_u32_be_roundtrip(packet.len() as u32);
    assert(framed(packet).subrange(4, 4 + packet.len() as int) =~= packet);
}

} // verus!
