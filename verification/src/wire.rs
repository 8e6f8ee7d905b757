//! Decoding of OSC datagrams. The bytes are parsed by `rosc`; what it
//! yields is brought into the packet types of this crate by verified code.

use vstd::prelude::*;
use crate::osc::{Arg, Bundle, Message, Packet};

verus! {

/// `rosc::OscTime`: the seconds and the fraction of a time tag.
#[verifier::external_type_specification]
pub struct ExOscTime(rosc::OscTime);

/// `rosc::OscMidiMessage`: the four bytes of a MIDI message.
#[verifier::external_type_specification]
pub struct ExOscMidiMessage(rosc::OscMidiMessage);

/// `rosc::OscColor`: the four bytes of a colour.
#[verifier::external_type_specification]
pub struct ExOscColor(rosc::OscColor);

/// `rosc::OscArray`: the arguments that an array argument holds.
#[verifier::external_type_specification]
pub struct ExOscArray(rosc::OscArray);

/// `rosc::OscType`: one argument, with the variants that the crate gives it.
#[verifier::external_type_specification]
pub struct ExOscType(rosc::OscType);

/// `rosc::OscMessage`: an address and its arguments.
#[verifier::external_type_specification]
pub struct ExOscMessage(rosc::OscMessage);

/// `rosc::OscBundle`: a time tag and the packets under it.
#[verifier::external_type_specification]
pub struct ExOscBundle(rosc::OscBundle);

/// `rosc::OscPacket`: a message or a bundle.
#[verifier::external_type_specification]
pub struct ExOscPacket(rosc::OscPacket);

/// `rosc::OscError`: why the decoder gave up. Nothing of it is looked at.
#[verifier::external_type_specification]
#[verifier::external_body]
pub struct ExOscError(rosc::OscError);

/// The packet that `rosc::decoder::decode_udp` reads from a datagram, and
/// `None` where it reports an error.
pub uninterp spec fn udp_decoded(bytes: Seq<u8>) -> Option<rosc::OscPacket>;

/// `rosc::decoder::decode_udp` parses one OSC packet from the front of
/// `msg` and returns it with the bytes that follow it. The contract says no
/// more than that the outcome is a function of the bytes.
pub assume_specification[ rosc::decoder::decode_udp ](msg: &[u8]) -> (r: Result<
    (&[u8], rosc::OscPacket),
    rosc::OscError,
>)
    ensures
        r is Ok <==> udp_decoded(msg@) is Some,
        r matches Ok(parsed) ==> udp_decoded(msg@) == Some(parsed.1),
;

/// The bit pattern of a single-precision argument, as `to_bits` of the
/// standard library gives it; `None` for any other kind of argument.
#[verifier::external_body]
fn single_bits(raw: &rosc::OscType) -> (bits: Option<u32>)
    ensures
        bits == (match raw {
            rosc::OscType::Float(x) => Some(f32_to_bits(*x)),
            _ => None,
        }),
{
    match raw {
        rosc::OscType::Float(x) => Some(x.to_bits()),
        _ => None,
    }
}

/// The bit pattern of a double-precision argument, as `to_bits` of the
/// standard library gives it; `None` for any other kind of argument.
#[verifier::external_body]
fn double_bits(raw: &rosc::OscType) -> (bits: Option<u64>)
    ensures
        bits == (match raw {
            rosc::OscType::Double(x) => Some(f64_to_bits(*x)),
            _ => None,
        }),
{
    match raw {
        rosc::OscType::Double(x) => Some(x.to_bits()),
        _ => None,
    }
}

/// `a` holds what the decoder's argument `raw` holds.
pub open spec fn arg_mirrors(a: &Arg, raw: &rosc::OscType) -> bool
    decreases raw, 0nat,
{
    match raw {
        rosc::OscType::Int(v) => *a == Arg::Int(*v),
        rosc::OscType::Float(x) => *a == Arg::Float(f32_to_bits(*x)),
        rosc::OscType::String(s) => a matches Arg::String(t) && t@ == s@,
        rosc::OscType::Blob(b) => a matches Arg::Blob(c) && c@ == b@,
        rosc::OscType::Time(t) => *a == Arg::Time(t.seconds, t.fractional),
        rosc::OscType::Long(v) => *a == Arg::Long(*v),
        rosc::OscType::Double(x) => *a == Arg::Double(f64_to_bits(*x)),
        rosc::OscType::Char(c) => *a == Arg::Char(*c),
        rosc::OscType::Color(c) => *a == Arg::Color(c.red, c.green, c.blue, c.alpha),
        rosc::OscType::Midi(m) => *a == Arg::Midi(m.port, m.status, m.data1, m.data2),
        rosc::OscType::Bool(b) => *a == Arg::Bool(*b),
        rosc::OscType::Array(arr) => a matches Arg::Array(items) && args_mirror(
            items,
            &arr.content,
        ),
        rosc::OscType::Nil => *a == Arg::Nil,
        rosc::OscType::Inf => *a == Arg::Inf,
    }
}

/// `items` holds, place by place, what the decoder's arguments `raw` hold.
pub open spec fn args_mirror(items: &Vec<Arg>, raw: &Vec<rosc::OscType>) -> bool
    decreases raw, 1nat,
{
    &&& items@.len() == raw@.len()
    &&& forall|i: int| 0 <= i < raw@.len() ==> arg_mirrors(&items@[i], &raw@[i])
}

/// `m` holds what the decoder's message `raw` holds.
pub open spec fn message_mirrors(m: &Message, raw: &rosc::OscMessage) -> bool {
    m.addr@ == raw.addr@ && args_mirror(&m.args, &raw.args)
}

/// `p` holds what the decoder's packet `raw` holds.
pub open spec fn packet_mirrors(p: &Packet, raw: &rosc::OscPacket) -> bool
    decreases raw,
{
    match raw {
        rosc::OscPacket::Message(rm) => p matches Packet::Message(m) && message_mirrors(m, rm),
        rosc::OscPacket::Bundle(rb) => p matches Packet::Bundle(b) && {
            &&& b.timetag == (rb.timetag.seconds, rb.timetag.fractional)
            &&& b.content@.len() == rb.content@.len()
            &&& forall|i: int|
                0 <= i < rb.content@.len() ==> packet_mirrors(&b.content@[i], &rb.content@[i])
        },
    }
}

fn copy_bytes(bytes: &Vec<u8>) -> (out: Vec<u8>)
    ensures
        out@ == bytes@,
{
    let mut out: Vec<u8> = Vec::new();
    let mut i: usize = 0;
    while i < bytes.len()
        invariant
            i <= bytes@.len(),
            out@ == bytes@.take(i as int),
        decreases bytes@.len() - i,
    {
        out.push(bytes[i]);
        i += 1;
    }
    out
}

/// Brings one argument of the decoder into this crate's type.
pub fn import_arg(raw: &rosc::OscType) -> (a: Arg)
    ensures
        arg_mirrors(&a, raw),
    decreases raw, 0nat,
{
    match raw {
        rosc::OscType::Int(v) => Arg::Int(*v),
        rosc::OscType::Float(_) => {
            match single_bits(raw) {
                Some(bits) => Arg::Float(bits),
                // Never taken: the argument is a single.
                None => Arg::Nil,
            }
        },
        rosc::OscType::String(s) => Arg::String(s.clone()),
        rosc::OscType::Blob(b) => Arg::Blob(copy_bytes(b)),
        rosc::OscType::Time(t) => Arg::Time(t.seconds, t.fractional),
        rosc::OscType::Long(v) => Arg::Long(*v),
        rosc::OscType::Double(_) => {
            match double_bits(raw) {
                Some(bits) => Arg::Double(bits),
                // Never taken: the argument is a double.
                None => Arg::Nil,
            }
        },
        rosc::OscType::Char(c) => Arg::Char(*c),
        rosc::OscType::Color(c) => Arg::Color(c.red, c.green, c.blue, c.alpha),
        rosc::OscType::Midi(m) => Arg::Midi(m.port, m.status, m.data1, m.data2),
        rosc::OscType::Bool(b) => Arg::Bool(*b),
        rosc::OscType::Array(arr) => {
            Arg::Array(import_args(&arr.content))
        },
        rosc::OscType::Nil => Arg::Nil,
        rosc::OscType::Inf => Arg::Inf,
    }
}

/// Brings the arguments of a decoded message into this crate's type.
pub fn import_args(raw: &Vec<rosc::OscType>) -> (items: Vec<Arg>)
    ensures
        args_mirror(&items, raw),
    decreases raw, 1nat,
{
    let mut items: Vec<Arg> = Vec::new();
    let mut i: usize = 0;
    while i < raw.len()
        invariant
            i <= raw@.len(),
            items@.len() == i,
            forall|k: int| 0 <= k < i ==> arg_mirrors(&items@[k], &raw@[k]),
        decreases raw@.len() - i,
    {
        let a = import_arg(&raw[i]);
        items.push(a);
        i += 1;
    }
    items
}

/// Brings a decoded message into this crate's type.
pub fn import_message(raw: &rosc::OscMessage) -> (m: Message)
    ensures
        message_mirrors(&m, raw),
{
    Message { addr: raw.addr.clone(), args: import_args(&raw.args) }
}

/// Brings a decoded packet into this crate's type.
pub fn import_packet(raw: &rosc::OscPacket) -> (p: Packet)
    ensures
        packet_mirrors(&p, raw),
    decreases raw,
{
    match raw {
        rosc::OscPacket::Message(rm) => Packet::Message(import_message(rm)),
        rosc::OscPacket::Bundle(rb) => {
            let mut content: Vec<Packet> = Vec::new();
            let mut i: usize = 0;
            while i < rb.content.len()
                invariant
                    i <= rb.content@.len(),
                    decreases_to!(*raw => rb.content),
                    content@.len() == i,
                    forall|k: int|
                        0 <= k < i ==> packet_mirrors(&content@[k], &rb.content@[k]),
                decreases rb.content@.len() - i,
            {
                let p = import_packet(&rb.content[i]);
                content.push(p);
                i += 1;
            }
            Packet::Bundle(
                Bundle { timetag: (rb.timetag.seconds, rb.timetag.fractional), content },
            )
        },
    }
}

/// The bytes were no OSC packet.
#[derive(Clone, Copy, Debug, PartialEq, Eq)]
pub struct DecodeFailure;

/// Decodes one OSC packet from a datagram or a binary frame. Bytes that are
/// no packet give `DecodeFailure`; whatever follows the packet is ignored.
pub fn decode(bytes: &[u8]) -> (r: Result<Packet, DecodeFailure>)
    ensures
        r is Ok <==> udp_decoded(bytes@) is Some,
        r matches Ok(p) ==> packet_mirrors(&p, &udp_decoded(bytes@)->Some_0),
{
    match rosc::decoder::decode_udp(bytes) {
        Ok(parsed) => Ok(import_packet(&parsed.1)),
        Err(_) => Err(DecodeFailure),
    }
}

} // verus!
