//! OSC packets as plain data: arguments, messages, bundles.

use vstd::prelude::*;

verus! {

/// An OSC time tag: seconds since 1900-01-01 and the fraction of a second.
pub type TimeTag = (u32, u32);

/// One argument of an OSC message.
///
/// The two floating-point kinds are held as the bit patterns of their
/// IEEE 754 encodings, which is how they travel on the wire.
#[derive(Debug, PartialEq)]
pub enum Arg {
    Int(i32),
    Float(u32),
    String(String),
    Blob(Vec<u8>),
    Time(u32, u32),
    Long(i64),
    Double(u64),
    Char(char),
    Color(u8, u8, u8, u8),
    Midi(u8, u8, u8, u8),
    Bool(bool),
    Array(Vec<Arg>),
    Nil,
    Inf,
}

/// An address and the arguments sent to it.
#[derive(Debug, PartialEq)]
pub struct Message {
    pub addr: String,
    pub args: Vec<Arg>,
}

/// A time tag and the packets to be applied at that time.
#[derive(Debug, PartialEq)]
pub struct Bundle {
    pub timetag: TimeTag,
    pub content: Vec<Packet>,
}

/// A message, or a bundle of packets.
#[derive(Debug, PartialEq)]
pub enum Packet {
    Message(Message),
    Bundle(Bundle),
}

/// A message of a packet together with the time tag it stands under.
#[derive(Clone, Copy, Debug)]
pub struct Timed<'a> {
    pub message: &'a Message,
    pub time: Option<TimeTag>,
}

/// The messages of `packet` in the order in which they occur. A message
/// inside a bundle stands under the time tag of the innermost bundle that
/// holds it; a message outside any bundle stands under `time`.
pub open spec fn flattened<'a>(packet: &'a Packet, time: Option<TimeTag>) -> Seq<Timed<'a>>
    decreases packet, 0nat,
{
    match packet {
        Packet::Message(m) => seq![Timed { message: m, time }],
        Packet::Bundle(b) => flattened_items(&b.content, Some(b.timetag), b.content@.len()),
    }
}

/// The messages of the first `n` packets of `items`, each flattened under
/// `time`.
pub open spec fn flattened_items<'a>(
    items: &'a Vec<Packet>,
    time: Option<TimeTag>,
    n: nat,
) -> Seq<Timed<'a>>
    decreases items, n,
{
    if n == 0 || n > items@.len() {
        Seq::empty()
    } else {
        flattened_items(items, time, (n - 1) as nat) + flattened(&items@[n - 1], time)
    }
}

/// Appends the messages of `packet` to `out`, in order.
pub fn flatten_into<'a>(packet: &'a Packet, time: Option<TimeTag>, out: &mut Vec<Timed<'a>>)
    ensures
        final(out)@ == old(out)@ + flattened(packet, time),
    decreases packet,
{
    match packet {
        Packet::Message(m) => {
            out.push(Timed { message: m, time });
        },
        Packet::Bundle(b) => {
            let inner = Some(b.timetag);
            let mut i: usize = 0;
            while i < b.content.len()
                invariant
                    i <= b.content@.len(),
                    decreases_to!(packet => b.content),
                    inner == Some(b.timetag),
                    out@ == old(out)@ + flattened_items(&b.content, inner, i as nat),
                decreases b.content@.len() - i,
            {
                flatten_into(&b.content[i], inner, out);
                i += 1;
            }
        },
    }
}

/// The messages of `packet`, flattened under no time tag of their own.
pub fn flatten<'a>(packet: &'a Packet, time: Option<TimeTag>) -> (out: Vec<Timed<'a>>)
    ensures
        out@ == flattened(packet, time),
{
    let mut out: Vec<Timed<'a>> = Vec::new();
    flatten_into(packet, time, &mut out);
    out
}

} // verus!
