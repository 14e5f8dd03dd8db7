//! What the command interpreters ask of the hardware, in order. A packet that
//! cannot be delivered ends the session: nothing behind it is done.

use crate::axis::{AxisCmd, Level};
use vstd::prelude::*;
use vstd::utf8::{encode_utf8, is_ascii_chars_encode_utf8};

verus! {

/// The size of the largest packet that goes to the host.
pub const PACKET: usize = 64;

/// A fixed number of step pulses in one direction.
#[derive(Clone, Copy, Debug, PartialEq, Eq, Structural)]
pub struct Pulses {
    /// The level of the direction pin.
    pub dir: Level,
    pub count: u32,
    /// How long the step pin is high in each pulse, in microseconds.
    pub high_us: u64,
    /// How long it is low after each pulse, in microseconds.
    pub low_us: u64,
}

/// One thing to do.
#[derive(Clone, Debug, PartialEq, Eq)]
pub enum Effect {
    /// Send a packet to the host.
    Packet(Vec<u8>),
    /// Hand a command to the driver of an axis.
    Axis { axis: usize, cmd: AxisCmd },
    /// Hand a fan its new state.
    Fan { fan: usize, on: bool },
    /// Hand a servo its new pulse width.
    Servo { servo: usize, us: u16 },
    /// Drive the enable pin of an axis.
    Enable { axis: usize, level: Level },
    /// Pulse the step pin of an axis, to the end.
    Steps { axis: usize, pulses: Pulses },
}

/// The mathematical counterpart of an effect.
pub enum Act {
    Packet(Seq<u8>),
    Axis { axis: int, cmd: AxisCmd },
    Fan { fan: int, on: bool },
    Servo { servo: int, us: u16 },
    Enable { axis: int, level: Level },
    Steps { axis: int, pulses: Pulses },
}

impl View for Effect {
    type V = Act;

    open spec fn view(&self) -> Act {
        match *self {
            Effect::Packet(p) => Act::Packet(p@),
            Effect::Axis { axis, cmd } => Act::Axis { axis: axis as int, cmd },
            Effect::Fan { fan, on } => Act::Fan { fan: fan as int, on },
            Effect::Servo { servo, us } => Act::Servo { servo: servo as int, us },
            Effect::Enable { axis, level } => Act::Enable { axis: axis as int, level },
            Effect::Steps { axis, pulses } => Act::Steps { axis: axis as int, pulses },
        }
    }
}

pub open spec fn acts(v: Seq<Effect>) -> Seq<Act> {
    v.map_values(|e: Effect| e@)
}

/// The packets that carry `data`: full ones, and the rest in a last one.
pub open spec fn packets(data: Seq<u8>) -> Seq<Seq<u8>>
    decreases data.len(),
{
    if data.len() == 0 {
        Seq::empty()
    } else if data.len() <= PACKET {
        seq![data]
    } else {
        seq![data.take(PACKET as int)] + packets(data.skip(PACKET as int))
    }
}

/// Sending `data` to the host.
pub open spec fn sent(data: Seq<u8>) -> Seq<Act> {
    packets(data).map_values(|p: Seq<u8>| Act::Packet(p))
}

/// Sending a text to the host.
pub open spec fn shown(text: Seq<char>) -> Seq<Act> {
    sent(encode_utf8(text))
}

/// Sending a text and a line break, each in packets of its own.
pub open spec fn shown_line(text: Seq<char>) -> Seq<Act> {
    shown(text) + shown("\r\n"@)
}

/// The bytes that a run of packets delivers.
pub open spec fn delivered(p: Seq<Seq<u8>>) -> Seq<u8>
    decreases p.len(),
{
    if p.len() == 0 {
        Seq::empty()
    } else {
        p[0] + delivered(p.skip(1))
    }
}

/// Packets deliver the data they were cut from, whole and in order; none is
/// empty or larger than the link takes.
pub proof fn packets_deliver(data: Seq<u8>)
    ensures
        delivered(packets(data)) == data,
        forall|i: int|
            0 <= i < packets(data).len() ==> 0 < (#[trigger] packets(data)[i]).len() <= PACKET,
    decreases data.len(),
{
    if data.len() == 0 {
    } else if data.len() <= PACKET {
        assert(packets(data).skip(1) =~= Seq::<Seq<u8>>::empty());
        assert(delivered(packets(data).skip(1)) =~= Seq::<u8>::empty());
        assert(delivered(packets(data)) =~= data);
    } else {
        let rest = data.skip(PACKET as int);
        packets_deliver(rest);
        assert(packets(data).skip(1) =~= packets(rest));
        assert(data.take(PACKET as int) + rest =~= data);
        assert forall|i: int| 0 <= i < packets(data).len() implies 0 < (#[trigger] packets(
            data,
        )[i]).len() <= PACKET by {
            if i > 0 {
                assert(packets(data)[i] == packets(rest)[i - 1]);
            }
        }
    }
}

/// The bytes that reach the host of a run of acts.
pub open spec fn said(a: Seq<Act>) -> Seq<u8>
    decreases a.len(),
{
    if a.len() == 0 {
        Seq::empty()
    } else {
        (match a[0] {
            Act::Packet(p) => p,
            _ => Seq::empty(),
        }) + said(a.skip(1))
    }
}

pub proof fn lemma_said_concat(a: Seq<Act>, b: Seq<Act>)
    ensures
        said(a + b) == said(a) + said(b),
    decreases a.len(),
{
    if a.len() == 0 {
        assert(a + b =~= b);
        assert(said(a) + said(b) =~= said(b));
    } else {
        lemma_said_concat(a.skip(1), b);
        assert((a + b).skip(1) =~= a.skip(1) + b);
        assert(said(a + b) =~= said(a) + said(b));
    }
}

proof fn lemma_said_packets(p: Seq<Seq<u8>>)
    ensures
        said(p.map_values(|q: Seq<u8>| Act::Packet(q))) == delivered(p),
    decreases p.len(),
{
    let f = |q: Seq<u8>| Act::Packet(q);
    if p.len() > 0 {
        lemma_said_packets(p.skip(1));
        assert(p.map_values(f).skip(1) =~= p.skip(1).map_values(f));
    }
}

/// What is sent to the host is what reaches it.
pub proof fn sent_is_said(data: Seq<u8>)
    ensures
        said(sent(data)) == data,
{
    packets_deliver(data);
    lemma_said_packets(packets(data));
    assert(sent(data) =~= packets(data).map_values(|q: Seq<u8>| Act::Packet(q)));
}

/// Sends bytes to the host.
pub fn write_all(out: &mut Vec<Effect>, data: &[u8])
    ensures
        acts(final(out)@) == acts(old(out)@) + sent(data@),
{
    let mut i: usize = 0;
    assert(data@.skip(0) =~= data@);
    assert(acts(out@) + sent(data@) =~= acts(old(out)@) + sent(data@));
    while i < data.len()
        invariant
            i <= data.len(),
            acts(out@) + sent(data@.skip(i as int)) == acts(old(out)@) + sent(data@),
        decreases data.len() - i,
    {
        let ghost rest = data@.skip(i as int);
        let ghost before = out@;
        let end: usize = if data.len() - i > PACKET {
            i + PACKET
        } else {
            data.len()
        };
        let mut packet: Vec<u8> = Vec::new();
        let mut j: usize = i;
        while j < end
            invariant
                i <= j <= end <= data.len(),
                packet@ == data@.subrange(i as int, j as int),
            decreases end - j,
        {
            packet.push(data[j]);
            j += 1;
            assert(data@.subrange(i as int, j as int).drop_last() =~= data@.subrange(
                i as int,
                j - 1,
            ));
        }
        let ghost p = packet@;
        out.push(Effect::Packet(packet));
        proof {
            assert(acts(out@) =~= acts(before).push(Act::Packet(p)));
            if rest.len() > PACKET {
                assert(rest.skip(PACKET as int) =~= data@.skip(i + PACKET));
            }
            assert(p =~= if rest.len() > PACKET { rest.take(PACKET as int) } else { rest });
            assert(data@.skip(data.len() as int) =~= Seq::<u8>::empty());
            assert(sent(rest) =~= seq![Act::Packet(p)] + sent(data@.skip(end as int)));
            assert(acts(out@) + sent(data@.skip(end as int)) =~= acts(before) + sent(rest));
        }
        i = end;
    }
    assert(data@.skip(i as int) =~= Seq::<u8>::empty());
    assert(acts(out@) =~= acts(old(out)@) + sent(data@));
}

/// Sends a text to the host.
pub fn write_text(out: &mut Vec<Effect>, s: &str)
    ensures
        acts(final(out)@) == acts(old(out)@) + shown(s@),
{
    write_all(out, s.as_bytes());
}

/// Sends a text and a line break to the host.
pub fn write_line(out: &mut Vec<Effect>, s: &str)
    ensures
        acts(final(out)@) == acts(old(out)@) + shown_line(s@),
{
    let ghost start = acts(out@);
    write_text(out, s);
    write_text(out, "\r\n");
    assert(acts(out@) =~= start + shown_line(s@));
}

/// Sends the prompt to the host.
pub fn prompt(out: &mut Vec<Effect>)
    ensures
        acts(final(out)@) == acts(old(out)@) + shown("> "@),
{
    write_text(out, "> ");
}

/// Adds one effect that is not a packet.
pub fn push_effect(out: &mut Vec<Effect>, effect: Effect)
    ensures
        acts(final(out)@) == acts(old(out)@).push(effect@),
{
    out.push(effect);
    assert(acts(out@) =~= acts(old(out)@).push(effect@));
}

/// Every packet but the last is full: it holds 64 bytes.
pub proof fn packets_are_full(data: Seq<u8>)
    ensures
        forall|i: int|
            0 <= i < packets(data).len() - 1 ==> (#[trigger] packets(data)[i]).len() == 64,
    decreases data.len(),
{
    if data.len() > PACKET {
        let rest = data.skip(PACKET as int);
        packets_are_full(rest);
        assert forall|i: int| 0 <= i < packets(data).len() - 1 implies (#[trigger] packets(
            data,
        )[i]).len() == 64 by {
            if i > 0 {
                assert(packets(data)[i] == packets(rest)[i - 1]);
            }
        }
    }
}

/// A text that is shown reaches the host as it is, and one that is shown as a
/// line with a carriage return and a line feed behind it. Nothing else is asked
/// of the hardware.
pub proof fn shown_texts_reach_the_host(text: Seq<char>, i: int)
    ensures
        said(shown(text)) == encode_utf8(text),
        said(shown_line(text)) == encode_utf8(text) + seq![0x0du8, 0x0au8],
        0 <= i < shown(text).len() ==> shown(text)[i] is Packet,
        0 <= i < shown_line(text).len() ==> shown_line(text)[i] is Packet,
{
    sent_is_said(encode_utf8(text));
    sent_is_said(encode_utf8("\r\n"@));
    lemma_said_concat(shown(text), shown("\r\n"@));
    reveal_strlit("\r\n");
    is_ascii_chars_encode_utf8("\r\n"@);
    assert(encode_utf8("\r\n"@) =~= seq![0x0du8, 0x0au8]) by {
        assert("\r\n"@[0] == '\r' && "\r\n"@[1] == '\n');
    }
}

} // verus!
