//! The joystick: events of the Linux device, the sticks' latest positions, and
//! the button presses that events amount to.

use std::collections::HashMap;
use vstd::prelude::*;

verus! {

/// The size of an event.
pub const JS_EVENT_SIZE: usize = 8;

pub const JS_EVENT_BUTTON: u8 = 0x01;

pub const JS_EVENT_AXIS: u8 = 0x02;

/// Set in the events that only tell the state at the time of opening.
pub const JS_EVENT_INIT: u8 = 0x80;

/// An event.
#[derive(Clone, Copy, Debug, PartialEq, Eq, Structural)]
pub struct JsEvent {
    /// Milliseconds since boot.
    pub time: u32,
    /// A stick's position, or whether a button is down.
    pub value: i16,
    pub ev_type: u8,
    /// The stick or the button.
    pub number: u8,
}

/// The number of four bytes, the lowest first.
pub open spec fn le32(b: Seq<u8>) -> int {
    b[0] + 0x100 * b[1] + 0x1_0000 * b[2] + 0x100_0000 * b[3]
}

/// The signed number of two bytes, the lowest first.
pub open spec fn le16_signed(b: Seq<u8>) -> int {
    let n = b[0] + 0x100 * b[1];
    if n < 0x8000 {
        n
    } else {
        n - 0x1_0000
    }
}

/// The event in the first eight of a run of bytes.
pub open spec fn event_of(b: Seq<u8>) -> JsEvent {
    JsEvent {
        time: le32(b.subrange(0, 4)) as u32,
        value: le16_signed(b.subrange(4, 6)) as i16,
        ev_type: b[6],
        number: b[7],
    }
}

/// Reads an event from the first eight bytes.
pub fn parse_js_event(buf: &[u8]) -> (r: JsEvent)
    requires
        buf@.len() >= JS_EVENT_SIZE,
    ensures
        r == event_of(buf@),
{
    let time: u32 = buf[0] as u32 + 0x100 * buf[1] as u32 + 0x1_0000 * buf[2] as u32 + 0x100_0000
        * buf[3] as u32;
    let n: i32 = buf[4] as i32 + 0x100 * buf[5] as i32;
    let value: i16 = if n < 0x8000 {
        n as i16
    } else {
        (n - 0x1_0000) as i16
    };
    JsEvent { time, value, ev_type: buf[6], number: buf[7] }
}

/// Takes what a read of the device returned: an event if the read was whole.
/// Anything else, such as the end of the file, means that the device is gone.
pub fn read_event(buf: &[u8], n: usize) -> (r: Option<JsEvent>)
    requires
        buf@.len() >= JS_EVENT_SIZE,
    ensures
        r == (if n == JS_EVENT_SIZE { Some(event_of(buf@)) } else { None::<JsEvent> }),
{
    if n == JS_EVENT_SIZE {
        Some(parse_js_event(buf))
    } else {
        None
    }
}

impl JsEvent {
    /// The event only tells the state at the time of opening.
    pub open spec fn initial(self) -> bool {
        self.ev_type >= JS_EVENT_INIT
    }

    pub open spec fn of_axis(self) -> bool {
        self.ev_type % 0x80 == JS_EVENT_AXIS
    }

    pub open spec fn of_button(self) -> bool {
        self.ev_type % 0x80 == JS_EVENT_BUTTON
    }
}

/// The sticks' latest positions, by number.
#[derive(Debug)]
pub struct Snapshot {
    pub axes: Vec<i16>,
}

impl View for Snapshot {
    type V = Seq<i16>;

    open spec fn view(&self) -> Seq<i16> {
        self.axes@
    }
}

/// The position of a stick. A stick that has not been heard of is centred.
pub open spec fn position(axes: Seq<i16>, index: int) -> i16 {
    if 0 <= index < axes.len() {
        axes[index]
    } else {
        0
    }
}

/// What a stick reads, which is centred while the joystick is away.
pub open spec fn heard(axes: Seq<i16>, index: int, connected: bool) -> i16 {
    if connected {
        position(axes, index)
    } else {
        0
    }
}

/// The positions with one of them changed, and room made for it.
pub open spec fn moved(axes: Seq<i16>, number: int, value: i16) -> Seq<i16> {
    Seq::new(
        if number < axes.len() {
            axes.len()
        } else {
            (number + 1) as nat
        },
        |i: int|
            if i == number {
                value
            } else {
                position(axes, i)
            },
    )
}

/// As many positions, all centred.
pub open spec fn centred(axes: Seq<i16>) -> Seq<i16> {
    Seq::new(axes.len(), |i: int| 0i16)
}

impl Snapshot {
    /// No stick has been heard of.
    pub fn new() -> (r: Snapshot)
        ensures
            r@ == Seq::<i16>::empty(),
    {
        Snapshot { axes: Vec::new() }
    }

    /// Notes the position of a stick.
    pub fn set(&mut self, number: u8, value: i16)
        ensures
            final(self)@ == moved(old(self)@, number as int, value),
    {
        let n: usize = number as usize;
        while self.axes.len() <= n
            invariant
                self@.len() >= old(self)@.len(),
                self@.len() <= n + 1 || self@.len() == old(self)@.len(),
                forall|i: int| 0 <= i < self@.len() ==> self@[i] == position(old(self)@, i),
            decreases n + 1 - self.axes.len(),
        {
            self.axes.push(0);
        }
        self.axes[n] = value;
        assert(self@ =~= moved(old(self)@, number as int, value));
    }

    /// Centres every stick.
    pub fn centre(&mut self)
        ensures
            final(self)@ == centred(old(self)@),
    {
        let n: usize = self.axes.len();
        let mut i: usize = 0;
        while i < n
            invariant
                i <= n,
                n == self@.len(),
                n == old(self)@.len(),
                forall|j: int| 0 <= j < i ==> self@[j] == 0,
            decreases n - i,
        {
            self.axes[i] = 0;
            i += 1;
        }
        assert(self@ =~= centred(old(self)@));
    }

    /// The position of a stick, centred while the joystick is away.
    pub fn stick(&self, index: usize, connected: bool) -> (r: i16)
        ensures
            r == heard(self@, index as int, connected),
    {
        if connected && index < self.axes.len() {
            self.axes[index]
        } else {
            0
        }
    }
}

/// What the events of one connection have told of the buttons.
pub struct Reader {
    buttons: HashMap<u8, i16>,
}

impl View for Reader {
    type V = Map<u8, i16>;

    closed spec fn view(&self) -> Map<u8, i16> {
        self.buttons@
    }
}

/// The last value of a button. One that has not been heard of is up.
pub open spec fn button_value(buttons: Map<u8, i16>, number: u8) -> i16 {
    if buttons.dom().contains(number) {
        buttons[number]
    } else {
        0
    }
}

/// The press that an event amounts to: a button that was up goes down, other
/// than at the time of opening.
pub open spec fn press(buttons: Map<u8, i16>, ev: JsEvent) -> Option<u8> {
    if ev.of_button() && ev.value != 0 && button_value(buttons, ev.number) == 0 && !ev.initial() {
        Some(ev.number)
    } else {
        None
    }
}

/// The buttons after an event.
pub open spec fn buttons_after(buttons: Map<u8, i16>, ev: JsEvent) -> Map<u8, i16> {
    if ev.of_button() {
        buttons.insert(ev.number, ev.value)
    } else {
        buttons
    }
}

/// The sticks after an event.
pub open spec fn sticks_after(axes: Seq<i16>, ev: JsEvent) -> Seq<i16> {
    if ev.of_axis() {
        moved(axes, ev.number as int, ev.value)
    } else {
        axes
    }
}

impl Reader {
    /// No button has been heard of.
    pub fn new() -> (r: Reader)
        ensures
            r@ == Map::<u8, i16>::empty(),
    {
        Reader { buttons: HashMap::new() }
    }

    /// Takes an event; returns the button that it presses, if any.
    pub fn event(&mut self, snapshot: &mut Snapshot, ev: JsEvent) -> (r: Option<u8>)
        ensures
            final(self)@ == buttons_after(old(self)@, ev),
            final(snapshot)@ == sticks_after(old(snapshot)@, ev),
            r == press(old(self)@, ev),
    {
        broadcast use vstd::std_specs::hash::group_hash_axioms;

        let t: u8 = ev.ev_type;
        let is_init: bool = t & JS_EVENT_INIT != 0;
        let kind: u8 = t & !JS_EVENT_INIT;
        assert(t & 0x80 != 0 <==> t >= 0x80) by (bit_vector);
        assert(t & !0x80u8 == t % 0x80) by (bit_vector);
        if kind == JS_EVENT_AXIS {
            snapshot.set(ev.number, ev.value);
            None
        } else if kind == JS_EVENT_BUTTON {
            let prev: i16 = match self.buttons.insert(ev.number, ev.value) {
                Some(v) => v,
                None => 0,
            };
            if ev.value != 0 && prev == 0 && !is_init {
                Some(ev.number)
            } else {
                None
            }
        } else {
            None
        }
    }
}

/// The state of the connection to the joystick.
#[derive(Clone, Copy, Debug, PartialEq, Eq, Structural)]
pub struct Supervisor {
    pub connected: bool,
    /// A failure to open the device has been told already.
    pub warned: bool,
}

/// How long to wait after the joystick was lost, in milliseconds.
pub const LOST_WAIT_MS: u64 = 300;

/// How long to wait after the device could not be opened, in milliseconds.
pub const OPEN_WAIT_MS: u64 = 1000;

impl Supervisor {
    /// The state once the device is open.
    pub open spec fn found(self) -> Supervisor {
        Supervisor { connected: true, ..self }
    }

    /// The state once the device is gone.
    pub open spec fn bereft(self) -> Supervisor {
        Supervisor { connected: false, warned: false }
    }

    /// The state once the device could not be opened.
    pub open spec fn failed(self) -> Supervisor {
        Supervisor { warned: true, ..self }
    }

    /// Whether a failure to open the device is worth telling.
    pub open spec fn tells(self) -> bool {
        !self.warned
    }

    pub fn new() -> (r: Supervisor)
        ensures
            r == (Supervisor { connected: false, warned: false }),
    {
        Supervisor { connected: false, warned: false }
    }

    /// The device was opened: nothing of an earlier connection counts.
    pub fn opened(&mut self, snapshot: &mut Snapshot)
        ensures
            *final(self) == old(self).found(),
            final(snapshot)@ == centred(old(snapshot)@),
    {
        snapshot.centre();
        self.connected = true;
    }

    /// The device is gone: no stick keeps its last position. Returns how long
    /// to wait, in milliseconds.
    pub fn lost(&mut self, snapshot: &mut Snapshot) -> (r: u64)
        ensures
            *final(self) == old(self).bereft(),
            final(snapshot)@ == centred(old(snapshot)@),
            r == LOST_WAIT_MS,
    {
        self.connected = false;
        snapshot.centre();
        self.warned = false;
        LOST_WAIT_MS
    }

    /// The device could not be opened. Returns whether to tell, which is once
    /// until it has been open again, and how long to wait, in milliseconds.
    pub fn open_failed(&mut self) -> (r: (bool, u64))
        ensures
            *final(self) == old(self).failed(),
            r.0 == old(self).tells(),
            r.1 == OPEN_WAIT_MS,
    {
        let tell: bool = !self.warned;
        self.warned = true;
        (tell, OPEN_WAIT_MS)
    }
}

// --------------------------------------------------------------------------
// Laws
// --------------------------------------------------------------------------

/// A stick reads back the position of its last event, and no event of one
/// stick moves another.
pub proof fn sticks_read_back(axes: Seq<i16>, number: u8, value: i16, other: int)
    ensures
        position(moved(axes, number as int, value), number as int) == value,
        other != number ==> position(moved(axes, number as int, value), other) == position(
            axes,
            other,
        ),
{
}

/// Once the joystick is lost every stick reads as centred.
pub proof fn lost_sticks_are_centred(axes: Seq<i16>, index: int)
    ensures
        position(centred(axes), index) == 0,
{
}

/// A button that is held down presses once: after an event that says it is
/// down, no further such event presses, until one says that it is up.
pub proof fn held_buttons_press_once(buttons: Map<u8, i16>, down: JsEvent, again: JsEvent)
    requires
        down.of_button(),
        down.value != 0,
        again.number == down.number,
    ensures
        press(buttons_after(buttons, down), again) is None,
{
}

/// A button that was let go presses when it goes down again.
pub proof fn released_buttons_press_again(buttons: Map<u8, i16>, up: JsEvent, down: JsEvent)
    requires
        up.of_button(),
        up.value == 0,
        down.of_button(),
        down.value != 0,
        down.number == up.number,
        !down.initial(),
    ensures
        press(buttons_after(buttons, up), down) == Some(down.number),
{
}

/// Opening the device presses no button.
pub proof fn opening_presses_nothing(buttons: Map<u8, i16>, ev: JsEvent)
    requires
        ev.initial(),
    ensures
        press(buttons, ev) is None,
{
}

/// An event of a stick, at the time of opening or later, gives the stick that
/// it names its value, whatever the number; room is made for it where there is
/// none, with the sticks in between centred. Every other stick reads what it
/// read before, and no other event moves any.
pub proof fn events_move_their_stick(axes: Seq<i16>, ev: JsEvent, other: int)
    requires
        0 <= other,
        other != ev.number,
    ensures
        ({
            let after = sticks_after(axes, ev);
            &&& ev.ev_type == 0x02 || ev.ev_type == 0x82 ==> {
                &&& after.len() == (if ev.number < axes.len() {
                    axes.len() as int
                } else {
                    ev.number + 1
                })
                &&& after[ev.number as int] == ev.value
                &&& position(after, ev.number as int) == ev.value
                &&& position(after, other) == position(axes, other)
            }
            &&& ev.ev_type != 0x02 && ev.ev_type != 0x82 ==> after == axes
        }),
{
}

/// A stick reads the position that is noted for it, and centred where none is
/// or the joystick is away.
pub proof fn sticks_read_their_position(axes: Seq<i16>, index: int)
    requires
        0 <= index,
    ensures
        index < axes.len() ==> heard(axes, index, true) == axes[index],
        index >= axes.len() ==> heard(axes, index, true) == 0,
        heard(axes, index, false) == 0,
        index < axes.len() ==> position(axes, index) == axes[index],
        index >= axes.len() ==> position(axes, index) == 0,
        centred(axes).len() == axes.len(),
        index < axes.len() ==> centred(axes)[index] == 0,
{
}

/// An event of a button, at the time of opening or later, is what the button
/// is remembered by; every other button is remembered as before, and no other
/// event changes any.
pub proof fn events_are_remembered(buttons: Map<u8, i16>, ev: JsEvent, other: u8)
    requires
        other != ev.number,
    ensures
        ({
            let after = buttons_after(buttons, ev);
            &&& ev.ev_type == 0x01 || ev.ev_type == 0x81 ==> {
                &&& after.dom().contains(ev.number)
                &&& after[ev.number] == ev.value
                &&& after.dom().contains(other) == buttons.dom().contains(other)
                &&& buttons.dom().contains(other) ==> after[other] == buttons[other]
            }
            &&& ev.ev_type != 0x01 && ev.ev_type != 0x81 ==> after == buttons
        }),
{
}

/// An event presses a button exactly when it says, after the time of opening,
/// that the button is down, and the button was last heard to be up, or not
/// heard of at all. The button that is pressed is the one that the event names.
pub proof fn presses_are_told(buttons: Map<u8, i16>, ev: JsEvent)
    ensures
        press(buttons, ev) is Some <==> ev.ev_type == 0x01 && ev.value != 0 && (
        buttons.dom().contains(ev.number) ==> buttons[ev.number] == 0),
        press(buttons, ev) matches Some(n) ==> n == ev.number,
{
}

/// The eight bytes of an event are its time and its value, each with the low
/// byte first, its kind, and its number.
pub proof fn events_are_laid_out(b: Seq<u8>)
    requires
        b.len() >= 8,
    ensures
        ({
            let ev = event_of(b);
            &&& ev.time == b[0] + 256 * b[1] + 65_536 * b[2] + 16_777_216 * b[3]
            &&& ev.value >= 0 ==> ev.value == b[4] + 256 * b[5]
            &&& ev.value < 0 ==> ev.value + 65_536 == b[4] + 256 * b[5]
            &&& ev.ev_type == b[6]
            &&& ev.number == b[7]
        }),
{
    assert(b.subrange(0, 4)[0] == b[0] && b.subrange(0, 4)[1] == b[1]);
    assert(b.subrange(0, 4)[2] == b[2] && b.subrange(0, 4)[3] == b[3]);
    assert(b.subrange(4, 6)[0] == b[4] && b.subrange(4, 6)[1] == b[5]);
}

/// The joystick counts as connected from when it is opened until it is gone,
/// and failures to open it do not change that. A failure is told once: not again
/// until the joystick has been there and gone.
pub proof fn failures_are_told_once(s: Supervisor)
    ensures
        s.found().connected,
        !s.bereft().connected,
        s.failed().connected == s.connected,
        s.tells() == !s.warned,
        !s.failed().tells(),
        !s.failed().failed().tells(),
        s.found().tells() == s.tells(),
        s.bereft().tells(),
        LOST_WAIT_MS == 300,
        OPEN_WAIT_MS == 1000,
{
}

} // verus!
