//! What the event loop decides: the packet that carries each message, and
//! which events a round of polling reports, given what was seen last time.
//! Only changes are reported, so that the user is not flooded with events.
use vstd::prelude::*;

use crate::elevio::elev::{
    spec_call_type_code, spec_call_type_from_code, MotorDirection, spec_motor_direction_code, CallType, ElevatorEvent, ElevatorMessage,
};
use crate::elevio::sock::{
    call_button_light_packet, door_light_packet, floor_indicator_packet, motor_direction_packet,
    spec_call_button_light_packet, spec_door_light_packet, spec_floor_indicator_packet,
    spec_motor_direction_packet, spec_stop_button_light_packet, stop_button_light_packet,
};

verus! {

/// The packet that carries a message to the elevator.
pub open spec fn spec_message_packet(m: ElevatorMessage) -> Seq<u8> {
    match m {
        ElevatorMessage::MotorDirection { direction } =>
            spec_motor_direction_packet(spec_motor_direction_code(direction)),
        ElevatorMessage::CallButtonLight { on, floor, call } =>
            spec_call_button_light_packet(floor, spec_call_type_code(call), on),
        ElevatorMessage::FloorIndicatorLight { floor } => spec_floor_indicator_packet(floor),
        ElevatorMessage::DoorOpenLight { on } => spec_door_light_packet(on),
        ElevatorMessage::StopButtonLight { on } => spec_stop_button_light_packet(on),
    }
}

/// Translates a message into the packet that the elevator server expects.
pub fn message_packet(msg: &ElevatorMessage) -> (r: [u8; 4])
    ensures
        r@ == spec_message_packet(*msg),
{
    match *msg {
        ElevatorMessage::MotorDirection { direction } => motor_direction_packet(direction.code()),
        ElevatorMessage::CallButtonLight { on, floor, call } => call_button_light_packet(
            floor,
            call.code(),
            on,
        ),
        ElevatorMessage::FloorIndicatorLight { floor } => floor_indicator_packet(floor),
        ElevatorMessage::DoorOpenLight { on } => door_light_packet(on),
        ElevatorMessage::StopButtonLight { on } => stop_button_light_packet(on),
    }
}

/// Different messages are carried by different packets, so the elevator
/// server can always tell which message was sent.
pub proof fn lemma_message_packet_injective(a: ElevatorMessage, b: ElevatorMessage)
    requires
        spec_message_packet(a) == spec_message_packet(b),
    ensures
        a == b,
{
    let pa = spec_message_packet(a);
    let pb = spec_message_packet(b);
    assert(pa[0] == pb[0]);
    assert(pa[1] == pb[1]);
    assert(pa[2] == pb[2]);
    assert(pa[3] == pb[3]);
}

/// The call type polled at position `call` of a floor's row of buttons.
pub open spec fn spec_call_type_at(call: int) -> CallType {
    if call == 0 {
        CallType::HallUp
    } else if call == 1 {
        CallType::HallDown
    } else {
        CallType::Cab
    }
}

/// The event for one call button: reported only when the button is pressed
/// now and was not pressed at the previous poll.
pub open spec fn spec_call_event(floor: int, call: int, last: bool, now: bool) -> Seq<ElevatorEvent> {
    if now && !last {
        seq![ElevatorEvent::CallButton { floor: floor as u8, call: spec_call_type_at(call) }]
    } else {
        seq![]
    }
}

/// The events for the three call buttons of one floor, hall up first, then
/// hall down, then cab.
pub open spec fn spec_row_events(floor: int, last: [bool; 3], now: [bool; 3]) -> Seq<ElevatorEvent> {
    spec_call_event(floor, 0, last[0], now[0]) + spec_call_event(floor, 1, last[1], now[1])
        + spec_call_event(floor, 2, last[2], now[2])
}

/// The events of one poll of the call buttons of floors `0..n`, in floor order.
pub open spec fn spec_call_button_events(last: Seq<[bool; 3]>, now: Seq<[bool; 3]>, n: nat) -> Seq<
    ElevatorEvent,
>
    decreases n,
{
    if n == 0 {
        seq![]
    } else {
        spec_call_button_events(last, now, (n - 1) as nat) + spec_row_events(
            n - 1,
            last[n - 1],
            now[n - 1],
        )
    }
}

/// The event of one poll of the floor sensor: a floor is reported when the
/// cabin is at a floor other than the one last seen; being between floors
/// is never reported.
pub open spec fn spec_floor_event(last: u8, reading: Option<u8>) -> Option<ElevatorEvent> {
    match reading {
        Some(f) => if f != last {
            Some(ElevatorEvent::FloorSensor { floor: f })
        } else {
            None
        },
        None => None,
    }
}

/// The floor remembered after a poll of the floor sensor: the floor read,
/// or `u8::MAX` when the cabin is between floors.
pub open spec fn spec_floor_after(reading: Option<u8>) -> u8 {
    match reading {
        Some(f) => f,
        None => 255,
    }
}

/// The event of one poll of the stop button: its new state, when it changed.
pub open spec fn spec_stop_button_event(last: bool, now: bool) -> Option<ElevatorEvent> {
    if now != last {
        Some(ElevatorEvent::StopButton { stopped: now })
    } else {
        None
    }
}

/// The event of one poll of the obstruction switch: its new state, when it
/// changed.
pub open spec fn spec_obstruction_event(last: bool, now: bool) -> Option<ElevatorEvent> {
    if now != last {
        Some(ElevatorEvent::Obstruction { obstructed: now })
    } else {
        None
    }
}

/// Last value seen of every polled input. Only changes against it are
/// reported, which keeps the user from being flooded with events.
pub struct ElevatorCurrentState {
    /// Per floor, whether the hall up, hall down and cab buttons were pressed.
    pub call_buttons: Vec<[bool; 3]>,
    /// The floor last seen, `u8::MAX` when between floors (or never seen).
    pub floor_sensor: u8,
    /// Whether the stop button was pressed.
    pub stop_button: bool,
    /// Whether the door was obstructed.
    pub obstruction: bool,
}

impl ElevatorCurrentState {
    /// A state holds buttons for at most as many floors as a `u8` counts.
    pub open spec fn wf(&self) -> bool {
        self.call_buttons@.len() <= 255
    }

    /// The state of an elevator of `num_floors` floors before any poll:
    /// no button pressed, no floor seen, no stop, no obstruction.
    pub fn new(num_floors: u8) -> (r: Self)
        ensures
            r.wf(),
            r.call_buttons@.len() == num_floors,
            forall|f: int|
                0 <= f < num_floors ==> #[trigger] r.call_buttons@[f]@ == seq![false, false, false],
            r.floor_sensor == u8::MAX,
            !r.stop_button,
            !r.obstruction,
    {
        let mut call_buttons: Vec<[bool; 3]> = Vec::new();
        let mut i: u8 = 0;
        while i < num_floors
            invariant
                i <= num_floors,
                call_buttons@.len() == i,
                forall|f: int|
                    0 <= f < i ==> #[trigger] call_buttons@[f]@ == seq![false, false, false],
            decreases num_floors - i,
        {
            let row = [false, false, false];
            assert(row@ =~= seq![false, false, false]);
            call_buttons.push(row);
            i = i + 1;
        }
        ElevatorCurrentState {
            call_buttons,
            floor_sensor: u8::MAX,
            stop_button: false,
            obstruction: false,
        }
    }

    /// Polls the call buttons: `pressed[f]` holds the hall up, hall down
    /// and cab buttons of floor `f` as just read. Returns the events of the
    /// buttons that became pressed, floor by floor, and remembers `pressed`.
    pub fn poll_call_buttons_state(&mut self, pressed: &Vec<[bool; 3]>) -> (r: Vec<ElevatorEvent>)
        requires
            old(self).wf(),
            pressed@.len() == old(self).call_buttons@.len(),
        ensures
            final(self).wf(),
            r@ == spec_call_button_events(
                old(self).call_buttons@,
                pressed@,
                pressed@.len(),
            ),
            final(self).call_buttons@ == pressed@,
            final(self).floor_sensor == old(self).floor_sensor,
            final(self).stop_button == old(self).stop_button,
            final(self).obstruction == old(self).obstruction,
    {
        let ghost last = self.call_buttons@;
        let n = self.call_buttons.len();
        let mut events: Vec<ElevatorEvent> = Vec::new();
        let mut f: usize = 0;
        while f < n
            invariant
                f <= n,
                n == self.call_buttons@.len(),
                n == last.len(),
                n <= 255,
                pressed@.len() == n,
                events@ == spec_call_button_events(last, pressed@, f as nat),
                forall|i: int| 0 <= i < f ==> #[trigger] self.call_buttons@[i] == pressed@[i],
                forall|i: int| f <= i < n ==> #[trigger] self.call_buttons@[i] == last[i],
                self.floor_sensor == old(self).floor_sensor,
                self.stop_button == old(self).stop_button,
                self.obstruction == old(self).obstruction,
            decreases n - f,
        {
            let was = self.call_buttons[f];
            let now = pressed[f];
            push_row_events(&mut events, f as u8, was, now);
            self.call_buttons.set(f, now);
            f = f + 1;
        }
        assert(self.call_buttons@ =~= pressed@);
        events
    }

    /// Polls the floor sensor, `floor` being the floor just read (`None`
    /// between floors). Returns the event of a newly reached floor.
    pub fn poll_floor_sensor_state(&mut self, floor: Option<u8>) -> (r: Option<ElevatorEvent>)
        requires
            old(self).wf(),
        ensures
            final(self).wf(),
            r == spec_floor_event(old(self).floor_sensor, floor),
            final(self).floor_sensor == spec_floor_after(floor),
            final(self).call_buttons@ == old(self).call_buttons@,
            final(self).stop_button == old(self).stop_button,
            final(self).obstruction == old(self).obstruction,
    {
        match floor {
            Some(f) => {
                if f != self.floor_sensor {
                    self.floor_sensor = f;
                    Some(ElevatorEvent::FloorSensor { floor: f })
                } else {
                    None
                }
            },
            None => {
                self.floor_sensor = u8::MAX;
                None
            },
        }
    }

    /// Polls the stop button, `pressed` being its state just read. Returns
    /// its new state as an event when it changed.
    pub fn poll_stop_button_state(&mut self, pressed: bool) -> (r: Option<ElevatorEvent>)
        requires
            old(self).wf(),
        ensures
            final(self).wf(),
            r == spec_stop_button_event(old(self).stop_button, pressed),
            final(self).stop_button == pressed,
            final(self).call_buttons@ == old(self).call_buttons@,
            final(self).floor_sensor == old(self).floor_sensor,
            final(self).obstruction == old(self).obstruction,
    {
        if self.stop_button != pressed {
            self.stop_button = pressed;
            Some(ElevatorEvent::StopButton { stopped: pressed })
        } else {
            None
        }
    }

    /// Polls the door obstruction switch, `obstructed` being its state just
    /// read. Returns its new state as an event when it changed.
    pub fn poll_obstruction_sensor_state(&mut self, obstructed: bool) -> (r: Option<ElevatorEvent>)
        requires
            old(self).wf(),
        ensures
            final(self).wf(),
            r == spec_obstruction_event(old(self).obstruction, obstructed),
            final(self).obstruction == obstructed,
            final(self).call_buttons@ == old(self).call_buttons@,
            final(self).floor_sensor == old(self).floor_sensor,
            final(self).stop_button == old(self).stop_button,
    {
        if self.obstruction != obstructed {
            self.obstruction = obstructed;
            Some(ElevatorEvent::Obstruction { obstructed })
        } else {
            None
        }
    }
}

/// Appends the event of one call button.
fn push_call_event(events: &mut Vec<ElevatorEvent>, floor: u8, call: usize, was: bool, now: bool)
    requires
        call < 3,
    ensures
        final(events)@ == old(events)@ + spec_call_event(floor as int, call as int, was, now),
{
    if now && !was {
        let c = if call == 0 {
            CallType::HallUp
        } else if call == 1 {
            CallType::HallDown
        } else {
            CallType::Cab
        };
        events.push(ElevatorEvent::CallButton { floor, call: c });
    }
    assert(events@ =~= old(events)@ + spec_call_event(floor as int, call as int, was, now));
}

/// Appends the events of the three call buttons of one floor.
fn push_row_events(events: &mut Vec<ElevatorEvent>, floor: u8, was: [bool; 3], now: [bool; 3])
    ensures
        final(events)@ == old(events)@ + spec_row_events(floor as int, was, now),
{
    push_call_event(events, floor, 0, was[0], now[0]);
    push_call_event(events, floor, 1, was[1], now[1]);
    push_call_event(events, floor, 2, was[2], now[2]);
    assert(events@ =~= old(events)@ + spec_row_events(floor as int, was, now));
}

/// Polling again with the readings that the previous poll stored reports
/// nothing: no call button, no floor, no stop button and no obstruction
/// event. Events are sent on changes only.
pub proof fn lemma_repeated_poll_is_silent(
    pressed: Seq<[bool; 3]>,
    floor: Option<u8>,
    stopped: bool,
    obstructed: bool,
)
    ensures
        spec_call_button_events(pressed, pressed, pressed.len()) == Seq::<ElevatorEvent>::empty(),
        spec_floor_event(spec_floor_after(floor), floor) is None,
        spec_stop_button_event(stopped, stopped) is None,
        spec_obstruction_event(obstructed, obstructed) is None,
{
    lemma_unchanged_buttons_are_silent(pressed, pressed.len());
}

proof fn lemma_unchanged_buttons_are_silent(pressed: Seq<[bool; 3]>, n: nat)
    ensures
        spec_call_button_events(pressed, pressed, n) == Seq::<ElevatorEvent>::empty(),
    decreases n,
{
    if n > 0 {
        lemma_unchanged_buttons_are_silent(pressed, (n - 1) as nat);
        assert(spec_row_events(n - 1, pressed[n - 1], pressed[n - 1]) =~= Seq::<ElevatorEvent>::empty());
        assert(spec_call_button_events(pressed, pressed, n) =~= Seq::<ElevatorEvent>::empty());
    }
}

/// A poll of the call buttons reports the button `call` of `floor` exactly
/// when the floor is polled, the button is pressed now, and it was not
/// pressed at the previous poll.
pub proof fn lemma_call_button_reported_iff_newly_pressed(
    last: Seq<[bool; 3]>,
    now: Seq<[bool; 3]>,
    floor: u8,
    call: CallType,
)
    requires
        now.len() == last.len(),
        now.len() <= 255,
    ensures
        spec_call_button_events(last, now, now.len()).contains(
            ElevatorEvent::CallButton { floor, call },
        ) <==> (floor < now.len() && now[floor as int][spec_call_type_code(call) as int]
            && !last[floor as int][spec_call_type_code(call) as int]),
{
    lemma_events_contain_new_presses(last, now, now.len(), floor, call);
}

proof fn lemma_events_contain_new_presses(
    last: Seq<[bool; 3]>,
    now: Seq<[bool; 3]>,
    n: nat,
    floor: u8,
    call: CallType,
)
    requires
        n <= now.len(),
        n <= last.len(),
        n <= 255,
    ensures
        spec_call_button_events(last, now, n).contains(ElevatorEvent::CallButton { floor, call })
            <==> (floor < n && now[floor as int][spec_call_type_code(call) as int]
            && !last[floor as int][spec_call_type_code(call) as int]),
    decreases n,
{
    broadcast use vstd::seq_lib::lemma_seq_concat_contains_all_elements;
    broadcast use vstd::seq_lib::lemma_seq_empty_contains_nothing;

    let e = ElevatorEvent::CallButton { floor, call };
    if n > 0 {
        lemma_events_contain_new_presses(last, now, (n - 1) as nat, floor, call);
        lemma_row_contains(n - 1, last[n - 1], now[n - 1], e);
    }
}

proof fn lemma_row_contains(f: int, last: [bool; 3], now: [bool; 3], e: ElevatorEvent)
    requires
        0 <= f < 255,
    ensures
        spec_row_events(f, last, now).contains(e) <==> (e matches ElevatorEvent::CallButton {
            floor,
            call,
        } && floor == f && now[spec_call_type_code(call) as int]
            && !last[spec_call_type_code(call) as int]),
{
    broadcast use vstd::seq_lib::lemma_seq_concat_contains_all_elements;

    lemma_call_event_contains(f, 0, last[0], now[0], e);
    lemma_call_event_contains(f, 1, last[1], now[1], e);
    lemma_call_event_contains(f, 2, last[2], now[2], e);
}

proof fn lemma_call_event_contains(f: int, c: int, last: bool, now: bool, e: ElevatorEvent)
    requires
        0 <= f < 255,
        0 <= c < 3,
    ensures
        spec_call_event(f, c, last, now).contains(e) <==> (now && !last
            && e == ElevatorEvent::CallButton { floor: f as u8, call: spec_call_type_at(c) }),
{
    broadcast use vstd::seq_lib::lemma_seq_empty_contains_nothing;

    let s = spec_call_event(f, c, last, now);
    if now && !last {
        assert(s[0] == ElevatorEvent::CallButton { floor: f as u8, call: spec_call_type_at(c) });
    }
}

/// The floor sensor reports a floor exactly when the cabin is at a floor
/// other than the one remembered; being between floors is never reported,
/// and it is remembered as `u8::MAX`.
pub proof fn lemma_floor_reported_iff_new_floor(last: u8, reading: Option<u8>)
    ensures
        spec_floor_event(last, reading) is Some <==> (reading matches Some(f) && f != last),
        spec_floor_event(last, reading) matches Some(e) ==> (reading matches Some(f)
            && e == ElevatorEvent::FloorSensor { floor: f }),
        reading is None ==> spec_floor_after(reading) == u8::MAX,
{
}

/// A sequence holding the event of one poll, if there is one.
pub open spec fn spec_event_seq(e: Option<ElevatorEvent>) -> Seq<ElevatorEvent> {
    match e {
        Some(e) => seq![e],
        None => seq![],
    }
}

/// The value of a yes/no input remembered after the polls `readings`,
/// starting from `last`.
pub open spec fn spec_flag_after(last: bool, readings: Seq<bool>) -> bool {
    if readings.len() == 0 {
        last
    } else {
        readings.last()
    }
}

/// How many times the readings change, starting from `last`.
pub open spec fn spec_flag_changes(last: bool, readings: Seq<bool>) -> nat
    decreases readings.len(),
{
    if readings.len() == 0 {
        0
    } else {
        let before = readings.drop_last();
        spec_flag_changes(last, before) + if readings.last() != spec_flag_after(last, before) {
            1nat
        } else {
            0nat
        }
    }
}

/// The stop button events of successive calls of `poll_stop_button_state`
/// with the readings `readings`, starting from the remembered value `last`.
pub open spec fn spec_stop_button_events(last: bool, readings: Seq<bool>) -> Seq<ElevatorEvent>
    decreases readings.len(),
{
    if readings.len() == 0 {
        seq![]
    } else {
        let before = readings.drop_last();
        spec_stop_button_events(last, before) + spec_event_seq(
            spec_stop_button_event(spec_flag_after(last, before), readings.last()),
        )
    }
}

/// The obstruction events of successive calls of
/// `poll_obstruction_sensor_state` with the readings `readings`, starting
/// from the remembered value `last`.
pub open spec fn spec_obstruction_events(last: bool, readings: Seq<bool>) -> Seq<ElevatorEvent>
    decreases readings.len(),
{
    if readings.len() == 0 {
        seq![]
    } else {
        let before = readings.drop_last();
        spec_obstruction_events(last, before) + spec_event_seq(
            spec_obstruction_event(spec_flag_after(last, before), readings.last()),
        )
    }
}

/// The value carried by the change number `i` (from 0) of a yes/no input
/// that starts at `last`: changes alternate between `!last` and `last`.
pub open spec fn spec_nth_change(last: bool, i: int) -> bool {
    if i % 2 == 0 {
        !last
    } else {
        last
    }
}

/// The value of a yes/no input that starts at `last` after `n` changes.
pub open spec fn spec_flag_after_changes(last: bool, n: nat) -> bool {
    if n % 2 == 0 {
        last
    } else {
        !last
    }
}

/// Stop button events alternate, the event number `i` carrying
/// `spec_nth_change(last, i)`.
pub open spec fn spec_stop_button_events_alternate(events: Seq<ElevatorEvent>, last: bool) -> bool {
    forall|i: int|
        0 <= i < events.len() ==> #[trigger] events[i] == (ElevatorEvent::StopButton {
            stopped: spec_nth_change(last, i),
        })
}

/// Obstruction events alternate, the event number `i` carrying
/// `spec_nth_change(last, i)`.
pub open spec fn spec_obstruction_events_alternate(events: Seq<ElevatorEvent>, last: bool) -> bool {
    forall|i: int|
        0 <= i < events.len() ==> #[trigger] events[i] == (ElevatorEvent::Obstruction {
            obstructed: spec_nth_change(last, i),
        })
}

/// Over any number of polls of the stop button, starting from the released
/// button of a new state (`last == false`) or from any other remembered
/// value, the events alternate: the first carries `!last`, the next `last`,
/// and so on, never twice the same value in a row. There is exactly one
/// event per change of the reading.
pub proof fn lemma_stop_button_events_alternate(last: bool, readings: Seq<bool>)
    ensures
        spec_stop_button_events(last, readings).len() == spec_flag_changes(last, readings),
        spec_stop_button_events_alternate(spec_stop_button_events(last, readings), last),
        spec_flag_after(last, readings) == spec_flag_after_changes(last, spec_flag_changes(last, readings)),
    decreases readings.len(),
{
    if readings.len() > 0 {
        let before = readings.drop_last();
        lemma_stop_button_events_alternate(last, before);
        let prev = spec_stop_button_events(last, before);
        let cur = spec_stop_button_events(last, readings);
        assert forall|i: int| 0 <= i < cur.len() implies #[trigger] cur[i]
            == (ElevatorEvent::StopButton { stopped: spec_nth_change(last, i) }) by {
            if i < prev.len() {
                assert(cur[i] == prev[i]);
            }
        }
    }
}

/// Over any number of polls of the obstruction switch, starting from the
/// unobstructed door of a new state (`last == false`) or from any other
/// remembered value, the events alternate: the first carries `!last`, the
/// next `last`, and so on. There is exactly one event per change of the
/// reading.
pub proof fn lemma_obstruction_events_alternate(last: bool, readings: Seq<bool>)
    ensures
        spec_obstruction_events(last, readings).len() == spec_flag_changes(last, readings),
        spec_obstruction_events_alternate(spec_obstruction_events(last, readings), last),
        spec_flag_after(last, readings) == spec_flag_after_changes(last, spec_flag_changes(last, readings)),
    decreases readings.len(),
{
    if readings.len() > 0 {
        let before = readings.drop_last();
        lemma_obstruction_events_alternate(last, before);
        let prev = spec_obstruction_events(last, before);
        let cur = spec_obstruction_events(last, readings);
        assert forall|i: int| 0 <= i < cur.len() implies #[trigger] cur[i]
            == (ElevatorEvent::Obstruction { obstructed: spec_nth_change(last, i) }) by {
            if i < prev.len() {
                assert(cur[i] == prev[i]);
            }
        }
    }
}

/// The events sent by a run of polls, each poll sending its event if it has
/// one, in order.
pub open spec fn spec_sent_events(results: Seq<Option<ElevatorEvent>>) -> Seq<ElevatorEvent>
    decreases results.len(),
{
    if results.len() == 0 {
        seq![]
    } else {
        spec_sent_events(results.drop_last()) + spec_event_seq(results.last())
    }
}

/// A run of successive calls of `poll_stop_button_state`: call number `k` finds
/// `stored[k]` remembered and reads `readings[k]`; as the call's contract
/// says, it returns `results[k]` and leaves `stored[k + 1]` remembered.
pub open spec fn spec_stop_button_run(
    stored: Seq<bool>,
    readings: Seq<bool>,
    results: Seq<Option<ElevatorEvent>>,
) -> bool {
    &&& stored.len() == readings.len() + 1
    &&& results.len() == readings.len()
    &&& forall|k: int|
        0 <= k < readings.len() ==> #[trigger] results[k] == spec_stop_button_event(stored[k], readings[k])
            && stored[k + 1] == readings[k]
}

/// Any run of successive calls of `poll_stop_button_state`, from the state
/// made by `ElevatorCurrentState::new` (`stored[0] == false`) or any other,
/// sends exactly the events of the model `spec_stop_button_events`: one
/// per change of the reading, alternating between `!stored[0]` and
/// `stored[0]`, and leaves the last reading remembered.
pub proof fn lemma_stop_button_run_alternates(
    stored: Seq<bool>,
    readings: Seq<bool>,
    results: Seq<Option<ElevatorEvent>>,
)
    requires
        spec_stop_button_run(stored, readings, results),
    ensures
        spec_sent_events(results) == spec_stop_button_events(stored[0], readings),
        spec_sent_events(results).len() == spec_flag_changes(stored[0], readings),
        spec_stop_button_events_alternate(spec_sent_events(results), stored[0]),
        stored.last() == spec_flag_after(stored[0], readings),
    decreases readings.len(),
{
    lemma_stop_button_events_alternate(stored[0], readings);
    if readings.len() > 0 {
        let n = readings.len() - 1;
        let (s0, r0, e0) = (stored.drop_last(), readings.drop_last(), results.drop_last());
        assert forall|k: int| 0 <= k < r0.len() implies #[trigger] e0[k] == spec_stop_button_event(
            s0[k],
            r0[k],
        ) && s0[k + 1] == r0[k] by {
            assert(results[k] == spec_stop_button_event(stored[k], readings[k]));
        }
        lemma_stop_button_run_alternates(s0, r0, e0);
        assert(results[n] == spec_stop_button_event(stored[n], readings[n]));
        assert(s0.last() == stored[n]);
    }
}

/// A run of successive calls of `poll_obstruction_sensor_state`: call number `k` finds
/// `stored[k]` remembered and reads `readings[k]`; as the call's contract
/// says, it returns `results[k]` and leaves `stored[k + 1]` remembered.
pub open spec fn spec_obstruction_run(
    stored: Seq<bool>,
    readings: Seq<bool>,
    results: Seq<Option<ElevatorEvent>>,
) -> bool {
    &&& stored.len() == readings.len() + 1
    &&& results.len() == readings.len()
    &&& forall|k: int|
        0 <= k < readings.len() ==> #[trigger] results[k] == spec_obstruction_event(stored[k], readings[k])
            && stored[k + 1] == readings[k]
}

/// Any run of successive calls of `poll_obstruction_sensor_state`, from the state
/// made by `ElevatorCurrentState::new` (`stored[0] == false`) or any other,
/// sends exactly the events of the model `spec_obstruction_events`: one
/// per change of the reading, alternating between `!stored[0]` and
/// `stored[0]`, and leaves the last reading remembered.
pub proof fn lemma_obstruction_run_alternates(
    stored: Seq<bool>,
    readings: Seq<bool>,
    results: Seq<Option<ElevatorEvent>>,
)
    requires
        spec_obstruction_run(stored, readings, results),
    ensures
        spec_sent_events(results) == spec_obstruction_events(stored[0], readings),
        spec_sent_events(results).len() == spec_flag_changes(stored[0], readings),
        spec_obstruction_events_alternate(spec_sent_events(results), stored[0]),
        stored.last() == spec_flag_after(stored[0], readings),
    decreases readings.len(),
{
    lemma_obstruction_events_alternate(stored[0], readings);
    if readings.len() > 0 {
        let n = readings.len() - 1;
        let (s0, r0, e0) = (stored.drop_last(), readings.drop_last(), results.drop_last());
        assert forall|k: int| 0 <= k < r0.len() implies #[trigger] e0[k] == spec_obstruction_event(
            s0[k],
            r0[k],
        ) && s0[k + 1] == r0[k] by {
            assert(results[k] == spec_obstruction_event(stored[k], readings[k]));
        }
        lemma_obstruction_run_alternates(s0, r0, e0);
        assert(results[n] == spec_obstruction_event(stored[n], readings[n]));
        assert(s0.last() == stored[n]);
    }
}

/// The place of a call button event in polling order: floor by floor, and
/// within a floor hall up, hall down, then cab. Other events have none.
pub open spec fn spec_call_order(e: ElevatorEvent) -> int {
    match e {
        ElevatorEvent::CallButton { floor, call } => 3 * floor + spec_call_type_code(call),
        _ => -1,
    }
}

/// A sequence of call button events that are strictly in polling order.
pub open spec fn spec_in_poll_order(s: Seq<ElevatorEvent>) -> bool {
    &&& forall|i: int| 0 <= i < s.len() ==> #[trigger] s[i] is CallButton
    &&& forall|i: int, j: int|
        0 <= i < j < s.len() ==> spec_call_order(#[trigger] s[i]) < spec_call_order(#[trigger] s[j])
}

proof fn lemma_in_poll_order_concat(x: Seq<ElevatorEvent>, y: Seq<ElevatorEvent>)
    requires
        spec_in_poll_order(x),
        spec_in_poll_order(y),
        forall|i: int, j: int|
            0 <= i < x.len() && 0 <= j < y.len() ==> spec_call_order(#[trigger] x[i])
                < spec_call_order(#[trigger] y[j]),
    ensures
        spec_in_poll_order(x + y),
{
    let z = x + y;
    assert forall|i: int| 0 <= i < z.len() implies #[trigger] z[i] is CallButton by {
        if i < x.len() {
            assert(z[i] == x[i]);
        } else {
            assert(z[i] == y[i - x.len()]);
        }
    }
    assert forall|i: int, j: int| 0 <= i < j < z.len() implies spec_call_order(#[trigger] z[i])
        < spec_call_order(#[trigger] z[j]) by {
        if j < x.len() {
            assert(z[i] == x[i] && z[j] == x[j]);
        } else if i >= x.len() {
            assert(z[i] == y[i - x.len()] && z[j] == y[j - x.len()]);
        } else {
            assert(z[i] == x[i] && z[j] == y[j - x.len()]);
        }
    }
}

proof fn lemma_call_event_order(f: int, c: int, last: bool, now: bool)
    requires
        0 <= f < 255,
        0 <= c < 3,
    ensures
        spec_in_poll_order(spec_call_event(f, c, last, now)),
        forall|i: int|
            0 <= i < spec_call_event(f, c, last, now).len() ==> spec_call_order(
                #[trigger] spec_call_event(f, c, last, now)[i],
            ) == 3 * f + c,
{
}

proof fn lemma_row_order(f: int, last: [bool; 3], now: [bool; 3])
    requires
        0 <= f < 255,
    ensures
        spec_in_poll_order(spec_row_events(f, last, now)),
        forall|i: int|
            0 <= i < spec_row_events(f, last, now).len() ==> 3 * f <= spec_call_order(
                #[trigger] spec_row_events(f, last, now)[i],
            ) < 3 * f + 3,
{
    let a = spec_call_event(f, 0, last[0], now[0]);
    let b = spec_call_event(f, 1, last[1], now[1]);
    let c = spec_call_event(f, 2, last[2], now[2]);
    lemma_call_event_order(f, 0, last[0], now[0]);
    lemma_call_event_order(f, 1, last[1], now[1]);
    lemma_call_event_order(f, 2, last[2], now[2]);
    lemma_in_poll_order_concat(a, b);
    let ab = a + b;
    assert forall|i: int| 0 <= i < ab.len() implies spec_call_order(#[trigger] ab[i]) <= 3 * f
        + 1 by {
        if i < a.len() {
            assert(ab[i] == a[i]);
        } else {
            assert(ab[i] == b[i - a.len()]);
        }
    }
    lemma_in_poll_order_concat(ab, c);
    let r = ab + c;
    assert forall|i: int| 0 <= i < r.len() implies 3 * f <= spec_call_order(#[trigger] r[i]) < 3
        * f + 3 by {
        if i < ab.len() {
            assert(r[i] == ab[i]);
            if i < a.len() {
                assert(ab[i] == a[i]);
            } else {
                assert(ab[i] == b[i - a.len()]);
            }
        } else {
            assert(r[i] == c[i - ab.len()]);
        }
    }
}

proof fn lemma_events_order(last: Seq<[bool; 3]>, now: Seq<[bool; 3]>, n: nat)
    requires
        n <= now.len(),
        n <= last.len(),
        n <= 255,
    ensures
        spec_in_poll_order(spec_call_button_events(last, now, n)),
        forall|i: int|
            0 <= i < spec_call_button_events(last, now, n).len() ==> 0 <= spec_call_order(
                #[trigger] spec_call_button_events(last, now, n)[i],
            ) < 3 * n,
    decreases n,
{
    if n > 0 {
        let p = spec_call_button_events(last, now, (n - 1) as nat);
        let r = spec_row_events(n - 1, last[n - 1], now[n - 1]);
        lemma_events_order(last, now, (n - 1) as nat);
        lemma_row_order(n - 1, last[n - 1], now[n - 1]);
        lemma_in_poll_order_concat(p, r);
        let e = p + r;
        assert forall|i: int| 0 <= i < e.len() implies 0 <= spec_call_order(#[trigger] e[i]) < 3
            * n by {
            if i < p.len() {
                assert(e[i] == p[i]);
            } else {
                assert(e[i] == r[i - p.len()]);
            }
        }
    }
}

/// A poll of the call buttons reports each newly pressed button once and
/// only once: the events come strictly in polling order (floor by floor,
/// then hall up, hall down, cab), so no button is reported twice, and each
/// one reported is a button of a polled floor.
pub proof fn lemma_call_button_events_distinct(last: Seq<[bool; 3]>, now: Seq<[bool; 3]>)
    requires
        now.len() == last.len(),
        now.len() <= 255,
    ensures
        spec_in_poll_order(spec_call_button_events(last, now, now.len())),
        spec_call_button_events(last, now, now.len()).no_duplicates(),
        forall|i: int|
            0 <= i < spec_call_button_events(last, now, now.len()).len() ==> (
            #[trigger] spec_call_button_events(last, now, now.len())[i] matches ElevatorEvent::CallButton {
                floor,
                ..
            } && floor < now.len()),
{
    let e = spec_call_button_events(last, now, now.len());
    lemma_events_order(last, now, now.len());
    assert forall|i: int, j: int| 0 <= i < e.len() && 0 <= j < e.len() && i != j implies e[i]
        != e[j] by {
        if i < j {
            assert(spec_call_order(e[i]) < spec_call_order(e[j]));
        } else {
            assert(spec_call_order(e[j]) < spec_call_order(e[i]));
        }
    }
    assert forall|i: int| 0 <= i < e.len() implies (#[trigger] e[i] matches ElevatorEvent::CallButton {
        floor,
        ..
    } && floor < now.len()) by {
        assert(0 <= spec_call_order(e[i]) < 3 * now.len());
    }
}

/// What each byte of a message's packet says. The first byte names the
/// command (1 motor, 2 call light, 3 floor indicator, 4 door light, 5 stop
/// light). A motor packet carries `u8::MAX` for down, 0 for stop and 1 for
/// up. A call light packet carries in its second byte the code that
/// `CallType::try_from` reads back as the call type of the message, the
/// floor in its third byte, and 1 for on, 0 for off in its fourth. A light
/// packet's switch byte is 1 for on and 0 for off, and unused bytes are 0.
pub proof fn lemma_message_packet_layout(m: ElevatorMessage)
    ensures
        spec_message_packet(m).len() == 4,
        m matches ElevatorMessage::MotorDirection { direction } ==> {
            &&& spec_message_packet(m)[0] == 1
            &&& direction == MotorDirection::Down ==> spec_message_packet(m)[1] == u8::MAX
            &&& direction == MotorDirection::Stop ==> spec_message_packet(m)[1] == 0
            &&& direction == MotorDirection::Up ==> spec_message_packet(m)[1] == 1
            &&& spec_message_packet(m)[2] == 0 && spec_message_packet(m)[3] == 0
        },
        m matches ElevatorMessage::CallButtonLight { on, floor, call } ==> {
            &&& spec_message_packet(m)[0] == 2
            &&& spec_call_type_from_code(spec_message_packet(m)[1]) == Ok::<CallType, ()>(call)
            &&& spec_message_packet(m)[2] == floor
            &&& spec_message_packet(m)[3] == (if on { 1u8 } else { 0u8 })
        },
        m matches ElevatorMessage::FloorIndicatorLight { floor } ==> {
            &&& spec_message_packet(m)[0] == 3
            &&& spec_message_packet(m)[1] == floor
            &&& spec_message_packet(m)[2] == 0 && spec_message_packet(m)[3] == 0
        },
        m matches ElevatorMessage::DoorOpenLight { on } ==> {
            &&& spec_message_packet(m)[0] == 4
            &&& spec_message_packet(m)[1] == (if on { 1u8 } else { 0u8 })
            &&& spec_message_packet(m)[2] == 0 && spec_message_packet(m)[3] == 0
        },
        m matches ElevatorMessage::StopButtonLight { on } ==> {
            &&& spec_message_packet(m)[0] == 5
            &&& spec_message_packet(m)[1] == (if on { 1u8 } else { 0u8 })
            &&& spec_message_packet(m)[2] == 0 && spec_message_packet(m)[3] == 0
        },
{
}

/// A poll of the stop button reports exactly when the button differs from
/// the remembered state, and the event carries the state just read.
pub proof fn lemma_stop_button_reported_iff_changed(last: bool, now: bool)
    ensures
        spec_stop_button_event(last, now) is Some <==> now != last,
        spec_stop_button_event(last, now) matches Some(e) ==> e == (ElevatorEvent::StopButton {
            stopped: now,
        }),
{
}

/// A poll of the obstruction switch reports exactly when the switch differs
/// from the remembered state, and the event carries the state just read.
pub proof fn lemma_obstruction_reported_iff_changed(last: bool, now: bool)
    ensures
        spec_obstruction_event(last, now) is Some <==> now != last,
        spec_obstruction_event(last, now) matches Some(e) ==> e == (ElevatorEvent::Obstruction {
            obstructed: now,
        }),
{
}

} // verus!
