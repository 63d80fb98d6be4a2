use vstd::prelude::*;
use vstd::string::StringExecFns;

verus! {

/// Type of call button pressed.
#[derive(Debug, Copy, Clone, PartialEq, Eq, Structural)]
pub enum CallType {
    /// Hall call button with direction up
    HallUp,
    /// Hall call button with direction down
    HallDown,
    /// Cab call button
    Cab,
}

/// The code of a call type on the wire.
pub open spec fn spec_call_type_code(c: CallType) -> u8 {
    match c {
        CallType::HallUp => 0,
        CallType::HallDown => 1,
        CallType::Cab => 2,
    }
}

/// The call type that a wire code stands for, if any.
pub open spec fn spec_call_type_from_code(value: u8) -> Result<CallType, ()> {
    if value == 0 {
        Ok(CallType::HallUp)
    } else if value == 1 {
        Ok(CallType::HallDown)
    } else if value == 2 {
        Ok(CallType::Cab)
    } else {
        Err(())
    }
}

impl CallType {
    /// The code of this call type on the wire (hall up 0, hall down 1, cab 2).
    pub fn code(self) -> (r: u8)
        ensures
            r == spec_call_type_code(self),
            r <= 2,
    {
        match self {
            CallType::HallUp => 0,
            CallType::HallDown => 1,
            CallType::Cab => 2,
        }
    }
}

impl TryFrom<u8> for CallType {
    type Error = ();

    fn try_from(value: u8) -> (r: Result<Self, Self::Error>) {
        if value == 0 {
            Ok(CallType::HallUp)
        } else if value == 1 {
            Ok(CallType::HallDown)
        } else if value == 2 {
            Ok(CallType::Cab)
        } else {
            Err(())
        }
    }
}

impl vstd::std_specs::convert::TryFromSpecImpl<u8> for CallType {
    open spec fn obeys_try_from_spec() -> bool {
        true
    }

    open spec fn try_from_spec(v: u8) -> Result<Self, ()> {
        spec_call_type_from_code(v)
    }
}

/// Direction of the elevator motor.
///
/// The value sent on the wire is [`MotorDirection::code`]: `u8::MAX` for
/// down, 0 for stop, 1 for up. A cast with `as` gives the variant's position
/// instead (stop 0, up 1, down 2), which agrees for stop and up but not for
/// down: use `code()`.
#[derive(Copy, Clone, Debug, PartialEq, Eq, Structural)]
pub enum MotorDirection {
    Stop,
    Up,
    Down,
}

/// The code of a motor direction on the wire: down is `u8::MAX`, stop 0, up 1.
pub open spec fn spec_motor_direction_code(d: MotorDirection) -> u8 {
    match d {
        MotorDirection::Down => 255,
        MotorDirection::Stop => 0,
        MotorDirection::Up => 1,
    }
}

impl MotorDirection {
    /// The code of this direction on the wire.
    pub fn code(self) -> (r: u8)
        ensures
            r == spec_motor_direction_code(self),
    {
        match self {
            MotorDirection::Down => u8::MAX,
            MotorDirection::Stop => 0,
            MotorDirection::Up => 1,
        }
    }
}

/// Every call type is read back from its own code, and the codes that
/// stand for a call type are exactly 0, 1 and 2.
pub proof fn lemma_call_type_code_roundtrip(c: CallType, v: u8)
    ensures
        spec_call_type_from_code(spec_call_type_code(c)) == Ok::<CallType, ()>(c),
        spec_call_type_from_code(v) is Ok <==> v <= 2,
        spec_call_type_from_code(v) matches Ok(d) ==> spec_call_type_code(d) == v,
        spec_call_type_code(CallType::HallUp) == 0,
        spec_call_type_code(CallType::HallDown) == 1,
        spec_call_type_code(CallType::Cab) == 2,
{
}

/// Event reported by the elevator hardware (or simulator).
#[derive(Debug, Copy, Clone, PartialEq, Eq, Structural)]
pub enum ElevatorEvent {
    /// A user pressed a call button on the panel.
    /// For a **cab** call, `floor` is the destination wanted by the user;
    /// for a **hall** call, it is the floor where the button was pressed.
    CallButton { floor: u8, call: CallType },
    /// The elevator reached a floor.
    FloorSensor { floor: u8 },
    /// The elevator door is stuck open.
    Obstruction { obstructed: bool },
    /// A user pressed (or released) the emergency stop.
    StopButton { stopped: bool },
}

/// Message used to interact with the elevator.
#[derive(Debug, Copy, Clone, PartialEq, Eq, Structural)]
pub enum ElevatorMessage {
    /// Sets the direction of the elevator.
    MotorDirection { direction: MotorDirection },
    /// Controls a call button light.
    CallButtonLight { on: bool, floor: u8, call: CallType },
    /// Controls the floor indicator light (the panel showing the current floor).
    FloorIndicatorLight { floor: u8 },
    /// Controls the door light (which stands for the door itself).
    DoorOpenLight { on: bool },
    /// Controls the stop (emergency) button light.
    StopButtonLight { on: bool },
}

/// The character of a decimal digit.
pub open spec fn spec_digit(d: nat) -> char {
    if d == 0 { '0' }
    else if d == 1 { '1' }
    else if d == 2 { '2' }
    else if d == 3 { '3' }
    else if d == 4 { '4' }
    else if d == 5 { '5' }
    else if d == 6 { '6' }
    else if d == 7 { '7' }
    else if d == 8 { '8' }
    else { '9' }
}

/// Decimal notation of a natural number, without leading zeros.
pub open spec fn spec_decimal(n: nat) -> Seq<char>
    decreases n,
{
    if n < 10 {
        seq![spec_digit(n)]
    } else {
        spec_decimal(n / 10).push(spec_digit(n % 10))
    }
}

/// The text of a boolean: `true` or `false`.
pub open spec fn spec_bool_text(b: bool) -> Seq<char> {
    if b {
        seq!['t', 'r', 'u', 'e']
    } else {
        seq!['f', 'a', 'l', 's', 'e']
    }
}

/// The name of a call type, as its variant is spelled.
pub open spec fn spec_call_type_name(c: CallType) -> Seq<char> {
    match c {
        CallType::HallUp => seq!['H', 'a', 'l', 'l', 'U', 'p'],
        CallType::HallDown => seq!['H', 'a', 'l', 'l', 'D', 'o', 'w', 'n'],
        CallType::Cab => seq!['C', 'a', 'b'],
    }
}

/// The human readable text of an event.
pub open spec fn spec_event_text(e: ElevatorEvent) -> Seq<char> {
    match e {
        ElevatorEvent::CallButton { floor, call } =>
            seq!['C', 'a', 'l', 'l', ' ', 'b', 'u', 't', 't', 'o', 'n', ' ']
                + spec_call_type_name(call)
                + seq![',', ' ', 'f', 'l', 'o', 'o', 'r', ' ']
                + spec_decimal(floor as nat),
        ElevatorEvent::FloorSensor { floor } =>
            seq!['F', 'l', 'o', 'o', 'r', ':', ' '] + spec_decimal(floor as nat),
        ElevatorEvent::Obstruction { obstructed } =>
            seq!['O', 'b', 's', 't', 'r', 'u', 'c', 't', 'i', 'o', 'n', ':', ' ']
                + spec_bool_text(obstructed),
        ElevatorEvent::StopButton { stopped } =>
            seq!['S', 't', 'o', 'p', ' ', 'b', 'u', 't', 't', 'o', 'n', ':', ' ']
                + spec_bool_text(stopped),
    }
}

/// Appends one decimal digit.
fn push_digit(s: &mut String, d: u8)
    requires
        d < 10,
    ensures
        final(s)@ == old(s)@.push(spec_digit(d as nat)),
{
    if d == 0 {
        proof { reveal_strlit("0"); }
        s.append("0");
    } else if d == 1 {
        proof { reveal_strlit("1"); }
        s.append("1");
    } else if d == 2 {
        proof { reveal_strlit("2"); }
        s.append("2");
    } else if d == 3 {
        proof { reveal_strlit("3"); }
        s.append("3");
    } else if d == 4 {
        proof { reveal_strlit("4"); }
        s.append("4");
    } else if d == 5 {
        proof { reveal_strlit("5"); }
        s.append("5");
    } else if d == 6 {
        proof { reveal_strlit("6"); }
        s.append("6");
    } else if d == 7 {
        proof { reveal_strlit("7"); }
        s.append("7");
    } else if d == 8 {
        proof { reveal_strlit("8"); }
        s.append("8");
    } else {
        proof { reveal_strlit("9"); }
        s.append("9");
    }
}

/// Appends the decimal notation of `n`.
fn push_decimal(s: &mut String, n: u8)
    ensures
        final(s)@ == old(s)@ + spec_decimal(n as nat),
{
    proof {
        reveal_with_fuel(spec_decimal, 3);
    }
    if n >= 100 {
        push_digit(s, n / 100);
        push_digit(s, (n / 10) % 10);
        push_digit(s, n % 10);
        assert((n as nat / 10) / 10 == n as nat / 100);
    } else if n >= 10 {
        push_digit(s, n / 10);
        push_digit(s, n % 10);
    } else {
        push_digit(s, n);
    }
}

/// Appends `true` or `false`.
fn push_bool(s: &mut String, b: bool)
    ensures
        final(s)@ == old(s)@ + spec_bool_text(b),
{
    if b {
        proof { reveal_strlit("true"); }
        s.append("true");
    } else {
        proof { reveal_strlit("false"); }
        s.append("false");
    }
}

/// Appends the name of a call type.
fn push_call_type(s: &mut String, c: CallType)
    ensures
        final(s)@ == old(s)@ + spec_call_type_name(c),
{
    match c {
        CallType::HallUp => {
            proof { reveal_strlit("HallUp"); }
            s.append("HallUp");
        },
        CallType::HallDown => {
            proof { reveal_strlit("HallDown"); }
            s.append("HallDown");
        },
        CallType::Cab => {
            proof { reveal_strlit("Cab"); }
            s.append("Cab");
        },
    }
}

impl ElevatorEvent {
    /// Human readable text of the event, such as `Call button Cab, floor 2`
    /// or `Stop button: true`.
    pub fn to_string(&self) -> (r: String)
        ensures
            r@ == spec_event_text(*self),
    {
        match *self {
            ElevatorEvent::CallButton { floor, call } => {
                proof { reveal_strlit("Call button "); reveal_strlit(", floor "); }
                let mut s = String::from_str("Call button ");
                push_call_type(&mut s, call);
                s.append(", floor ");
                push_decimal(&mut s, floor);
                s
            },
            ElevatorEvent::FloorSensor { floor } => {
                proof { reveal_strlit("Floor: "); }
                let mut s = String::from_str("Floor: ");
                push_decimal(&mut s, floor);
                s
            },
            ElevatorEvent::Obstruction { obstructed } => {
                proof { reveal_strlit("Obstruction: "); }
                let mut s = String::from_str("Obstruction: ");
                push_bool(&mut s, obstructed);
                s
            },
            ElevatorEvent::StopButton { stopped } => {
                proof { reveal_strlit("Stop button: "); }
                let mut s = String::from_str("Stop button: ");
                push_bool(&mut s, stopped);
                s
            },
        }
    }
}

/// Different digits have different characters.
proof fn lemma_digit_injective(a: nat, b: nat)
    requires
        a < 10,
        b < 10,
    ensures
        spec_digit(a) == spec_digit(b) ==> a == b,
{
}

/// Different numbers have different decimal notations, and the notation is
/// never empty.
pub proof fn lemma_decimal_injective(a: nat, b: nat)
    ensures
        spec_decimal(a).len() >= 1,
        spec_decimal(a) == spec_decimal(b) ==> a == b,
    decreases a + b,
{
    if a >= 10 {
        lemma_decimal_injective(a / 10, a / 10);
    }
    if b >= 10 {
        lemma_decimal_injective(b / 10, b / 10);
    }
    if spec_decimal(a) == spec_decimal(b) {
        if a < 10 && b < 10 {
            assert(spec_decimal(a)[0] == spec_digit(a));
            assert(spec_decimal(b)[0] == spec_digit(b));
            lemma_digit_injective(a, b);
        } else if a >= 10 && b >= 10 {
            let (da, db) = (spec_decimal(a), spec_decimal(b));
            assert(da.last() == db.last());
            lemma_digit_injective(a % 10, b % 10);
            assert(da.drop_last() =~= spec_decimal(a / 10));
            assert(db.drop_last() =~= spec_decimal(b / 10));
            lemma_decimal_injective(a / 10, b / 10);
        } else {
            assert(spec_decimal(a).len() != spec_decimal(b).len());
        }
    }
}

/// Different events have different texts: the text tells the kind of the
/// event and every value it carries (the call type, the floor, and whether
/// the stop button is pressed or the door obstructed).
pub proof fn lemma_event_text_injective(a: ElevatorEvent, b: ElevatorEvent)
    ensures
        spec_event_text(a) == spec_event_text(b) ==> a == b,
{
    if spec_event_text(a) == spec_event_text(b) {
        let (ta, tb) = (spec_event_text(a), spec_event_text(b));
        assert(ta[0] == tb[0]);
        match (a, b) {
            (
                ElevatorEvent::CallButton { floor: fa, call: ca },
                ElevatorEvent::CallButton { floor: fb, call: cb },
            ) => {
                assert(ta[12] == tb[12]);
                assert(ta[16] == tb[16]);
                assert(ca == cb);
                let k: int = 20 + spec_call_type_name(ca).len() as int;
                assert(ta.subrange(k, ta.len() as int) =~= spec_decimal(fa as nat));
                assert(tb.subrange(k, tb.len() as int) =~= spec_decimal(fb as nat));
                lemma_decimal_injective(fa as nat, fb as nat);
            },
            (ElevatorEvent::FloorSensor { floor: fa }, ElevatorEvent::FloorSensor { floor: fb }) => {
                assert(ta.subrange(7, ta.len() as int) =~= spec_decimal(fa as nat));
                assert(tb.subrange(7, tb.len() as int) =~= spec_decimal(fb as nat));
                lemma_decimal_injective(fa as nat, fb as nat);
            },
            _ => {
                assert(ta[13] == tb[13]);
            },
        }
    }
}

/// The number that a string of decimal digits stands for.
pub open spec fn spec_decimal_value(s: Seq<char>) -> int
    decreases s.len(),
{
    if s.len() == 0 {
        0
    } else {
        spec_decimal_value(s.drop_last()) * 10 + (s.last() as int - '0' as int)
    }
}

/// The decimal notation of a number is made of the digits `0` to `9`,
/// has no leading zero (unless it is `0` itself), and reads back as the
/// number.
pub proof fn lemma_decimal_reads_back(n: nat)
    ensures
        spec_decimal_value(spec_decimal(n)) == n,
        forall|i: int|
            0 <= i < spec_decimal(n).len() ==> '0' <= #[trigger] spec_decimal(n)[i] <= '9',
        spec_decimal(n).len() > 1 ==> spec_decimal(n)[0] != '0',
    decreases n,
{
    lemma_digit_value(n % 10);
    if n >= 10 {
        lemma_decimal_reads_back(n / 10);
        if n / 10 < 10 {
            lemma_digit_value(n / 10);
            assert(spec_decimal(n / 10)[0] == spec_digit(n / 10));
        } else {
            lemma_decimal_injective(n / 10 / 10, 0);
            assert(spec_decimal(n / 10).len() > 1);
        }
        lemma_decimal_injective(n / 10, 0);
        let d = spec_decimal(n);
        assert(d.drop_last() =~= spec_decimal(n / 10));
        assert(d[0] == spec_decimal(n / 10)[0]);
        assert(spec_decimal_value(d) == spec_decimal_value(spec_decimal(n / 10)) * 10 + (n % 10));
    } else {
        lemma_digit_value(n);
        assert(spec_decimal(n).drop_last() =~= Seq::<char>::empty());
        assert(spec_decimal_value(spec_decimal(n)) == spec_decimal_value(Seq::<char>::empty()) * 10
            + (spec_digit(n) as int - '0' as int));
    }
}

proof fn lemma_digit_value(d: nat)
    requires
        d < 10,
    ensures
        spec_digit(d) as int - '0' as int == d,
        '0' <= spec_digit(d) <= '9',
        d != 0 ==> spec_digit(d) != '0',
{
}

/// The text of a stop button or obstruction event gives its value right
/// after the label (`Stop button: ` and `Obstruction: ` are both 13
/// characters long): it goes on with `t` (of `true`) when the value is
/// true and with `f` (of `false`) when it is false.
pub proof fn lemma_flag_event_text(value: bool)
    ensures
        spec_event_text(ElevatorEvent::StopButton { stopped: value })[13] == (if value {
            't'
        } else {
            'f'
        }),
        spec_event_text(ElevatorEvent::Obstruction { obstructed: value })[13] == (if value {
            't'
        } else {
            'f'
        }),
{
}

/// The text of a floor event ends with the floor in decimal: what follows
/// the 7 characters of `Floor: ` reads back as the floor.
pub proof fn lemma_floor_event_text(floor: u8)
    ensures
        spec_decimal_value(
            spec_event_text(ElevatorEvent::FloorSensor { floor }).subrange(
                7,
                spec_event_text(ElevatorEvent::FloorSensor { floor }).len() as int,
            ),
        ) == floor,
{
    let t = spec_event_text(ElevatorEvent::FloorSensor { floor });
    assert(t.subrange(7, t.len() as int) =~= spec_decimal(floor as nat));
    lemma_decimal_reads_back(floor as nat);
}

} // verus!
