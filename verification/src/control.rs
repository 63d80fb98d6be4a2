//! The rule of the demo controller: it shuttles the cabin between the end
//! floors, lights every call button pressed, stops while the door is
//! obstructed, and clears all call lights when the stop button is pressed.
use vstd::prelude::*;

use crate::elevio::elev::{spec_call_type_code, CallType, ElevatorEvent, ElevatorMessage, MotorDirection};
use crate::elevio::interact::spec_call_type_at;

verus! {

/// The direction the controller keeps after an event: up at floor 0, down
/// at the last floor (`num_floors - 1`), unchanged otherwise.
pub open spec fn spec_demo_direction(
    direction: MotorDirection,
    event: ElevatorEvent,
    num_floors: u8,
) -> MotorDirection {
    match event {
        ElevatorEvent::FloorSensor { floor } => if floor == 0 {
            MotorDirection::Up
        } else if num_floors > 0 && floor == num_floors - 1 {
            MotorDirection::Down
        } else {
            direction
        },
        _ => direction,
    }
}

/// The lights cleared on an emergency stop: for every floor, the hall up,
/// hall down and cab lights, floor by floor.
pub open spec fn spec_clear_lights(num_floors: u8) -> Seq<ElevatorMessage> {
    Seq::new(
        (3 * num_floors) as nat,
        |i: int|
            ElevatorMessage::CallButtonLight {
                on: false,
                floor: (i / 3) as u8,
                call: spec_call_type_at(i % 3),
            },
    )
}

/// The messages the controller sends after an event, `direction` being the
/// direction it kept before the event.
pub open spec fn spec_demo_messages(
    direction: MotorDirection,
    event: ElevatorEvent,
    num_floors: u8,
) -> Seq<ElevatorMessage> {
    match event {
        ElevatorEvent::CallButton { floor, call } => seq![
            ElevatorMessage::CallButtonLight { on: true, floor, call },
        ],
        ElevatorEvent::FloorSensor { .. } => seq![
            ElevatorMessage::MotorDirection {
                direction: spec_demo_direction(direction, event, num_floors),
            },
        ],
        ElevatorEvent::Obstruction { obstructed } => seq![
            ElevatorMessage::MotorDirection {
                direction: if obstructed {
                    MotorDirection::Stop
                } else {
                    direction
                },
            },
        ],
        ElevatorEvent::StopButton { stopped } => if stopped {
            spec_clear_lights(num_floors)
        } else {
            seq![]
        },
    }
}

/// One step of the demo controller of an elevator of `num_floors` floors:
/// given the direction it kept and an event, the direction it keeps next
/// and the messages it sends to the elevator, in order.
pub fn demo_step(direction: MotorDirection, event: ElevatorEvent, num_floors: u8) -> (r: (
    MotorDirection,
    Vec<ElevatorMessage>,
))
    ensures
        r.0 == spec_demo_direction(direction, event, num_floors),
        r.1@ == spec_demo_messages(direction, event, num_floors),
{
    let mut msgs: Vec<ElevatorMessage> = Vec::new();
    match event {
        ElevatorEvent::CallButton { floor, call } => {
            msgs.push(ElevatorMessage::CallButtonLight { on: true, floor, call });
            assert(msgs@ =~= spec_demo_messages(direction, event, num_floors));
            (direction, msgs)
        },
        ElevatorEvent::FloorSensor { floor } => {
            let next = if floor == 0 {
                MotorDirection::Up
            } else if num_floors > 0 && floor == num_floors - 1 {
                MotorDirection::Down
            } else {
                direction
            };
            msgs.push(ElevatorMessage::MotorDirection { direction: next });
            assert(msgs@ =~= spec_demo_messages(direction, event, num_floors));
            (next, msgs)
        },
        ElevatorEvent::Obstruction { obstructed } => {
            let d = if obstructed {
                MotorDirection::Stop
            } else {
                direction
            };
            msgs.push(ElevatorMessage::MotorDirection { direction: d });
            assert(msgs@ =~= spec_demo_messages(direction, event, num_floors));
            (direction, msgs)
        },
        ElevatorEvent::StopButton { stopped } => {
            if stopped {
                let mut f: u8 = 0;
                while f < num_floors
                    invariant
                        f <= num_floors,
                        msgs@ =~= spec_clear_lights(f),
                    decreases num_floors - f,
                {
                    let ghost before = msgs@;
                    msgs.push(ElevatorMessage::CallButtonLight { on: false, floor: f, call: CallType::HallUp });
                    msgs.push(
                        ElevatorMessage::CallButtonLight { on: false, floor: f, call: CallType::HallDown },
                    );
                    msgs.push(ElevatorMessage::CallButtonLight { on: false, floor: f, call: CallType::Cab });
                    assert forall|i: int| 0 <= i < msgs@.len() implies #[trigger] msgs@[i]
                        == spec_clear_lights((f + 1) as u8)[i] by {
                        if i < 3 * f {
                            assert(msgs@[i] == before[i]);
                        } else {
                            assert(i / 3 == f);
                        }
                    }
                    assert(msgs@ =~= spec_clear_lights((f + 1) as u8));
                    f = f + 1;
                }
            }
            assert(msgs@ =~= spec_demo_messages(direction, event, num_floors));
            (direction, msgs)
        },
    }
}

/// The rule of the demo controller, event by event:
/// - at floor 0 it turns up, at the last floor (`num_floors - 1`, when that
///   is not 0) it turns down, and at any other floor it keeps the direction
///   it had; either way it sends the direction it keeps;
/// - a call button event lights that button and keeps the direction;
/// - an obstruction sends stop, its end sends the kept direction again, and
///   neither changes the kept direction;
/// - a stop button release sends nothing, and a press turns off the hall
///   up, hall down and cab lights of every floor, three per floor.
pub proof fn lemma_demo_rule(direction: MotorDirection, event: ElevatorEvent, num_floors: u8)
    ensures
        event matches ElevatorEvent::FloorSensor { floor } ==> {
            &&& floor == 0 ==> spec_demo_direction(direction, event, num_floors)
                == MotorDirection::Up
            &&& floor != 0 && floor + 1 == num_floors ==> spec_demo_direction(
                direction,
                event,
                num_floors,
            ) == MotorDirection::Down
            &&& floor != 0 && floor + 1 != num_floors ==> spec_demo_direction(
                direction,
                event,
                num_floors,
            ) == direction
            &&& spec_demo_messages(direction, event, num_floors) == seq![
                (ElevatorMessage::MotorDirection {
                    direction: spec_demo_direction(direction, event, num_floors),
                }),
            ]
        },
        !(event is FloorSensor) ==> spec_demo_direction(direction, event, num_floors) == direction,
        event matches ElevatorEvent::CallButton { floor, call } ==> spec_demo_messages(
            direction,
            event,
            num_floors,
        ) == seq![(ElevatorMessage::CallButtonLight { on: true, floor, call })],
        event matches ElevatorEvent::Obstruction { obstructed } ==> spec_demo_messages(
            direction,
            event,
            num_floors,
        ) == seq![
            (ElevatorMessage::MotorDirection {
                direction: if obstructed {
                    MotorDirection::Stop
                } else {
                    direction
                },
            }),
        ],
        event == (ElevatorEvent::StopButton { stopped: false }) ==> spec_demo_messages(
            direction,
            event,
            num_floors,
        ).len() == 0,
        event == (ElevatorEvent::StopButton { stopped: true }) ==> {
            &&& spec_demo_messages(direction, event, num_floors).len() == 3 * num_floors
            &&& forall|f: int, c: int|
                0 <= f < num_floors && 0 <= c < 3 ==> (#[trigger] spec_demo_messages(
                    direction,
                    event,
                    num_floors,
                )[3 * f + c] matches ElevatorMessage::CallButtonLight { on, floor, call } && !on
                    && floor == f && spec_call_type_code(call) == c)
        },
{
    if event == (ElevatorEvent::StopButton { stopped: true }) {
        assert forall|f: int, c: int| 0 <= f < num_floors && 0 <= c < 3 implies (#[trigger] spec_demo_messages(
            direction,
            event,
            num_floors,
        )[3 * f + c] matches ElevatorMessage::CallButtonLight { on, floor, call } && !on
            && floor == f && spec_call_type_code(call) == c) by {
            assert((3 * f + c) / 3 == f);
            assert((3 * f + c) % 3 == c);
        }
    }
}

} // verus!
