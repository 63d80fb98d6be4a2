use driver_rust::control::demo_step;
use driver_rust::elevio::elev::{CallType, ElevatorEvent, ElevatorMessage, MotorDirection};

#[test]
fn call_button_lights_the_button() {
    let e = ElevatorEvent::CallButton { floor: 2, call: CallType::HallDown };
    let (d, m) = demo_step(MotorDirection::Up, e, 4);
    assert_eq!(d, MotorDirection::Up);
    assert_eq!(m, vec![ElevatorMessage::CallButtonLight { on: true, floor: 2, call: CallType::HallDown }]);
}

#[test]
fn turns_round_at_the_end_floors() {
    let (d, m) = demo_step(MotorDirection::Down, ElevatorEvent::FloorSensor { floor: 0 }, 4);
    assert_eq!(d, MotorDirection::Up);
    assert_eq!(m, vec![ElevatorMessage::MotorDirection { direction: MotorDirection::Up }]);
    let (d, m) = demo_step(MotorDirection::Up, ElevatorEvent::FloorSensor { floor: 3 }, 4);
    assert_eq!(d, MotorDirection::Down);
    assert_eq!(m, vec![ElevatorMessage::MotorDirection { direction: MotorDirection::Down }]);
    let (d, m) = demo_step(MotorDirection::Up, ElevatorEvent::FloorSensor { floor: 2 }, 4);
    assert_eq!(d, MotorDirection::Up);
    assert_eq!(m, vec![ElevatorMessage::MotorDirection { direction: MotorDirection::Up }]);
    // With one floor, floor 0 is both ends: it sends the cabin up.
    let (d, _) = demo_step(MotorDirection::Down, ElevatorEvent::FloorSensor { floor: 0 }, 1);
    assert_eq!(d, MotorDirection::Up);
}

#[test]
fn obstruction_stops_and_resumes() {
    let (d, m) = demo_step(MotorDirection::Down, ElevatorEvent::Obstruction { obstructed: true }, 4);
    assert_eq!(d, MotorDirection::Down);
    assert_eq!(m, vec![ElevatorMessage::MotorDirection { direction: MotorDirection::Stop }]);
    let (d, m) = demo_step(d, ElevatorEvent::Obstruction { obstructed: false }, 4);
    assert_eq!(d, MotorDirection::Down);
    assert_eq!(m, vec![ElevatorMessage::MotorDirection { direction: MotorDirection::Down }]);
}

#[test]
fn stop_button_clears_all_call_lights() {
    let (d, m) = demo_step(MotorDirection::Up, ElevatorEvent::StopButton { stopped: true }, 2);
    assert_eq!(d, MotorDirection::Up);
    let mut expected = Vec::new();
    for f in 0..2u8 {
        for c in [CallType::HallUp, CallType::HallDown, CallType::Cab] {
            expected.push(ElevatorMessage::CallButtonLight { on: false, floor: f, call: c });
        }
    }
    assert_eq!(m, expected);
    let (_, m) = demo_step(MotorDirection::Up, ElevatorEvent::StopButton { stopped: false }, 2);
    assert_eq!(m, vec![]);
}
