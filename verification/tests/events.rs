use driver_rust::elevio::elev::{CallType, ElevatorEvent};
use driver_rust::elevio::interact::ElevatorCurrentState;

#[test]
fn event_text() {
    let e = ElevatorEvent::CallButton { floor: 2, call: CallType::Cab };
    assert_eq!(e.to_string(), "Call button Cab, floor 2");
    let e = ElevatorEvent::CallButton { floor: 123, call: CallType::HallUp };
    assert_eq!(e.to_string(), "Call button HallUp, floor 123");
    let e = ElevatorEvent::CallButton { floor: 10, call: CallType::HallDown };
    assert_eq!(e.to_string(), "Call button HallDown, floor 10");
    assert_eq!(ElevatorEvent::FloorSensor { floor: 0 }.to_string(), "Floor: 0");
    assert_eq!(ElevatorEvent::FloorSensor { floor: 255 }.to_string(), "Floor: 255");
    assert_eq!(ElevatorEvent::Obstruction { obstructed: true }.to_string(), "Obstruction: true");
    assert_eq!(ElevatorEvent::StopButton { stopped: false }.to_string(), "Stop button: false");
}

#[test]
fn event_text_matches_debug_formatting() {
    for f in 0..=255u8 {
        assert_eq!(
            ElevatorEvent::FloorSensor { floor: f }.to_string(),
            format!("Floor: {:#?}", f)
        );
        for c in [CallType::HallUp, CallType::HallDown, CallType::Cab] {
            assert_eq!(
                ElevatorEvent::CallButton { floor: f, call: c }.to_string(),
                format!("Call button {:?}, floor {}", c, f)
            );
        }
    }
}

#[test]
fn new_state_is_blank() {
    let s = ElevatorCurrentState::new(4);
    assert_eq!(s.call_buttons, vec![[false; 3]; 4]);
    assert_eq!(s.floor_sensor, u8::MAX);
    assert!(!s.stop_button);
    assert!(!s.obstruction);
    assert_eq!(ElevatorCurrentState::new(0).call_buttons.len(), 0);
}

#[test]
fn call_buttons_report_new_presses_only() {
    let mut s = ElevatorCurrentState::new(3);
    let pressed = vec![[true, false, false], [false, false, false], [false, true, true]];
    let ev = s.poll_call_buttons_state(&pressed);
    assert_eq!(
        ev,
        vec![
            ElevatorEvent::CallButton { floor: 0, call: CallType::HallUp },
            ElevatorEvent::CallButton { floor: 2, call: CallType::HallDown },
            ElevatorEvent::CallButton { floor: 2, call: CallType::Cab },
        ]
    );
    assert_eq!(s.call_buttons, pressed);
    // The same readings again: nothing to report.
    assert_eq!(s.poll_call_buttons_state(&pressed), vec![]);
    // Releases are not reported.
    let released = vec![[false, false, false], [false, false, false], [false, true, false]];
    assert_eq!(s.poll_call_buttons_state(&released), vec![]);
    // Pressing again after a release is reported.
    let again = vec![[true, false, false], [false, false, true], [false, true, false]];
    assert_eq!(
        s.poll_call_buttons_state(&again),
        vec![
            ElevatorEvent::CallButton { floor: 0, call: CallType::HallUp },
            ElevatorEvent::CallButton { floor: 1, call: CallType::Cab },
        ]
    );
    assert_eq!(s.floor_sensor, u8::MAX);
}

#[test]
fn floor_sensor_reports_new_floors_only() {
    let mut s = ElevatorCurrentState::new(4);
    assert_eq!(s.poll_floor_sensor_state(None), None);
    assert_eq!(s.floor_sensor, u8::MAX);
    assert_eq!(s.poll_floor_sensor_state(Some(2)), Some(ElevatorEvent::FloorSensor { floor: 2 }));
    assert_eq!(s.floor_sensor, 2);
    assert_eq!(s.poll_floor_sensor_state(Some(2)), None);
    assert_eq!(s.poll_floor_sensor_state(None), None);
    assert_eq!(s.floor_sensor, u8::MAX);
    // Coming back to the same floor after being between floors is reported.
    assert_eq!(s.poll_floor_sensor_state(Some(2)), Some(ElevatorEvent::FloorSensor { floor: 2 }));
    assert_eq!(s.poll_floor_sensor_state(Some(3)), Some(ElevatorEvent::FloorSensor { floor: 3 }));
}

#[test]
fn stop_button_reports_changes() {
    let mut s = ElevatorCurrentState::new(2);
    assert_eq!(s.poll_stop_button_state(false), None);
    assert_eq!(s.poll_stop_button_state(true), Some(ElevatorEvent::StopButton { stopped: true }));
    assert!(s.stop_button);
    assert_eq!(s.poll_stop_button_state(true), None);
    assert_eq!(s.poll_stop_button_state(false), Some(ElevatorEvent::StopButton { stopped: false }));
    assert!(!s.stop_button);
}

#[test]
fn obstruction_reports_changes() {
    let mut s = ElevatorCurrentState::new(2);
    assert_eq!(s.poll_obstruction_sensor_state(false), None);
    assert_eq!(
        s.poll_obstruction_sensor_state(true),
        Some(ElevatorEvent::Obstruction { obstructed: true })
    );
    assert!(s.obstruction);
    assert_eq!(s.poll_obstruction_sensor_state(true), None);
    assert_eq!(
        s.poll_obstruction_sensor_state(false),
        Some(ElevatorEvent::Obstruction { obstructed: false })
    );
    assert!(!s.obstruction);
}

#[test]
fn repeated_polls_are_silent() {
    let mut s = ElevatorCurrentState::new(4);
    let pressed = vec![[true, true, false], [false, false, true], [true, false, true], [false, false, false]];
    s.poll_call_buttons_state(&pressed);
    s.poll_floor_sensor_state(Some(1));
    s.poll_stop_button_state(true);
    s.poll_obstruction_sensor_state(true);
    assert_eq!(s.poll_call_buttons_state(&pressed), vec![]);
    assert_eq!(s.poll_floor_sensor_state(Some(1)), None);
    assert_eq!(s.poll_stop_button_state(true), None);
    assert_eq!(s.poll_obstruction_sensor_state(true), None);
}

#[test]
fn stop_button_events_alternate() {
    let mut s = ElevatorCurrentState::new(4);
    let readings = [false, true, true, false, false, true, false, true, true, true, false];
    let mut events = Vec::new();
    for r in readings {
        if let Some(e) = s.poll_stop_button_state(r) {
            events.push(e);
        }
    }
    let changes = readings.windows(2).filter(|w| w[0] != w[1]).count() + usize::from(readings[0]);
    assert_eq!(events.len(), changes);
    for (i, e) in events.iter().enumerate() {
        assert_eq!(*e, ElevatorEvent::StopButton { stopped: i % 2 == 0 });
    }
}

#[test]
fn obstruction_events_alternate() {
    let mut s = ElevatorCurrentState::new(1);
    let readings = [true, false, false, true, true, false];
    let mut events = Vec::new();
    for r in readings {
        if let Some(e) = s.poll_obstruction_sensor_state(r) {
            events.push(e);
        }
    }
    assert_eq!(
        events,
        vec![
            ElevatorEvent::Obstruction { obstructed: true },
            ElevatorEvent::Obstruction { obstructed: false },
            ElevatorEvent::Obstruction { obstructed: true },
            ElevatorEvent::Obstruction { obstructed: false },
        ]
    );
}
