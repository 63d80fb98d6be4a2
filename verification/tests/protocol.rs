use driver_rust::elevio::elev::{CallType, ElevatorMessage, MotorDirection};
use driver_rust::elevio::interact::message_packet;
use driver_rust::elevio::sock::{
    call_button_light_packet, call_button_query, decode_flag_reply, decode_floor_reply,
    door_light_packet, floor_indicator_packet, floor_sensor_query, motor_direction_packet,
    obstruction_query, stop_button_light_packet, stop_button_query,
};
use std::convert::TryFrom;
use std::convert::TryInto;

#[test]
fn call_type_from_valid_codes() {
    assert_eq!(CallType::try_from(0u8), Ok(CallType::HallUp));
    assert_eq!(CallType::try_from(1u8), Ok(CallType::HallDown));
    assert_eq!(CallType::try_from(2u8), Ok(CallType::Cab));
}

#[test]
fn call_type_from_invalid_codes() {
    assert_eq!(CallType::try_from(3u8), Err(()));
    assert_eq!(CallType::try_from(255u8), Err(()));
    let r: Result<CallType, ()> = 7u8.try_into();
    assert_eq!(r, Err(()));
}

#[test]
fn call_type_code_roundtrip() {
    for c in [CallType::HallUp, CallType::HallDown, CallType::Cab] {
        assert_eq!(CallType::try_from(c.code()), Ok(c));
    }
    assert_eq!(CallType::Cab.code(), 2);
}

#[test]
fn motor_direction_codes() {
    assert_eq!(MotorDirection::Down.code(), 255);
    assert_eq!(MotorDirection::Stop.code(), 0);
    assert_eq!(MotorDirection::Up.code(), 1);
    assert_eq!(MotorDirection::Stop as u8, 0);
    assert_eq!(MotorDirection::Up as u8, 1);
}

#[test]
fn command_packets() {
    assert_eq!(motor_direction_packet(1), [1, 1, 0, 0]);
    assert_eq!(call_button_light_packet(3, 2, true), [2, 2, 3, 1]);
    assert_eq!(call_button_light_packet(1, 0, false), [2, 0, 1, 0]);
    assert_eq!(floor_indicator_packet(2), [3, 2, 0, 0]);
    assert_eq!(door_light_packet(true), [4, 1, 0, 0]);
    assert_eq!(stop_button_light_packet(false), [5, 0, 0, 0]);
}

#[test]
fn query_packets() {
    assert_eq!(call_button_query(3, 1), [6, 1, 3, 0]);
    assert_eq!(floor_sensor_query(), [7, 0, 0, 0]);
    assert_eq!(stop_button_query(), [8, 0, 0, 0]);
    assert_eq!(obstruction_query(), [9, 0, 0, 0]);
}

#[test]
fn decode_replies() {
    assert!(decode_flag_reply([6, 1, 0, 0]));
    assert!(decode_flag_reply([8, 7, 0, 0]));
    assert!(!decode_flag_reply([9, 0, 1, 1]));
    assert_eq!(decode_floor_reply([7, 1, 2, 0]), Some(2));
    assert_eq!(decode_floor_reply([7, 0, 2, 0]), None);
}

#[test]
fn a_short_reply_keeps_the_query_bytes() {
    // The reply says "not pressed", but only its first byte arrives before
    // the buffer is decoded: the second byte is still the call code.
    let reply = [6u8, 0, 0, 0];
    let mut buf = call_button_query(0, 2);
    buf[..1].copy_from_slice(&reply[..1]);
    assert!(decode_flag_reply(buf));
    let mut buf = call_button_query(0, 0);
    buf[..1].copy_from_slice(&reply[..1]);
    assert!(!decode_flag_reply(buf));
    // The whole reply arrived: it is read as sent.
    let mut buf = call_button_query(0, 2);
    buf.copy_from_slice(&reply);
    assert!(!decode_flag_reply(buf));
}

#[test]
fn message_packets() {
    let m = ElevatorMessage::MotorDirection { direction: MotorDirection::Down };
    assert_eq!(message_packet(&m), [1, 255, 0, 0]);
    let m = ElevatorMessage::MotorDirection { direction: MotorDirection::Up };
    assert_eq!(message_packet(&m), [1, 1, 0, 0]);
    let m = ElevatorMessage::CallButtonLight { on: true, floor: 2, call: CallType::HallDown };
    assert_eq!(message_packet(&m), [2, 1, 2, 1]);
    let m = ElevatorMessage::FloorIndicatorLight { floor: 3 };
    assert_eq!(message_packet(&m), [3, 3, 0, 0]);
    let m = ElevatorMessage::DoorOpenLight { on: false };
    assert_eq!(message_packet(&m), [4, 0, 0, 0]);
    let m = ElevatorMessage::StopButtonLight { on: true };
    assert_eq!(message_packet(&m), [5, 1, 0, 0]);
}

#[test]
fn different_messages_give_different_packets() {
    let mut msgs = vec![
        ElevatorMessage::MotorDirection { direction: MotorDirection::Down },
        ElevatorMessage::MotorDirection { direction: MotorDirection::Stop },
        ElevatorMessage::MotorDirection { direction: MotorDirection::Up },
        ElevatorMessage::DoorOpenLight { on: true },
        ElevatorMessage::DoorOpenLight { on: false },
        ElevatorMessage::StopButtonLight { on: true },
        ElevatorMessage::StopButtonLight { on: false },
    ];
    for f in 0..4u8 {
        msgs.push(ElevatorMessage::FloorIndicatorLight { floor: f });
        for c in [CallType::HallUp, CallType::HallDown, CallType::Cab] {
            for on in [false, true] {
                msgs.push(ElevatorMessage::CallButtonLight { on, floor: f, call: c });
            }
        }
    }
    for (i, a) in msgs.iter().enumerate() {
        for (j, b) in msgs.iter().enumerate() {
            assert_eq!(i == j, message_packet(a) == message_packet(b));
        }
    }
}
