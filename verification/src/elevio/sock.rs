//! The wire protocol of the elevator server: every command and every query
//! is a packet of four bytes, and every reply to a query is four bytes too.
use vstd::prelude::*;

verus! {

/// Command that sets the motor direction to the direction code `dirn`.
pub open spec fn spec_motor_direction_packet(dirn: u8) -> Seq<u8> {
    seq![1u8, dirn, 0u8, 0u8]
}

/// Command that sets the call button light of `floor` and call code `call`.
pub open spec fn spec_call_button_light_packet(floor: u8, call: u8, on: bool) -> Seq<u8> {
    seq![2u8, call, floor, if on { 1u8 } else { 0u8 }]
}

/// Command that lights the floor indicator at `floor`.
pub open spec fn spec_floor_indicator_packet(floor: u8) -> Seq<u8> {
    seq![3u8, floor, 0u8, 0u8]
}

/// Command that sets the door light.
pub open spec fn spec_door_light_packet(on: bool) -> Seq<u8> {
    seq![4u8, if on { 1u8 } else { 0u8 }, 0u8, 0u8]
}

/// Command that sets the stop button light.
pub open spec fn spec_stop_button_light_packet(on: bool) -> Seq<u8> {
    seq![5u8, if on { 1u8 } else { 0u8 }, 0u8, 0u8]
}

/// Query for the state of the call button of `floor` and call code `call`.
pub open spec fn spec_call_button_query(floor: u8, call: u8) -> Seq<u8> {
    seq![6u8, call, floor, 0u8]
}

/// Query for the floor sensor.
pub open spec fn spec_floor_sensor_query() -> Seq<u8> {
    seq![7u8, 0u8, 0u8, 0u8]
}

/// Query for the stop button.
pub open spec fn spec_stop_button_query() -> Seq<u8> {
    seq![8u8, 0u8, 0u8, 0u8]
}

/// Query for the door obstruction switch.
pub open spec fn spec_obstruction_query() -> Seq<u8> {
    seq![9u8, 0u8, 0u8, 0u8]
}

/// A yes/no reply: its second byte is non-zero for yes.
pub open spec fn spec_flag_reply(reply: Seq<u8>) -> bool
    recommends
        reply.len() == 4,
{
    reply[1] != 0
}

/// A floor sensor reply: when its second byte is non-zero the cabin is at
/// the floor in the third byte, else it is between floors.
pub open spec fn spec_floor_reply(reply: Seq<u8>) -> Option<u8>
    recommends
        reply.len() == 4,
{
    if reply[1] != 0 {
        Some(reply[2])
    } else {
        None
    }
}

/// The packet that sets the motor direction to code `dirn`.
pub fn motor_direction_packet(dirn: u8) -> (r: [u8; 4])
    ensures
        r@ == spec_motor_direction_packet(dirn),
{
    let r = [1u8, dirn, 0u8, 0u8];
    assert(r@ =~= spec_motor_direction_packet(dirn));
    r
}

/// The packet that sets a call button light.
pub fn call_button_light_packet(floor: u8, call: u8, on: bool) -> (r: [u8; 4])
    ensures
        r@ == spec_call_button_light_packet(floor, call, on),
{
    let flag: u8 = if on { 1 } else { 0 };
    let r = [2u8, call, floor, flag];
    assert(r@ =~= spec_call_button_light_packet(floor, call, on));
    r
}

/// The packet that lights the floor indicator at `floor`.
pub fn floor_indicator_packet(floor: u8) -> (r: [u8; 4])
    ensures
        r@ == spec_floor_indicator_packet(floor),
{
    let r = [3u8, floor, 0u8, 0u8];
    assert(r@ =~= spec_floor_indicator_packet(floor));
    r
}

/// The packet that sets the door light.
pub fn door_light_packet(on: bool) -> (r: [u8; 4])
    ensures
        r@ == spec_door_light_packet(on),
{
    let flag: u8 = if on { 1 } else { 0 };
    let r = [4u8, flag, 0u8, 0u8];
    assert(r@ =~= spec_door_light_packet(on));
    r
}

/// The packet that sets the stop button light.
pub fn stop_button_light_packet(on: bool) -> (r: [u8; 4])
    ensures
        r@ == spec_stop_button_light_packet(on),
{
    let flag: u8 = if on { 1 } else { 0 };
    let r = [5u8, flag, 0u8, 0u8];
    assert(r@ =~= spec_stop_button_light_packet(on));
    r
}

/// The query for one call button.
pub fn call_button_query(floor: u8, call: u8) -> (r: [u8; 4])
    ensures
        r@ == spec_call_button_query(floor, call),
{
    let r = [6u8, call, floor, 0u8];
    assert(r@ =~= spec_call_button_query(floor, call));
    r
}

/// The query for the floor sensor.
pub fn floor_sensor_query() -> (r: [u8; 4])
    ensures
        r@ == spec_floor_sensor_query(),
{
    let r = [7u8, 0u8, 0u8, 0u8];
    assert(r@ =~= spec_floor_sensor_query());
    r
}

/// The query for the stop button.
pub fn stop_button_query() -> (r: [u8; 4])
    ensures
        r@ == spec_stop_button_query(),
{
    let r = [8u8, 0u8, 0u8, 0u8];
    assert(r@ =~= spec_stop_button_query());
    r
}

/// The query for the door obstruction switch.
pub fn obstruction_query() -> (r: [u8; 4])
    ensures
        r@ == spec_obstruction_query(),
{
    let r = [9u8, 0u8, 0u8, 0u8];
    assert(r@ =~= spec_obstruction_query());
    r
}

/// Reads a yes/no reply (call button, stop button, obstruction): `true`
/// when the second byte is non-zero.
pub fn decode_flag_reply(reply: [u8; 4]) -> (r: bool)
    ensures
        r == spec_flag_reply(reply@),
{
    reply[1] != 0
}

/// Reads a floor sensor reply: the floor when the second byte is non-zero,
/// `None` (between floors) otherwise.
pub fn decode_floor_reply(reply: [u8; 4]) -> (r: Option<u8>)
    ensures
        r == spec_floor_reply(reply@),
{
    if reply[1] != 0 {
        Some(reply[2])
    } else {
        None
    }
}

/// A floor reply and a yes/no reply read the same flag: the floor reply
/// gives a floor exactly when the second byte is non-zero, and that floor is
/// the third byte, whatever its value (floor 0 included).
pub proof fn lemma_floor_reply_reads_flag_and_floor(reply: Seq<u8>)
    requires
        reply.len() == 4,
    ensures
        spec_floor_reply(reply) is Some <==> spec_flag_reply(reply),
        spec_flag_reply(reply) <==> reply[1] != 0,
        reply[1] != 0 ==> spec_floor_reply(reply) == Some(reply[2]),
        reply[1] == 0 ==> spec_floor_reply(reply) is None,
{
}

/// The query for a call button and the light command of that button
/// address it the same way: call code in the second byte, floor in the
/// third. Every query and command starts with its own number.
pub proof fn lemma_button_addressing(floor: u8, call: u8, on: bool)
    ensures
        spec_call_button_query(floor, call).len() == 4,
        spec_call_button_light_packet(floor, call, on).len() == 4,
        spec_call_button_query(floor, call)[1] == call,
        spec_call_button_query(floor, call)[2] == floor,
        spec_call_button_light_packet(floor, call, on)[1] == call,
        spec_call_button_light_packet(floor, call, on)[2] == floor,
        spec_call_button_query(floor, call)[0] == 6,
        spec_call_button_light_packet(floor, call, on)[0] == 2,
        spec_floor_sensor_query()[0] == 7,
        spec_stop_button_query()[0] == 8,
        spec_obstruction_query()[0] == 9,
        spec_call_button_query(floor, call)[3] == 0,
        spec_floor_sensor_query() == seq![7u8, 0, 0, 0],
        spec_stop_button_query() == seq![8u8, 0, 0, 0],
        spec_obstruction_query() == seq![9u8, 0, 0, 0],
{
}

} // verus!
