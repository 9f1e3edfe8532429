use pico_relay::bridge::handle_line;
use pico_relay::bridge::motion;
use pico_relay::bridge::split_line;
use pico_relay::bridge::BridgeError;
use pico_relay::bridge::Command;
use pico_relay::bridge::State;
use pico_relay::relay::Buttons;
use pico_relay::relay::Relay;
use pico_relay::relay::Sample;
use pico_relay::text::parse_u16;
use pico_relay::text::trim;

fn feed(state: &mut State, line: &[u8]) -> Result<Command, BridgeError> {
    handle_line(state, &line.to_vec())
}

#[test]
fn split_line_basics() {
    let r = split_line(&b"speed 50\r\n".to_vec());
    assert_eq!(r, Some((b"speed".to_vec(), b"50".to_vec())));
    let r = split_line(&b"w 1\r\n".to_vec());
    assert_eq!(r, Some((b"w".to_vec(), b"1".to_vec())));
    // No space: no key/value split.
    assert_eq!(split_line(&b"speed\r\n".to_vec()), None);
    assert_eq!(split_line(&b"".to_vec()), None);
    // Only the first space splits; the value keeps inner spaces.
    let r = split_line(&b"speed 5 0\r\n".to_vec());
    assert_eq!(r, Some((b"speed".to_vec(), b"5 0".to_vec())));
}

#[test]
fn trim_and_parse() {
    assert_eq!(trim(&b"  50\r\n".to_vec()), b"50".to_vec());
    assert_eq!(trim(&b"\t \r\n".to_vec()), b"".to_vec());
    assert_eq!(trim(&b"50".to_vec()), b"50".to_vec());
    assert_eq!(parse_u16(&b"0".to_vec()), Some(0));
    assert_eq!(parse_u16(&b"65535".to_vec()), Some(65535));
    assert_eq!(parse_u16(&b"65536".to_vec()), None);
    assert_eq!(parse_u16(&b"99999".to_vec()), None);
    assert_eq!(parse_u16(&b"".to_vec()), None);
    assert_eq!(parse_u16(&b"4x2".to_vec()), None);
    assert_eq!(parse_u16(&b"-1".to_vec()), None);
}

#[test]
fn forward_left_diagonal() {
    // speed 50, forward, turning left: the left wheel runs at a third.
    // drive(50/300, 150/300) is drive(0.50/3, 0.50).
    let mut st = State::default();
    assert_eq!(feed(&mut st, b"speed 50\r\n"), Ok(Command::Stop));
    assert_eq!(feed(&mut st, b"w 1\r\n"), Ok(Command::Drive { left: 150, right: 150 }));
    assert_eq!(feed(&mut st, b"a 1\r\n"), Ok(Command::Drive { left: 50, right: 150 }));
}

#[test]
fn rotate_in_place() {
    let mut st = State::default();
    feed(&mut st, b"speed 50\r\n").unwrap();
    // Bare left: rotate left in place.
    assert_eq!(feed(&mut st, b"a 1\r\n"), Ok(Command::Drive { left: -150, right: 150 }));
    // Bare right instead: rotate right in place.
    feed(&mut st, b"a 0\r\n").unwrap();
    assert_eq!(feed(&mut st, b"d 1\r\n"), Ok(Command::Drive { left: 150, right: -150 }));
}

#[test]
fn reverse_and_stop() {
    let mut st = State::default();
    feed(&mut st, b"speed 80\r\n").unwrap();
    // Reverse straight.
    assert_eq!(feed(&mut st, b"s 1\r\n"), Ok(Command::Drive { left: -240, right: -240 }));
    // Reverse, turning right: the right wheel runs at a third.
    assert_eq!(feed(&mut st, b"d 1\r\n"), Ok(Command::Drive { left: -240, right: -80 }));
    // Forward and reverse together cancel; with right still held the robot
    // rotates right in place.
    assert_eq!(feed(&mut st, b"w 1\r\n"), Ok(Command::Drive { left: 240, right: -240 }));
    // Releasing right leaves no direction at all: stop.
    assert_eq!(feed(&mut st, b"d 0\r\n"), Ok(Command::Stop));
}

#[test]
fn servo_line_swings_servo() {
    // A servo line becomes a swing to 45 - value degrees and leaves the
    // key state alone.
    let mut st = State::default();
    feed(&mut st, b"speed 50\r\n").unwrap();
    assert_eq!(feed(&mut st, b"servo 90\r\n"), Ok(Command::Servo { angle: -45 }));
    assert_eq!(feed(&mut st, b"servo 0\r\n"), Ok(Command::Servo { angle: 45 }));
    assert_eq!(st.speed, 50);
}

#[test]
fn buzzer_line_sets_buzzer() {
    let mut st = State::default();
    assert_eq!(feed(&mut st, b"buzzer 1\r\n"), Ok(Command::Buzzer { value: 0 }));
    assert_eq!(feed(&mut st, b"buzzer 0\r\n"), Ok(Command::Buzzer { value: 1 }));
    assert_eq!(st, State::default());
}

#[test]
fn unknown_key_is_fatal() {
    let mut st = State::default();
    assert_eq!(feed(&mut st, b"speeed 50\r\n"), Err(BridgeError::UnknownKey));
    assert_eq!(feed(&mut st, b"SPEED 50\r\n"), Err(BridgeError::UnknownKey));
    assert_eq!(feed(&mut st, b" speed 50\r\n"), Err(BridgeError::UnknownKey));
    assert_eq!(st, State::default());
}

#[test]
fn bad_number_is_fatal() {
    let mut st = State::default();
    assert_eq!(feed(&mut st, b"speed fast\r\n"), Err(BridgeError::BadNumber));
    assert_eq!(feed(&mut st, b"speed 70000\r\n"), Err(BridgeError::BadNumber));
    assert_eq!(feed(&mut st, b"speed \r\n"), Err(BridgeError::BadNumber));
    assert_eq!(feed(&mut st, b"servo x\r\n"), Err(BridgeError::BadNumber));
    assert_eq!(st, State::default());
}

#[test]
fn button_value_other_than_one_releases() {
    // Any value but the exact byte `1` reads as released, as on the wire.
    let mut st = State::default();
    feed(&mut st, b"w 1\r\n").unwrap();
    assert!(st.w);
    feed(&mut st, b"w 2\r\n").unwrap();
    assert!(!st.w);
}

#[test]
fn relay_feeds_bridge_end_to_end() {
    // Lines the relay emits decode on the host without error and drive the
    // host's state to the emitted values.
    let mut relay = Relay::new();
    let mut st = State::default();
    // Raw 2000 quantises to throttle bucket 50; forward is pressed.
    let s = Sample {
        throttle: 2000,
        servo: 0,
        buttons: Buttons { w: true, a: false, s: false, d: false, buzzer: false },
    };
    let mut last = None;
    for line in relay.tick(s) {
        last = Some(handle_line(&mut st, &line).unwrap());
    }
    assert_eq!(st.speed, 50);
    assert!(st.w);
    assert_eq!(last, Some(Command::Drive { left: 150, right: 150 }));
}

#[test]
fn motion_zero_speed() {
    // With speed 0 every drive collapses to zero wheel speeds.
    let st = State { speed: 0, w: true, a: false, s: false, d: false };
    assert_eq!(motion(&st), Command::Drive { left: 0, right: 0 });
    let st = State { speed: 0, w: false, a: false, s: false, d: false };
    assert_eq!(motion(&st), Command::Stop);
}
