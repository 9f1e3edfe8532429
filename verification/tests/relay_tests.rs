use pico_relay::relay::Buttons;
use pico_relay::relay::Relay;
use pico_relay::relay::Sample;
use pico_relay::wire::encode_line;
use pico_relay::wire::Channel;

fn sample(throttle: u16, servo: u16) -> Sample {
    Sample { throttle, servo, buttons: Buttons::default() }
}

fn sample_btn(buttons: Buttons) -> Sample {
    // Keep the analog channels at their reported-zero raw readings so only
    // the buttons move: raw 4095 reads as throttle bucket 0, raw 0 as servo
    // bucket 0.
    Sample { throttle: 4095, servo: 0, buttons }
}

#[test]
fn encode_line_format() {
    assert_eq!(encode_line(Channel::Speed, 100), b"speed 100\r\n".to_vec());
    assert_eq!(encode_line(Channel::Speed, 0), b"speed 0\r\n".to_vec());
    assert_eq!(encode_line(Channel::Servo, 40), b"servo 40\r\n".to_vec());
    assert_eq!(encode_line(Channel::W, 1), b"w 1\r\n".to_vec());
    assert_eq!(encode_line(Channel::A, 0), b"a 0\r\n".to_vec());
    assert_eq!(encode_line(Channel::S, 1), b"s 1\r\n".to_vec());
    assert_eq!(encode_line(Channel::D, 0), b"d 0\r\n".to_vec());
    assert_eq!(encode_line(Channel::Buzzer, 1), b"buzzer 1\r\n".to_vec());
}

#[test]
fn throttle_pot_sequence() {
    // Raw readings at or above 4000 all quantise to bucket 0, which equals
    // the initial reported value, so the first four samples stay silent;
    // the final reading jumps to the maximum bucket.
    let mut relay = Relay::new();
    let mut out: Vec<Vec<u8>> = Vec::new();
    for raw in [4095u16, 4095, 3999, 3959, 0] {
        out.extend(relay.tick(sample(raw, 0)));
    }
    assert_eq!(out, vec![b"speed 100\r\n".to_vec()]);
}

#[test]
fn throttle_pot_boundary_steps() {
    // One line per crossed bucket: 15, then 20, then back to 15.
    let mut relay = Relay::new();
    let mut out: Vec<Vec<u8>> = Vec::new();
    for raw in [3300u16, 3300, 3100, 3300] {
        out.extend(relay.tick(sample(raw, 0)));
    }
    assert_eq!(
        out,
        vec![b"speed 15\r\n".to_vec(), b"speed 20\r\n".to_vec(), b"speed 15\r\n".to_vec()]
    );
}

#[test]
fn servo_pot_sequence() {
    // The first two samples quantise to the initial bucket 0 and emit
    // nothing; 3425 lands in bucket 40; 4100 and 4200 both collapse onto
    // the top bucket 90, so the last sample stays silent.
    let mut relay = Relay::new();
    let mut out: Vec<Vec<u8>> = Vec::new();
    for raw in [0u16, 2750, 3425, 4100, 4200] {
        out.extend(relay.tick(sample(4095, raw)));
    }
    assert_eq!(out, vec![b"servo 40\r\n".to_vec(), b"servo 90\r\n".to_vec()]);
}

#[test]
fn button_press_release() {
    let mut relay = Relay::new();
    let pressed = Buttons { w: true, ..Buttons::default() };
    let lines = relay.tick(sample_btn(pressed));
    assert_eq!(lines, vec![b"w 1\r\n".to_vec()]);
    let lines = relay.tick(sample_btn(Buttons::default()));
    assert_eq!(lines, vec![b"w 0\r\n".to_vec()]);
}

#[test]
fn buzzer_held_reports_once() {
    let mut relay = Relay::new();
    let held = Buttons { buzzer: true, ..Buttons::default() };
    let mut out: Vec<Vec<u8>> = Vec::new();
    for _ in 0..100 {
        out.extend(relay.tick(sample_btn(held)));
    }
    assert_eq!(out, vec![b"buzzer 1\r\n".to_vec()]);
}

#[test]
fn identical_samples_stay_silent() {
    // Once a sample has been reported, repeating it emits nothing at all.
    let mut relay = Relay::new();
    let s = Sample {
        throttle: 2300,
        servo: 3425,
        buttons: Buttons { w: true, a: false, s: true, d: false, buzzer: false },
    };
    let first = relay.tick(s);
    assert_eq!(first.len(), 4); // speed, servo, w, s
    for _ in 0..5 {
        assert_eq!(relay.tick(s), Vec::<Vec<u8>>::new());
    }
}

#[test]
fn tick_emission_order() {
    // Within one tick the channels report in the fixed order
    // speed, servo, w, a, s, d, buzzer.
    let mut relay = Relay::new();
    let s = Sample {
        throttle: 0,
        servo: 4100,
        buttons: Buttons { w: true, a: true, s: true, d: true, buzzer: true },
    };
    let lines = relay.tick(s);
    assert_eq!(
        lines,
        vec![
            b"speed 100\r\n".to_vec(),
            b"servo 90\r\n".to_vec(),
            b"w 1\r\n".to_vec(),
            b"a 1\r\n".to_vec(),
            b"s 1\r\n".to_vec(),
            b"d 1\r\n".to_vec(),
            b"buzzer 1\r\n".to_vec(),
        ]
    );
}

#[test]
fn led_bar_follows_throttle() {
    // Drive the bucket up through 20, 40, 60, 80, 100: every lamp ends
    // high; then fall to 15: only the armed lamp stays high.
    let mut relay = Relay::new();
    for raw in [3100u16, 2300, 1500, 700, 0] {
        relay.tick(sample(raw, 0));
    }
    assert!(relay.leds.l0);
    assert!(relay.leds.l1);
    assert!(relay.leds.l2);
    assert!(relay.leds.l3);
    assert!(relay.leds.l4);

    relay.tick(sample(3300, 0)); // bucket 15
    assert!(relay.leds.l0);
    assert!(!relay.leds.l1);
    assert!(!relay.leds.l2);
    assert!(!relay.leds.l3);
    assert!(!relay.leds.l4);
}

#[test]
fn led_bar_dark_until_first_report() {
    // Before any throttle line the bar is dark; the armed lamp lights with
    // the first report and never clears.
    let mut relay = Relay::new();
    relay.tick(sample(4095, 0)); // bucket 0, no report
    assert!(!relay.leds.l0);
    relay.tick(sample(3300, 0)); // bucket 15, reported
    assert!(relay.leds.l0);
    relay.tick(sample(4095, 0)); // back to bucket 0, reported
    assert!(relay.leds.l0);
    assert!(!relay.leds.l1);
}

#[test]
fn initial_state_reads_zero() {
    let relay = Relay::new();
    assert_eq!(relay.speed, 0);
    assert_eq!(relay.servo, 0);
    assert_eq!(relay.buttons, Buttons::default());
    assert!(!relay.leds.l0);
}
