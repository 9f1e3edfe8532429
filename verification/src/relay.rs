//! The relay's change detector and LED bar.
//!
//! The relay keeps the last reported bucket or level of each channel.  Each
//! tick it quantises the fresh sample and emits one wire line per channel
//! whose value differs from the last reported one, in the fixed order
//! `speed, servo, w, a, s, d, buzzer`; an unchanged channel stays silent.
//! On a throttle change the five-lamp LED bar is rewritten: the armed lamp
//! goes high and stays high, and the four threshold lamps show whether the
//! bucket has reached 20, 40, 60 and 80.

use crate::quant::servo_bucket;
use crate::quant::servo_bucket_spec;
use crate::quant::throttle_bucket;
use crate::quant::throttle_bucket_spec;
use crate::wire::encode_line;
use crate::wire::line_spec;
use crate::wire::Channel;
use vstd::prelude::*;

verus! {

/// Pressed state of the five push-buttons; `true` means pressed.
#[derive(Clone, Copy, PartialEq, Eq, Structural, Debug)]
pub struct Buttons {
    pub w: bool,
    pub a: bool,
    pub s: bool,
    pub d: bool,
    pub buzzer: bool,
}

impl Buttons {
    /// All buttons released.
    pub open spec fn released() -> Buttons {
        Buttons { w: false, a: false, s: false, d: false, buzzer: false }
    }
}

impl Default for Buttons {
    /// Start with every button released.
    fn default() -> (b: Buttons)
        ensures
            b == Buttons::released(),
    {
        Buttons { w: false, a: false, s: false, d: false, buzzer: false }
    }
}

/// One tick's raw inputs: the two ADC readings and the five button levels,
/// already converted so that `true` means pressed (the pins read low).
#[derive(Clone, Copy, PartialEq, Eq, Structural, Debug)]
pub struct Sample {
    pub throttle: u16,
    pub servo: u16,
    pub buttons: Buttons,
}

/// Levels of the five-lamp LED bar; `true` means lit.
#[derive(Clone, Copy, PartialEq, Eq, Structural, Debug)]
pub struct LedBar {
    /// Armed lamp: lit once any throttle line has been emitted.
    pub l0: bool,
    /// Lit while the reported throttle bucket is at least 20.
    pub l1: bool,
    /// Lit while the reported throttle bucket is at least 40.
    pub l2: bool,
    /// Lit while the reported throttle bucket is at least 60.
    pub l3: bool,
    /// Lit while the reported throttle bucket is at least 80.
    pub l4: bool,
}

impl LedBar {
    /// All lamps dark, as after reset.
    pub open spec fn dark() -> LedBar {
        LedBar { l0: false, l1: false, l2: false, l3: false, l4: false }
    }

    /// The bar shown for a reported throttle bucket: armed lamp lit, the
    /// four threshold lamps per the bucket.
    pub open spec fn for_bucket(bucket: u16) -> LedBar {
        LedBar { l0: true, l1: bucket >= 20, l2: bucket >= 40, l3: bucket >= 60, l4: bucket >= 80 }
    }
}

/// The wire value of a button level.
pub open spec fn button_val(pressed: bool) -> nat {
    if pressed {
        1
    } else {
        0
    }
}

/// The relay's state between ticks: the last reported value of every
/// channel, and the LED bar levels.
#[derive(Clone, Copy, PartialEq, Eq, Structural, Debug)]
pub struct Relay {
    /// Last reported throttle bucket.
    pub speed: u16,
    /// Last reported servo bucket.
    pub servo: u16,
    /// Last reported button levels.
    pub buttons: Buttons,
    /// Current LED bar levels.
    pub leds: LedBar,
}

impl Relay {
    /// The state at boot: every channel reads as zero or released, the bar
    /// is dark.
    pub open spec fn initial() -> Relay {
        Relay { speed: 0, servo: 0, buttons: Buttons::released(), leds: LedBar::dark() }
    }

    /// The LED bar mirrors the reported throttle: dark until the first
    /// throttle line, then exactly the bar for the last reported bucket.
    pub open spec fn wf(self) -> bool {
        if self.leds.l0 {
            self.leds == LedBar::for_bucket(self.speed)
        } else {
            self.leds == LedBar::dark()
        }
    }

    /// Whether channel `c`'s freshly quantised value differs from the last
    /// reported one, so that this tick must report it.
    pub open spec fn changed(self, s: Sample, c: Channel) -> bool {
        match c {
            Channel::Speed => throttle_bucket_spec(s.throttle) != self.speed as int,
            Channel::Servo => servo_bucket_spec(s.servo) != self.servo as int,
            Channel::W => s.buttons.w != self.buttons.w,
            Channel::A => s.buttons.a != self.buttons.a,
            Channel::S => s.buttons.s != self.buttons.s,
            Channel::D => s.buttons.d != self.buttons.d,
            Channel::Buzzer => s.buttons.buzzer != self.buttons.buzzer,
        }
    }

    /// The value channel `c` reports for sample `s`: the fresh bucket for
    /// the analog channels, 1 or 0 for a button.
    pub open spec fn fresh_value(self, s: Sample, c: Channel) -> nat {
        match c {
            Channel::Speed => throttle_bucket_spec(s.throttle) as nat,
            Channel::Servo => servo_bucket_spec(s.servo) as nat,
            Channel::W => button_val(s.buttons.w),
            Channel::A => button_val(s.buttons.a),
            Channel::S => button_val(s.buttons.s),
            Channel::D => button_val(s.buttons.d),
            Channel::Buzzer => button_val(s.buttons.buzzer),
        }
    }

    /// The line channel `c` would contribute this tick: its wire line when
    /// it changed, nothing when it did not.
    pub open spec fn tick_line(self, s: Sample, c: Channel) -> Seq<Seq<u8>> {
        if self.changed(s, c) {
            seq![line_spec(c, self.fresh_value(s, c))]
        } else {
            Seq::empty()
        }
    }

    /// Everything one tick on sample `s` emits, in the fixed channel order.
    pub open spec fn tick_lines(self, s: Sample) -> Seq<Seq<u8>> {
        self.tick_line(s, Channel::Speed) + self.tick_line(s, Channel::Servo) + self.tick_line(
            s,
            Channel::W,
        ) + self.tick_line(s, Channel::A) + self.tick_line(s, Channel::S) + self.tick_line(
            s,
            Channel::D,
        ) + self.tick_line(s, Channel::Buzzer)
    }

    /// The state after one tick on sample `s`: every channel now reads the
    /// fresh value, and the LED bar is rewritten exactly when the throttle
    /// was reported.
    pub open spec fn next(self, s: Sample) -> Relay {
        Relay {
            speed: throttle_bucket_spec(s.throttle) as u16,
            servo: servo_bucket_spec(s.servo) as u16,
            buttons: s.buttons,
            leds: if self.changed(s, Channel::Speed) {
                LedBar::for_bucket(throttle_bucket_spec(s.throttle) as u16)
            } else {
                self.leds
            },
        }
    }

    /// The boot state: all channels at zero or released, LED bar dark.
    pub fn new() -> (r: Relay)
        ensures
            r == Relay::initial(),
            r.wf(),
    {
        Relay {
            speed: 0,
            servo: 0,
            buttons: Buttons::default(),
            leds: LedBar { l0: false, l1: false, l2: false, l3: false, l4: false },
        }
    }

    /// Whether channel `c` is one of the five button channels.
    pub open spec fn is_button(c: Channel) -> bool {
        match c {
            Channel::Speed => false,
            Channel::Servo => false,
            _ => true,
        }
    }

    /// The last reported level of button channel `c`.
    pub open spec fn button_of(self, c: Channel) -> bool {
        match c {
            Channel::W => self.buttons.w,
            Channel::A => self.buttons.a,
            Channel::S => self.buttons.s,
            Channel::D => self.buttons.d,
            Channel::Buzzer => self.buttons.buzzer,
            _ => false,
        }
    }

    /// The state with button channel `c` reported at level `pressed`.
    pub open spec fn set_button(self, c: Channel, pressed: bool) -> Relay {
        match c {
            Channel::W => Relay { buttons: Buttons { w: pressed, ..self.buttons }, ..self },
            Channel::A => Relay { buttons: Buttons { a: pressed, ..self.buttons }, ..self },
            Channel::S => Relay { buttons: Buttons { s: pressed, ..self.buttons }, ..self },
            Channel::D => Relay { buttons: Buttons { d: pressed, ..self.buttons }, ..self },
            Channel::Buzzer => Relay {
                buttons: Buttons { buzzer: pressed, ..self.buttons },
                ..self
            },
            _ => self,
        }
    }

    /// Quantise the throttle reading; on a change, report it and rewrite
    /// the LED bar.
    fn step_throttle(&mut self, raw: u16, lines: &mut Vec<Vec<u8>>)
        ensures
            *final(self) == (Relay {
                speed: throttle_bucket_spec(raw) as u16,
                servo: old(self).servo,
                buttons: old(self).buttons,
                leds: if throttle_bucket_spec(raw) != old(self).speed as int {
                    LedBar::for_bucket(throttle_bucket_spec(raw) as u16)
                } else {
                    old(self).leds
                },
            }),
            throttle_bucket_spec(raw) == old(self).speed as int ==> final(lines)@ == old(lines)@,
            throttle_bucket_spec(raw) != old(self).speed as int ==> final(lines)@.len() == old(
                lines,
            )@.len() + 1 && (final(lines)@[old(lines)@.len() as int])@ == line_spec(
                Channel::Speed,
                throttle_bucket_spec(raw) as nat,
            ) && (forall|i: int|
                0 <= i < old(lines)@.len() ==> final(lines)@[i] == old(lines)@[i]),
    {
        let speed = throttle_bucket(raw);
        if speed != self.speed {
            self.speed = speed;
            self.leds = LedBar {
                l0: true,
                l1: speed >= 20,
                l2: speed >= 40,
                l3: speed >= 60,
                l4: speed >= 80,
            };
            lines.push(encode_line(Channel::Speed, speed));
        }
    }

    /// Quantise the servo reading; on a change, report it.
    fn step_servo(&mut self, raw: u16, lines: &mut Vec<Vec<u8>>)
        ensures
            *final(self) == (Relay {
                servo: servo_bucket_spec(raw) as u16,
                ..*old(self)
            }),
            servo_bucket_spec(raw) == old(self).servo as int ==> final(lines)@ == old(lines)@,
            servo_bucket_spec(raw) != old(self).servo as int ==> final(lines)@.len() == old(
                lines,
            )@.len() + 1 && (final(lines)@[old(lines)@.len() as int])@ == line_spec(
                Channel::Servo,
                servo_bucket_spec(raw) as nat,
            ) && (forall|i: int|
                0 <= i < old(lines)@.len() ==> final(lines)@[i] == old(lines)@[i]),
    {
        let servo = servo_bucket(raw);
        if servo != self.servo {
            self.servo = servo;
            lines.push(encode_line(Channel::Servo, servo));
        }
    }

    /// Sample one button; on a change versus the last reported level,
    /// report the new level.
    fn step_button(&mut self, c: Channel, pressed: bool, lines: &mut Vec<Vec<u8>>)
        requires
            Relay::is_button(c),
        ensures
            *final(self) == old(self).set_button(c, pressed),
            pressed == old(self).button_of(c) ==> final(lines)@ == old(lines)@,
            pressed != old(self).button_of(c) ==> final(lines)@.len() == old(lines)@.len() + 1 && (
            final(lines)@[old(lines)@.len() as int])@ == line_spec(c, button_val(pressed)) && (
            forall|i: int| 0 <= i < old(lines)@.len() ==> final(lines)@[i] == old(lines)@[i]),
    {
        let prev = match c {
            Channel::W => self.buttons.w,
            Channel::A => self.buttons.a,
            Channel::S => self.buttons.s,
            Channel::D => self.buttons.d,
            _ => self.buttons.buzzer,
        };
        if pressed != prev {
            match c {
                Channel::W => self.buttons.w = pressed,
                Channel::A => self.buttons.a = pressed,
                Channel::S => self.buttons.s = pressed,
                Channel::D => self.buttons.d = pressed,
                _ => self.buttons.buzzer = pressed,
            }
            lines.push(encode_line(c, if pressed { 1 } else { 0 }));
        }
    }

    /// One tick: quantise the sample, emit one line per changed channel in
    /// the fixed order, update the last reported values, and rewrite the
    /// LED bar on a throttle change.  Identical consecutive samples emit
    /// nothing.
    #[verifier::rlimit(100)]
    pub fn tick(&mut self, s: Sample) -> (lines: Vec<Vec<u8>>)
        requires
            old(self).wf(),
        ensures
            *final(self) == old(self).next(s),
            final(self).wf(),
            lines@.len() == old(self).tick_lines(s).len(),
            forall|i: int|
                0 <= i < lines@.len() ==> (#[trigger] lines@[i])@ == old(self).tick_lines(s)[i],
    {
        let ghost st0 = *self;
        let ghost mut emitted: Seq<Seq<u8>> = Seq::empty();
        let mut lines: Vec<Vec<u8>> = Vec::new();

        self.step_throttle(s.throttle, &mut lines);
        proof {
            emitted = emitted + st0.tick_line(s, Channel::Speed);
            assert(lines@.len() == emitted.len());
            assert(forall|i: int|
                0 <= i < lines@.len() ==> (#[trigger] lines@[i])@ == emitted[i]);
        }

        self.step_servo(s.servo, &mut lines);
        proof {
            emitted = emitted + st0.tick_line(s, Channel::Servo);
            assert(lines@.len() == emitted.len());
            assert(forall|i: int|
                0 <= i < lines@.len() ==> (#[trigger] lines@[i])@ == emitted[i]);
        }

        self.step_button(Channel::W, s.buttons.w, &mut lines);
        proof {
            emitted = emitted + st0.tick_line(s, Channel::W);
            assert(lines@.len() == emitted.len());
            assert(forall|i: int|
                0 <= i < lines@.len() ==> (#[trigger] lines@[i])@ == emitted[i]);
        }

        self.step_button(Channel::A, s.buttons.a, &mut lines);
        proof {
            emitted = emitted + st0.tick_line(s, Channel::A);
            assert(lines@.len() == emitted.len());
            assert(forall|i: int|
                0 <= i < lines@.len() ==> (#[trigger] lines@[i])@ == emitted[i]);
        }

        self.step_button(Channel::S, s.buttons.s, &mut lines);
        proof {
            emitted = emitted + st0.tick_line(s, Channel::S);
            assert(lines@.len() == emitted.len());
            assert(forall|i: int|
                0 <= i < lines@.len() ==> (#[trigger] lines@[i])@ == emitted[i]);
        }

        self.step_button(Channel::D, s.buttons.d, &mut lines);
        proof {
            emitted = emitted + st0.tick_line(s, Channel::D);
            assert(lines@.len() == emitted.len());
            assert(forall|i: int|
                0 <= i < lines@.len() ==> (#[trigger] lines@[i])@ == emitted[i]);
        }

        self.step_button(Channel::Buzzer, s.buttons.buzzer, &mut lines);
        proof {
            emitted = emitted + st0.tick_line(s, Channel::Buzzer);
            assert(lines@.len() == emitted.len());
            assert(forall|i: int|
                0 <= i < lines@.len() ==> (#[trigger] lines@[i])@ == emitted[i]);
        }

        proof {
            assert(emitted =~= st0.tick_lines(s));
            assert(*self == st0.next(s));
        }
        lines
    }
}

/// Idempotence: a tick whose buckets and levels all equal the last reported
/// ones emits no line at all.
pub proof fn lemma_tick_idempotent(st: Relay, s: Sample)
    requires
        !st.changed(s, Channel::Speed),
        !st.changed(s, Channel::Servo),
        !st.changed(s, Channel::W),
        !st.changed(s, Channel::A),
        !st.changed(s, Channel::S),
        !st.changed(s, Channel::D),
        !st.changed(s, Channel::Buzzer),
    ensures
        st.tick_lines(s).len() == 0,
        st.next(s) == st,
{
    assert(st.next(s) == st);
}

/// Minimality: every line a tick emits reports a channel whose value
/// actually changed since it was last reported, and carries exactly that
/// channel's fresh value.
pub proof fn lemma_tick_minimal(st: Relay, s: Sample, i: int)
    requires
        0 <= i < st.tick_lines(s).len(),
    ensures
        exists|c: Channel|
            #[trigger] st.changed(s, c) && st.tick_lines(s)[i] == line_spec(
                c,
                st.fresh_value(s, c),
            ),
{
    let t = st.tick_lines(s);
    let a1 = st.tick_line(s, Channel::Speed);
    let a2 = a1 + st.tick_line(s, Channel::Servo);
    let a3 = a2 + st.tick_line(s, Channel::W);
    let a4 = a3 + st.tick_line(s, Channel::A);
    let a5 = a4 + st.tick_line(s, Channel::S);
    let a6 = a5 + st.tick_line(s, Channel::D);
    let a7 = a6 + st.tick_line(s, Channel::Buzzer);
    assert(t == a7);
    if i < a1.len() {
        let c = Channel::Speed;
        assert(t[i] == a1[i]);
        assert(st.changed(s, c) && t[i] == line_spec(c, st.fresh_value(s, c)));
    } else if i < a2.len() {
        let c = Channel::Servo;
        assert(t[i] == a2[i]);
        assert(st.changed(s, c) && t[i] == line_spec(c, st.fresh_value(s, c)));
    } else if i < a3.len() {
        let c = Channel::W;
        assert(t[i] == a3[i]);
        assert(st.changed(s, c) && t[i] == line_spec(c, st.fresh_value(s, c)));
    } else if i < a4.len() {
        let c = Channel::A;
        assert(t[i] == a4[i]);
        assert(st.changed(s, c) && t[i] == line_spec(c, st.fresh_value(s, c)));
    } else if i < a5.len() {
        let c = Channel::S;
        assert(t[i] == a5[i]);
        assert(st.changed(s, c) && t[i] == line_spec(c, st.fresh_value(s, c)));
    } else if i < a6.len() {
        let c = Channel::D;
        assert(t[i] == a6[i]);
        assert(st.changed(s, c) && t[i] == line_spec(c, st.fresh_value(s, c)));
    } else {
        let c = Channel::Buzzer;
        assert(st.changed(s, c) && t[i] == line_spec(c, st.fresh_value(s, c)));
    }
}

} // verus!
