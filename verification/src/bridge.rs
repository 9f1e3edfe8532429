//! Host-side bridge: decode wire lines into robot commands.
//!
//! The bridge keeps the last reported speed bucket and the four directional
//! button levels.  Each received line either updates that state and yields a
//! fresh motion command, or yields a servo or buzzer command directly.  An
//! unknown channel or a malformed number is a fatal decoding error.
//!
//! Wheel speeds are exact rationals: a `Drive` command carries the two
//! numerators over the fixed denominator `DRIVE_DENOM`, so a full wheel at
//! speed bucket `b` is `3·b/300 = b/100` and the slower wheel of a diagonal
//! is `b/300 = (b/100)/3`.

use crate::text::dec_val;
use crate::text::digit_of;
use crate::text::find_space;
use crate::text::first_space;
use crate::text::is_digits;
use crate::text::parse_u16;
use crate::text::trim;
use crate::text::trim_spec;
use crate::text::bytes_eq;
use crate::text::copy_range;
use crate::wire::channel_name;
use crate::wire::dec_digits;
use crate::wire::line_spec;
use crate::wire::push_channel_name;
use crate::wire::Channel;
use vstd::prelude::*;

verus! {

/// Denominator of the wheel-speed rationals carried by `Command::Drive`.
pub const DRIVE_DENOM: i32 = 300;

/// The bridge's key state: last reported speed bucket and directional
/// button levels.
#[derive(Clone, Copy, PartialEq, Eq, Structural, Debug)]
pub struct State {
    pub speed: u16,
    pub w: bool,
    pub a: bool,
    pub s: bool,
    pub d: bool,
}

impl State {
    /// The state before any line arrived: speed 0, nothing pressed.
    pub open spec fn initial() -> State {
        State { speed: 0, w: false, a: false, s: false, d: false }
    }
}

impl Default for State {
    /// Start from speed 0 with no button pressed.
    fn default() -> (st: State)
        ensures
            st == State::initial(),
    {
        State { speed: 0, w: false, a: false, s: false, d: false }
    }
}

/// One command for the robot.
#[derive(Clone, Copy, PartialEq, Eq, Structural, Debug)]
pub enum Command {
    /// Stop both wheels.
    Stop,
    /// Drive the wheels at `left/DRIVE_DENOM` and `right/DRIVE_DENOM` of
    /// full speed; negative numerators run a wheel backwards.
    Drive { left: i32, right: i32 },
    /// Swing the servo to `angle` degrees.
    Servo { angle: i32 },
    /// Retune the buzzer: 0 while the button is pressed, 1 once released.
    Buzzer { value: u8 },
}

/// A fatal decoding error.
#[derive(Clone, Copy, PartialEq, Eq, Structural, Debug)]
pub enum BridgeError {
    /// The line's channel is none of the seven known ones.
    UnknownKey,
    /// The line's value is not a decimal number in range.
    BadNumber,
}

/// Numerator of a full-speed wheel: `speed/100` over `DRIVE_DENOM`.
pub open spec fn full_wheel(st: State) -> int {
    3 * st.speed as int
}

/// Numerator of the slower wheel of a diagonal: a third of full speed.
pub open spec fn third_wheel(st: State) -> int {
    st.speed as int
}

/// The motion command the key state calls for: rotate in place on a bare
/// left or right, drive straight or diagonally under forward or reverse,
/// and stop otherwise.  Diagonals slow the wheel on the side being turned
/// toward to a third.
pub open spec fn motion_spec(st: State) -> Command {
    if st.w == st.s {
        if st.a && !st.d {
            Command::Drive { left: (-full_wheel(st)) as i32, right: full_wheel(st) as i32 }
        } else if st.d && !st.a {
            Command::Drive { left: full_wheel(st) as i32, right: (-full_wheel(st)) as i32 }
        } else {
            Command::Stop
        }
    } else {
        if st.a == st.d {
            Command::Drive { left: dir_full(st) as i32, right: dir_full(st) as i32 }
        } else if st.a {
            Command::Drive { left: dir_third(st) as i32, right: dir_full(st) as i32 }
        } else {
            Command::Drive { left: dir_full(st) as i32, right: dir_third(st) as i32 }
        }
    }
}

/// Full wheel speed signed by direction: forward under `w`, reverse under
/// `s`.
pub open spec fn dir_full(st: State) -> int {
    if st.w {
        full_wheel(st)
    } else {
        -full_wheel(st)
    }
}

/// Diagonal wheel speed signed by direction.
pub open spec fn dir_third(st: State) -> int {
    if st.w {
        third_wheel(st)
    } else {
        -third_wheel(st)
    }
}

/// Recompute the motion command after a key-state update.
pub fn motion(st: &State) -> (cmd: Command)
    ensures
        cmd == motion_spec(*st),
{
    let full: i32 = 3 * (st.speed as i32);
    let third: i32 = st.speed as i32;
    if st.w == st.s {
        if st.a && !st.d {
            Command::Drive { left: -full, right: full }
        } else if st.d && !st.a {
            Command::Drive { left: full, right: -full }
        } else {
            Command::Stop
        }
    } else {
        let f: i32 = if st.w {
            full
        } else {
            -full
        };
        let t: i32 = if st.w {
            third
        } else {
            -third
        };
        if st.a == st.d {
            Command::Drive { left: f, right: f }
        } else if st.a {
            Command::Drive { left: t, right: f }
        } else {
            Command::Drive { left: f, right: t }
        }
    }
}

/// The key part of a line: everything before the first space.
pub open spec fn key_of(l: Seq<u8>) -> Seq<u8> {
    l.subrange(0, first_space(l) as int)
}

/// The value part of a line: everything after the first space, with
/// surrounding ASCII whitespace (and so the trailing CRLF) removed.
pub open spec fn value_of(l: Seq<u8>) -> Seq<u8>
    recommends
        first_space(l) < l.len(),
{
    trim_spec(l.subrange(first_space(l) as int + 1, l.len() as int))
}

/// The wire encoding of a pressed level.
pub open spec fn one(v: Seq<u8>) -> bool {
    v == seq![49u8]
}

/// Whether the value parses as a speed bucket: a run of digits whose value
/// fits the speed field.
pub open spec fn numeric(v: Seq<u8>) -> bool {
    is_digits(v) && dec_val(v) <= u16::MAX
}

/// The key state after one line: `speed` stores a well-formed number, the
/// four buttons store whether the value was `1`, and every other line —
/// servo, buzzer, or anything malformed — leaves the state alone.
pub open spec fn next_state(st: State, key: Seq<u8>, value: Seq<u8>) -> State {
    if key == channel_name(Channel::Speed) {
        if numeric(value) {
            State { speed: dec_val(value) as u16, ..st }
        } else {
            st
        }
    } else if key == channel_name(Channel::W) {
        State { w: one(value), ..st }
    } else if key == channel_name(Channel::A) {
        State { a: one(value), ..st }
    } else if key == channel_name(Channel::S) {
        State { s: one(value), ..st }
    } else if key == channel_name(Channel::D) {
        State { d: one(value), ..st }
    } else {
        st
    }
}

/// What one line decodes to: a motion command after any speed or button
/// update, a servo swing to `45 - value` degrees, a buzzer setting, or the
/// error the line earns.  `Ok` comes exactly on the seven known channels
/// with a well-formed value.
pub open spec fn decoded(st: State, key: Seq<u8>, value: Seq<u8>) -> Result<
    Command,
    BridgeError,
> {
    if key == channel_name(Channel::Speed) {
        if numeric(value) {
            Ok(motion_spec(next_state(st, key, value)))
        } else {
            Err(BridgeError::BadNumber)
        }
    } else if key == channel_name(Channel::W) || key == channel_name(Channel::A) || key
        == channel_name(Channel::S) || key == channel_name(Channel::D) {
        Ok(motion_spec(next_state(st, key, value)))
    } else if key == channel_name(Channel::Servo) {
        if numeric(value) {
            Ok(Command::Servo { angle: (45 - dec_val(value)) as i32 })
        } else {
            Err(BridgeError::BadNumber)
        }
    } else if key == channel_name(Channel::Buzzer) {
        Ok(
            Command::Buzzer {
                value: if one(value) {
                    0
                } else {
                    1
                },
            },
        )
    } else {
        Err(BridgeError::UnknownKey)
    }
}

/// Every digit of a numeral is an ASCII digit, and there is at least one.
proof fn lemma_dec_digits_are_digits(n: nat)
    ensures
        dec_digits(n).len() >= 1,
        is_digits(dec_digits(n)),
    decreases n,
{
    if n < 10 {
        assert(dec_digits(n)[0] == (48 + n) as u8);
    } else {
        lemma_dec_digits_are_digits(n / 10);
        let pre = dec_digits(n / 10);
        assert forall|i: int| 0 <= i < dec_digits(n).len() implies 48 <= #[trigger] dec_digits(
            n,
        )[i] <= 57 by {
            if i < pre.len() {
                assert(dec_digits(n)[i] == pre[i]);
            } else {
                assert(dec_digits(n)[i] == (48 + n % 10) as u8);
            }
        }
    }
}

/// Parsing inverts printing: the decimal numeral of `n` reads back as `n`.
proof fn lemma_dec_digits_value(n: nat)
    ensures
        dec_val(dec_digits(n)) == n,
    decreases n,
{
    if n < 10 {
        assert(dec_val(dec_digits(n).subrange(0, 0)) == 0);
        assert(dec_digits(n)[0] == (48 + n) as u8);
        assert(((48 + n) as u8) as nat == 48 + n);
        assert(digit_of((48 + n) as u8) == n);
        assert(dec_val(dec_digits(n)) == digit_of((48 + n) as u8));
    } else {
        lemma_dec_digits_value(n / 10);
        let whole = dec_digits(n);
        let pre = dec_digits(n / 10);
        assert(whole.subrange(0, whole.len() - 1) =~= pre);
        assert(whole[whole.len() - 1] == (48 + n % 10) as u8);
        assert(((48 + n % 10) as u8) as nat == 48 + n % 10);
        assert(digit_of((48 + n % 10) as u8) == n % 10);
        assert(dec_val(whole) == (n / 10) * 10 + n % 10);
        vstd::arithmetic::div_mod::lemma_fundamental_div_mod(n as int, 10);
    }
}

/// No channel name holds a space byte.
proof fn lemma_channel_name_no_space(c: Channel)
    ensures
        forall|i: int| 0 <= i < channel_name(c).len() ==> #[trigger] channel_name(c)[i] != 32,
{
}

/// A numeral is the byte `1` exactly for the number 1.
proof fn lemma_one_digit(v: u16)
    ensures
        one(dec_digits(v as nat)) <==> v == 1,
{
    if v == 1 {
        assert(dec_digits(1nat) =~= seq![49u8]);
    } else if v < 10 {
        if dec_digits(v as nat) == seq![49u8] {
            assert(dec_digits(v as nat)[0] == 49u8);
        }
    } else {
        lemma_dec_digits_are_digits((v as nat) / 10);
        assert(dec_digits(v as nat).len() >= 2);
    }
}

/// Round trip across the wire: a line the relay encodes for channel `c`
/// carrying `v` splits back into exactly that channel's name and the
/// decimal numeral of `v`, and the numeral parses back to `v`.
pub proof fn lemma_wire_round_trip(c: Channel, v: u16)
    ensures
        key_of(line_spec(c, v as nat)) == channel_name(c),
        value_of(line_spec(c, v as nat)) == dec_digits(v as nat),
        numeric(dec_digits(v as nat)),
        dec_val(dec_digits(v as nat)) == v as nat,
{
    let l = line_spec(c, v as nat);
    let name = channel_name(c);
    let digits = dec_digits(v as nat);
    lemma_dec_digits_are_digits(v as nat);
    lemma_dec_digits_value(v as nat);
    lemma_channel_name_no_space(c);
    assert(l[name.len() as int] == 32);
    assert forall|j: int| 0 <= j < name.len() implies l[j] != 32 by {
        assert(l[j] == name[j]);
    }
    crate::text::lemma_first_space_at(l, name.len() as int);
    assert(key_of(l) =~= name);
    let rest = l.subrange(name.len() as int + 1, l.len() as int);
    assert(rest =~= digits + seq![13u8, 10u8]);
    assert(!crate::text::is_ws(digits[0]) && !crate::text::is_ws(digits[digits.len() - 1]));
    assert forall|j: int| digits.len() <= j < rest.len() implies crate::text::is_ws(
        #[trigger] rest[j],
    ) by {}
    crate::text::lemma_trim_subrange(rest, 0, digits.len() as int);
    assert(rest.subrange(0, digits.len() as int) =~= digits);
}

/// The host converges without a snapshot: every line the relay emits
/// decodes without error, a speed or button line drives the matching field
/// of the host's state to the emitted value, and a servo or buzzer line
/// leaves the state alone.
pub proof fn lemma_host_tracks_relay(st: State, c: Channel, v: u16)
    ensures
        decoded(st, key_of(line_spec(c, v as nat)), value_of(line_spec(c, v as nat))) is Ok,
        c == Channel::Speed ==> next_state(st, key_of(line_spec(c, v as nat)), value_of(line_spec(c, v as nat)))
            == (State { speed: v, ..st }),
        c == Channel::W ==> next_state(st, key_of(line_spec(c, v as nat)), value_of(line_spec(c, v as nat)))
            == (State { w: v == 1, ..st }),
        c == Channel::A ==> next_state(st, key_of(line_spec(c, v as nat)), value_of(line_spec(c, v as nat)))
            == (State { a: v == 1, ..st }),
        c == Channel::S ==> next_state(st, key_of(line_spec(c, v as nat)), value_of(line_spec(c, v as nat)))
            == (State { s: v == 1, ..st }),
        c == Channel::D ==> next_state(st, key_of(line_spec(c, v as nat)), value_of(line_spec(c, v as nat)))
            == (State { d: v == 1, ..st }),
        c == Channel::Servo || c == Channel::Buzzer ==> next_state(
            st,
            key_of(line_spec(c, v as nat)),
            value_of(line_spec(c, v as nat)),
        ) == st,
{
    lemma_wire_round_trip(c, v);
    lemma_one_digit(v);
    crate::wire::lemma_all_names_distinct();
}

/// The ASCII name of channel `c` as a fresh byte string.
fn name_of(c: Channel) -> (v: Vec<u8>)
    ensures
        v@ == channel_name(c),
{
    let mut v: Vec<u8> = Vec::new();
    push_channel_name(&mut v, c);
    v
}

/// Match a key against the seven channel names.
fn key_channel(key: &Vec<u8>) -> (r: Option<Channel>)
    ensures
        match r {
            Some(c) => key@ == channel_name(c),
            None => forall|c: Channel| key@ != channel_name(c),
        },
{
    if bytes_eq(key, &name_of(Channel::Speed)) {
        return Some(Channel::Speed);
    }
    if bytes_eq(key, &name_of(Channel::Servo)) {
        return Some(Channel::Servo);
    }
    if bytes_eq(key, &name_of(Channel::W)) {
        return Some(Channel::W);
    }
    if bytes_eq(key, &name_of(Channel::A)) {
        return Some(Channel::A);
    }
    if bytes_eq(key, &name_of(Channel::S)) {
        return Some(Channel::S);
    }
    if bytes_eq(key, &name_of(Channel::D)) {
        return Some(Channel::D);
    }
    if bytes_eq(key, &name_of(Channel::Buzzer)) {
        return Some(Channel::Buzzer);
    }
    None
}

/// Whether the value is exactly the byte `1`.
fn is_one(v: &Vec<u8>) -> (r: bool)
    ensures
        r == one(v@),
{
    if v.len() == 1 {
        let r = v[0] == 49;
        proof {
            if v@[0] == 49u8 {
                assert(v@ =~= seq![49u8]);
            }
        }
        r
    } else {
        false
    }
}

/// Split a line at its first space into the key and the trimmed value;
/// `None` when the line holds no space at all.
pub fn split_line(line: &Vec<u8>) -> (r: Option<(Vec<u8>, Vec<u8>)>)
    ensures
        match r {
            Some(kv) => first_space(line@) < line@.len() && kv.0@ == key_of(line@) && kv.1@
                == value_of(line@),
            None => first_space(line@) == line@.len(),
        },
{
    let sp = find_space(line);
    if sp == line.len() {
        return None;
    }
    let key = copy_range(line, 0, sp);
    let rest = copy_range(line, sp + 1, line.len());
    let value = trim(&rest);
    Some((key, value))
}

/// Decode one wire line: update the key state and return the command the
/// line calls for, or the error it earns.  The line must hold a space; a
/// line without one has no key/value split.
pub fn handle_line(state: &mut State, line: &Vec<u8>) -> (r: Result<Command, BridgeError>)
    requires
        first_space(line@) < line@.len(),
    ensures
        *final(state) == next_state(*old(state), key_of(line@), value_of(line@)),
        r == decoded(*old(state), key_of(line@), value_of(line@)),
{
    proof {
        crate::wire::lemma_all_names_distinct();
    }
    let sp = find_space(line);
    let n = line.len();
    let key = copy_range(line, 0, sp);
    let rest = copy_range(line, sp + 1, n);
    let value = trim(&rest);
    match key_channel(&key) {
        Some(Channel::Speed) => {
            match parse_u16(&value) {
                Some(n) => {
                    state.speed = n;
                    Ok(motion(state))
                },
                None => Err(BridgeError::BadNumber),
            }
        },
        Some(Channel::W) => {
            state.w = is_one(&value);
            Ok(motion(state))
        },
        Some(Channel::A) => {
            state.a = is_one(&value);
            Ok(motion(state))
        },
        Some(Channel::S) => {
            state.s = is_one(&value);
            Ok(motion(state))
        },
        Some(Channel::D) => {
            state.d = is_one(&value);
            Ok(motion(state))
        },
        Some(Channel::Servo) => {
            match parse_u16(&value) {
                Some(n) => Ok(Command::Servo { angle: 45 - (n as i32) }),
                None => Err(BridgeError::BadNumber),
            }
        },
        Some(Channel::Buzzer) => {
            let v: u8 = if is_one(&value) {
                0
            } else {
                1
            };
            Ok(Command::Buzzer { value: v })
        },
        None => Err(BridgeError::UnknownKey),
    }
}

} // verus!
