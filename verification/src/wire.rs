//! Line encoder: one reported change becomes one ASCII line.
//!
//! The wire format is `<channel> <value>\r\n`, ASCII only, with no framing
//! beyond the CRLF and no escaping.  Analog channels carry a decimal bucket;
//! button channels carry `0` or `1`.

use vstd::prelude::*;

verus! {

/// The seven reporting channels, in their fixed per-tick emission order.
#[derive(Clone, Copy, PartialEq, Eq, Structural, Debug)]
pub enum Channel {
    /// Throttle bucket, 0..=100 in steps of 5.
    Speed,
    /// Servo bucket, 0..=90 in steps of 10.
    Servo,
    /// Forward button.
    W,
    /// Left button.
    A,
    /// Reverse button.
    S,
    /// Right button.
    D,
    /// Buzzer button.
    Buzzer,
}

/// The ASCII name of a channel, as the bytes that go on the wire.
pub open spec fn channel_name(c: Channel) -> Seq<u8> {
    match c {
        Channel::Speed => seq![115u8, 112u8, 101u8, 101u8, 100u8],
        Channel::Servo => seq![115u8, 101u8, 114u8, 118u8, 111u8],
        Channel::W => seq![119u8],
        Channel::A => seq![97u8],
        Channel::S => seq![115u8],
        Channel::D => seq![100u8],
        Channel::Buzzer => seq![98u8, 117u8, 122u8, 122u8, 101u8, 114u8],
    }
}

/// The shortest decimal numeral of `n` in ASCII: no sign, no leading zeros,
/// a single `0` for zero.
pub open spec fn dec_digits(n: nat) -> Seq<u8>
    decreases n,
{
    if n < 10 {
        seq![(48 + n) as u8]
    } else {
        dec_digits(n / 10) + seq![(48 + n % 10) as u8]
    }
}

/// One wire line: channel name, a space, the decimal value, CRLF.
pub open spec fn line_spec(c: Channel, value: nat) -> Seq<u8> {
    channel_name(c) + seq![32u8] + dec_digits(value) + seq![13u8, 10u8]
}

/// Append the ASCII name of `c` to `buf`.
pub fn push_channel_name(buf: &mut Vec<u8>, c: Channel)
    ensures
        final(buf)@ == old(buf)@ + channel_name(c),
{
    match c {
        Channel::Speed => {
            buf.push(115);
            buf.push(112);
            buf.push(101);
            buf.push(101);
            buf.push(100);
        },
        Channel::Servo => {
            buf.push(115);
            buf.push(101);
            buf.push(114);
            buf.push(118);
            buf.push(111);
        },
        Channel::W => {
            buf.push(119);
        },
        Channel::A => {
            buf.push(97);
        },
        Channel::S => {
            buf.push(115);
        },
        Channel::D => {
            buf.push(100);
        },
        Channel::Buzzer => {
            buf.push(98);
            buf.push(117);
            buf.push(122);
            buf.push(122);
            buf.push(101);
            buf.push(114);
        },
    }
    assert(buf@ =~= old(buf)@ + channel_name(c));
}

/// Append the shortest decimal numeral of `n` to `buf`.
pub fn push_dec(buf: &mut Vec<u8>, n: u16)
    ensures
        final(buf)@ == old(buf)@ + dec_digits(n as nat),
    decreases n,
{
    if n >= 10 {
        push_dec(buf, n / 10);
    }
    buf.push(48 + (n % 10) as u8);
    assert(buf@ =~= old(buf)@ + dec_digits(n as nat));
}

/// Encode one wire line for channel `c` carrying `value`.
pub fn encode_line(c: Channel, value: u16) -> (line: Vec<u8>)
    ensures
        line@ == line_spec(c, value as nat),
{
    let mut buf: Vec<u8> = Vec::new();
    push_channel_name(&mut buf, c);
    buf.push(32);
    push_dec(&mut buf, value);
    buf.push(13);
    buf.push(10);
    assert(buf@ =~= line_spec(c, value as nat));
    buf
}

/// No two channels share a name.
pub proof fn lemma_channel_names_distinct(c1: Channel, c2: Channel)
    requires
        c1 != c2,
    ensures
        channel_name(c1) != channel_name(c2),
{
    let n1 = channel_name(c1);
    let n2 = channel_name(c2);
    if n1 == n2 {
        assert(n1.len() == n2.len());
        assert(n1[0] == n2[0]);
        if n1.len() >= 2 {
            assert(n1[1] == n2[1]);
        }
        assert(false);
    }
}

/// All channel names at once: no two distinct channels share a name.
pub proof fn lemma_all_names_distinct()
    ensures
        forall|c1: Channel, c2: Channel|
            c1 != c2 ==> #[trigger] channel_name(c1) != #[trigger] channel_name(c2),
{
    assert forall|c1: Channel, c2: Channel| c1 != c2 implies #[trigger] channel_name(c1)
        != #[trigger] channel_name(c2) by {
        lemma_channel_names_distinct(c1, c2);
    }
}

} // verus!
