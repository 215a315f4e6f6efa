//! The diagnostic switch and the `MM:SS:mmm` rendering of stream time.

use vstd::prelude::*;

verus! {

/// Gate for diagnostic output: lines are written only while it is on.
#[derive(Clone, Copy, Debug)]
pub struct Log {
    enable: bool,
}

impl Log {
    /// Whether diagnostic lines are wanted.
    pub closed spec fn is_on(&self) -> bool {
        self.enable
    }

    pub fn new(enable: bool) -> (log: Log)
        ensures
            log.is_on() == enable,
    {
        Log { enable }
    }

    pub fn enabled(&self) -> (on: bool)
        ensures
            on == self.is_on(),
    {
        self.enable
    }
}

impl Default for Log {
    fn default() -> (log: Log)
        ensures
            !log.is_on(),
    {
        Log { enable: false }
    }
}

/// Quotient of `a` by a positive `b`, rounded toward zero.
pub open spec fn trunc_div(a: int, b: int) -> int {
    if a >= 0 {
        a / b
    } else {
        -((-a) / b)
    }
}

/// Remainder that goes with [`trunc_div`]: it has the sign of `a`.
pub open spec fn trunc_rem(a: int, b: int) -> int {
    if a >= 0 {
        a % b
    } else {
        -((-a) % b)
    }
}

/// The character of the decimal digit `d`.
pub open spec fn digit(d: int) -> char {
    (d + 48) as char
}

/// Decimal digits of `n`, most significant first, without leading zeros.
pub open spec fn decimal(n: nat) -> Seq<char>
    decreases n,
{
    if n < 10 {
        seq![digit(n as int)]
    } else {
        decimal(n / 10).push(digit((n % 10) as int))
    }
}

/// `s` with zeros put in front until it is `width` long.
pub open spec fn zero_pad(s: Seq<char>, width: nat) -> Seq<char> {
    if s.len() >= width {
        s
    } else {
        Seq::new((width - s.len()) as nat, |i: int| '0') + s
    }
}

/// `v` in decimal, at least `width` characters wide; the zeros that fill it
/// up stand behind the sign.
pub open spec fn padded(v: int, width: nat) -> Seq<char> {
    if v >= 0 {
        zero_pad(decimal(v as nat), width)
    } else {
        seq!['-'] + zero_pad(decimal((-v) as nat), (width - 1) as nat)
    }
}

/// Minutes shown for `ms`: whole minutes, folded into one hour.
pub open spec fn minutes_of(ms: int) -> int {
    trunc_rem(trunc_div(ms, 60000), 60)
}

/// Seconds shown for `ms`.
pub open spec fn seconds_of(ms: int) -> int {
    trunc_rem(trunc_div(ms, 1000), 60)
}

/// Milliseconds shown for `ms`.
pub open spec fn millis_of(ms: int) -> int {
    trunc_rem(ms, 1000)
}

/// The text `MM:SS:mmm` for a time of `ms` milliseconds.
pub open spec fn timestamp_text(ms: int) -> Seq<char> {
    padded(minutes_of(ms), 2) + seq![':'] + padded(seconds_of(ms), 2) + seq![':'] + padded(
        millis_of(ms),
        3,
    )
}

fn digit_char(d: i64) -> (c: char)
    requires
        0 <= d < 10,
    ensures
        c == digit(d as int),
{
    let byte: u8 = 48u8 + (d as u8);
    byte as char
}

proof fn lemma_decimal_small(n: nat)
    requires
        n < 1000,
    ensures
        n < 10 ==> decimal(n) =~= seq![digit(n as int)],
        10 <= n < 100 ==> decimal(n) =~= seq![digit(n as int / 10), digit(n as int % 10)],
        100 <= n ==> decimal(n) =~= seq![
            digit(n as int / 100),
            digit((n as int / 10) % 10),
            digit(n as int % 10),
        ],
{
    reveal_with_fuel(decimal, 3);
}

fn push_padded(text: &mut String, value: i64, width: u8)
    requires
        -1000 < value < 1000,
        width == 2 || width == 3,
    ensures
        final(text)@ == old(text)@ + padded(value as int, width as nat),
{
    let mut digits: u8 = width;
    let mut magnitude: i64 = value;
    if value < 0 {
        text.push('-');
        magnitude = -value;
        digits = width - 1;
    }
    let hundreds: i64 = magnitude / 100;
    let tens: i64 = (magnitude / 10) % 10;
    let ones: i64 = magnitude % 10;
    proof {
        lemma_decimal_small(magnitude as nat);
    }
    let ghost sign = text@;
    if hundreds > 0 || digits >= 3 {
        text.push(digit_char(hundreds));
    }
    if hundreds > 0 || tens > 0 || digits >= 2 {
        text.push(digit_char(tens));
    }
    text.push(digit_char(ones));
    assert(text@ =~= sign + zero_pad(decimal(magnitude as nat), digits as nat));
    assert(text@ =~= old(text)@ + padded(value as int, width as nat));
}

/// Renders a stream time in milliseconds as `MM:SS:mmm`. Hours are not
/// shown: the minutes start again at `00` after each full hour.
pub fn format_timestamp_to_time(ms: i64) -> (text: String)
    ensures
        text@ == timestamp_text(ms as int),
        0 <= ms < 60000 ==> text@.take(3) == seq!['0', '0', ':'],
{
    let minutes: i64 = (ms / 60000) % 60;
    let seconds: i64 = (ms / 1000) % 60;
    let milliseconds: i64 = ms % 1000;
    let mut text = String::new();
    push_padded(&mut text, minutes, 2);
    text.push(':');
    push_padded(&mut text, seconds, 2);
    text.push(':');
    push_padded(&mut text, milliseconds, 3);
    proof {
        assert(text@ =~= timestamp_text(ms as int));
        if 0 <= ms < 60000 {
            lemma_first_minute_prefix(ms as int);
        }
    }
    text
}

/// From zero on every time is nine characters long, with a colon after the
/// minutes and after the seconds.
pub proof fn lemma_timestamp_shape(ms: int)
    requires
        0 <= ms,
    ensures
        timestamp_text(ms).len() == 9,
        timestamp_text(ms)[2] == ':',
        timestamp_text(ms)[5] == ':',
        timestamp_text(ms) =~= seq![
            digit(minutes_of(ms) / 10),
            digit(minutes_of(ms) % 10),
            ':',
            digit(seconds_of(ms) / 10),
            digit(seconds_of(ms) % 10),
            ':',
            digit(millis_of(ms) / 100),
            digit((millis_of(ms) / 10) % 10),
            digit(millis_of(ms) % 10),
        ],
{
    lemma_decimal_small(minutes_of(ms) as nat);
    lemma_decimal_small(seconds_of(ms) as nat);
    lemma_decimal_small(millis_of(ms) as nat);
}

/// A time within the first minute is shown with `00:` in front.
pub proof fn lemma_first_minute_prefix(ms: int)
    requires
        0 <= ms < 60000,
    ensures
        timestamp_text(ms).take(3) =~= seq!['0', '0', ':'],
{
    lemma_timestamp_shape(ms);
    assert(minutes_of(ms) == 0);
}

/// Hours do not show: a full hour later the text is the same.
pub proof fn lemma_hour_rollover(ms: int)
    requires
        0 <= ms,
    ensures
        timestamp_text(ms + 3_600_000) == timestamp_text(ms),
{
    let later = ms + 3_600_000;
    assert(later / 60000 == ms / 60000 + 60);
    assert(later / 1000 == ms / 1000 + 3600);
    assert(later % 1000 == ms % 1000);
    assert((ms / 60000 + 60) % 60 == (ms / 60000) % 60);
    assert((ms / 1000 + 3600) % 60 == (ms / 1000) % 60);
}

} // verus!
