//! Time labels of the audio widgets: minutes and seconds, at least two
//! digits each, joined by a ratio sign.
use vstd::prelude::*;
use vstd::string::*;

verus! {

/// The decimal digit character for `d` (below ten).
pub open spec fn digit_char(d: nat) -> char {
    if d == 0 {
        '0'
    } else if d == 1 {
        '1'
    } else if d == 2 {
        '2'
    } else if d == 3 {
        '3'
    } else if d == 4 {
        '4'
    } else if d == 5 {
        '5'
    } else if d == 6 {
        '6'
    } else if d == 7 {
        '7'
    } else if d == 8 {
        '8'
    } else {
        '9'
    }
}

/// `n` written in decimal, without leading zeros.
pub open spec fn decimal(n: nat) -> Seq<char>
    decreases n,
{
    if n < 10 {
        seq![digit_char(n)]
    } else {
        decimal(n / 10).push(digit_char(n % 10))
    }
}

/// `n` written in decimal with at least two digits (`{:02}`).
pub open spec fn two_digits(n: nat) -> Seq<char> {
    if n < 10 {
        seq!['0', digit_char(n)]
    } else {
        decimal(n)
    }
}

/// `minutes` and `seconds`, each with at least two digits, joined by `∶`.
pub open spec fn time_label(minutes: nat, seconds: nat) -> Seq<char> {
    two_digits(minutes) + seq!['\u{2236}'] + two_digits(seconds)
}

/// The one-character text for the digit `d`.
fn digit_str(d: u64) -> (s: &'static str)
    requires
        d < 10,
    ensures
        s@ == seq![digit_char(d as nat)],
{
    proof {
        reveal_strlit("0");
        reveal_strlit("1");
        reveal_strlit("2");
        reveal_strlit("3");
        reveal_strlit("4");
        reveal_strlit("5");
        reveal_strlit("6");
        reveal_strlit("7");
        reveal_strlit("8");
        reveal_strlit("9");
    }
    if d == 0 {
        "0"
    } else if d == 1 {
        "1"
    } else if d == 2 {
        "2"
    } else if d == 3 {
        "3"
    } else if d == 4 {
        "4"
    } else if d == 5 {
        "5"
    } else if d == 6 {
        "6"
    } else if d == 7 {
        "7"
    } else if d == 8 {
        "8"
    } else {
        "9"
    }
}

/// Appends `n` in decimal to `out`.
pub(crate) fn push_decimal(out: &mut String, n: u64)
    ensures
        final(out)@ == old(out)@ + decimal(n as nat),
    decreases n,
{
    if n < 10 {
        out.append(digit_str(n));
    } else {
        push_decimal(out, n / 10);
        out.append(digit_str(n % 10));
        proof {
            assert(final(out)@ =~= old(out)@ + decimal(n as nat));
        }
    }
}

/// Appends `n` with at least two digits to `out`.
fn push_two_digits(out: &mut String, n: u64)
    ensures
        final(out)@ == old(out)@ + two_digits(n as nat),
{
    if n < 10 {
        out.append(digit_str(0));
        out.append(digit_str(n));
        proof {
            assert(final(out)@ =~= old(out)@ + two_digits(n as nat));
        }
    } else {
        push_decimal(out, n);
    }
}

/// The label `mm∶ss` for the given minutes and seconds.
pub fn format_time(minutes: u64, seconds: u64) -> (label: String)
    ensures
        label@ == time_label(minutes as nat, seconds as nat),
{
    let mut label = String::new();
    push_two_digits(&mut label, minutes);
    proof {
        reveal_strlit("\u{2236}");
    }
    label.append("\u{2236}");
    push_two_digits(&mut label, seconds);
    proof {
        assert(label@ =~= time_label(minutes as nat, seconds as nat));
    }
    label
}

/// The playback position label for a position of `position` seconds:
/// seconds and minutes within the hour.
pub fn playback_position_label(position: u64) -> (label: String)
    ensures
        label@ == time_label(((position / 60) % 60) as nat, (position % 60) as nat),
{
    format_time((position / 60) % 60, position % 60)
}

/// The recording duration label for `seconds` recorded: all whole minutes,
/// then the seconds within the minute.
pub fn recording_duration_label(seconds: u64) -> (label: String)
    ensures
        label@ == time_label((seconds / 60) as nat, (seconds % 60) as nat),
{
    format_time(seconds / 60, seconds % 60)
}

} // verus!
