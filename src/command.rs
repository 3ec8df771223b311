//! The split-timer commands that an update turns into.

use vstd::prelude::*;
use vstd::string::StringExecFns;
use crate::layout::Elapsed;
use crate::tracker::{Update, command_spec};

verus! {

/// The decimal digit of `d`, for `d < 10`.
pub open spec fn digit(d: nat) -> char {
    seq!['0', '1', '2', '3', '4', '5', '6', '7', '8', '9'][d as int]
}

/// `n` in decimal, without leading zeros.
pub open spec fn decimal(n: nat) -> Seq<char>
    decreases n,
{
    if n < 10 {
        seq![digit(n)]
    } else {
        decimal(n / 10).push(digit(n % 10))
    }
}

/// The last `width` decimal digits of `n`, with leading zeros.
pub open spec fn padded(n: nat, width: nat) -> Seq<char>
    decreases width,
{
    if width == 0 {
        Seq::empty()
    } else {
        padded(n / 10, (width - 1) as nat).push(digit(n % 10))
    }
}

/// The command that sets the timer to `e`: "setgametime", the seconds, a
/// dot, and the nanoseconds as nine digits.
pub open spec fn game_time_command_spec(e: Elapsed) -> Seq<char> {
    "setgametime "@ + decimal(e.secs as nat) + "."@ + padded(e.nanos as nat, 9)
}

/// The commands of `u`: the game time, then the event's command if there is
/// one.
pub open spec fn commands_spec(u: Update) -> Seq<Seq<char>> {
    match u.event {
        Some(e) => seq![game_time_command_spec(u.time), command_spec(e)],
        None => seq![game_time_command_spec(u.time)],
    }
}

/// The decimal digit of `d`.
fn digit_str(d: u64) -> (r: &'static str)
    requires
        d < 10,
    ensures
        r@ == seq![digit(d as nat)],
{
    if d == 0 {
        proof { reveal_strlit("0"); }
        "0"
    } else if d == 1 {
        proof { reveal_strlit("1"); }
        "1"
    } else if d == 2 {
        proof { reveal_strlit("2"); }
        "2"
    } else if d == 3 {
        proof { reveal_strlit("3"); }
        "3"
    } else if d == 4 {
        proof { reveal_strlit("4"); }
        "4"
    } else if d == 5 {
        proof { reveal_strlit("5"); }
        "5"
    } else if d == 6 {
        proof { reveal_strlit("6"); }
        "6"
    } else if d == 7 {
        proof { reveal_strlit("7"); }
        "7"
    } else if d == 8 {
        proof { reveal_strlit("8"); }
        "8"
    } else {
        proof { reveal_strlit("9"); }
        "9"
    }
}

/// Appends `n` in decimal to `s`.
fn push_decimal(s: &mut String, n: u64)
    ensures
        final(s)@ == old(s)@ + decimal(n as nat),
    decreases n,
{
    if n >= 10 {
        push_decimal(s, n / 10);
    }
    s.append(digit_str(n % 10));
    assert(final(s)@ =~= old(s)@ + decimal(n as nat));
}

/// Appends the last `width` decimal digits of `n` to `s`, with leading zeros.
fn push_padded(s: &mut String, n: u64, width: u64)
    ensures
        final(s)@ == old(s)@ + padded(n as nat, width as nat),
    decreases width,
{
    if width > 0 {
        push_padded(s, n / 10, width - 1);
        s.append(digit_str(n % 10));
    }
    assert(final(s)@ =~= old(s)@ + padded(n as nat, width as nat));
}

impl Elapsed {
    /// The command that sets the timer to this time, as
    /// "setgametime <seconds>.<nanoseconds in nine digits>".
    pub fn game_time_command(&self) -> (r: String)
        ensures
            r@ == game_time_command_spec(*self),
    {
        let mut s = String::from_str("setgametime ");
        push_decimal(&mut s, self.secs);
        s.append(".");
        push_padded(&mut s, self.nanos as u64, 9);
        s
    }
}

impl Update {
    /// The commands that the update sends to a split timer: the game time,
    /// then "start", "split" or "reset" where there is an event.
    pub fn commands(&self) -> (r: Vec<String>)
        ensures
            r@.len() == commands_spec(*self).len(),
            forall|i: int| 0 <= i < r@.len() ==> #[trigger] r@[i]@ == commands_spec(*self)[i],
    {
        let mut v: Vec<String> = Vec::new();
        v.push(self.time.game_time_command());
        match self.event {
            Some(e) => {
                v.push(String::from_str(e.command()));
            },
            None => {},
        }
        v
    }
}

} // verus!
