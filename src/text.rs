//! Decimal text for the score and frame-rate displays.
use vstd::prelude::*;
use vstd::string::StringExecFns;

verus! {

/// The character of a decimal digit.
pub open spec fn digit_char(d: nat) -> char {
    if d == 0 {
        '0'
    } else if d == 1 {
        '1'
    } else if d == 2 {
        '2'
    } else if d == 3 {
        '3'
    } else if d == 4 {
        '4'
    } else if d == 5 {
        '5'
    } else if d == 6 {
        '6'
    } else if d == 7 {
        '7'
    } else if d == 8 {
        '8'
    } else {
        '9'
    }
}

/// The decimal notation of `n`, without leading zeros.
pub open spec fn decimal(n: nat) -> Seq<char>
    decreases n,
{
    if n < 10 {
        seq![digit_char(n)]
    } else {
        decimal(n / 10).push(digit_char(n % 10))
    }
}

/// The text of the frame-rate display for a rate given in hundredths of a
/// frame per second: the whole part, a point and two decimals.
pub open spec fn fps_text(centi_fps: nat) -> Seq<char> {
    seq!['F', 'P', 'S', ':', ' '] + decimal(centi_fps / 100) + seq![
        '.',
        digit_char((centi_fps % 100) / 10),
        digit_char(centi_fps % 10),
    ]
}

fn digit_str(d: u64) -> (r: &'static str)
    requires
        d < 10,
    ensures
        r@ == seq![digit_char(d as nat)],
{
    proof {
        reveal_strlit("0");
        reveal_strlit("1");
        reveal_strlit("2");
        reveal_strlit("3");
        reveal_strlit("4");
        reveal_strlit("5");
        reveal_strlit("6");
        reveal_strlit("7");
        reveal_strlit("8");
        reveal_strlit("9");
    }
    match d {
        0 => "0",
        1 => "1",
        2 => "2",
        3 => "3",
        4 => "4",
        5 => "5",
        6 => "6",
        7 => "7",
        8 => "8",
        _ => "9",
    }
}

/// The decimal notation of `n`.
pub fn decimal_string(n: u64) -> (r: String)
    ensures
        r@ == decimal(n as nat),
    decreases n,
{
    if n < 10 {
        String::from_str(digit_str(n))
    } else {
        let mut s = decimal_string(n / 10);
        s.append(digit_str(n % 10));
        s
    }
}

/// The frame-rate display's text for `centi_fps` hundredths of a frame per second.
pub fn fps_string(centi_fps: u64) -> (r: String)
    ensures
        r@ == fps_text(centi_fps as nat),
{
    proof {
        reveal_strlit("FPS: ");
        reveal_strlit(".");
    }
    let mut s = String::from_str("FPS: ");
    let whole = decimal_string(centi_fps / 100);
    s.append(whole.as_str());
    s.append(".");
    s.append(digit_str((centi_fps % 100) / 10));
    s.append(digit_str(centi_fps % 10));
    proof {
        assert(s@ =~= fps_text(centi_fps as nat));
    }
    s
}

} // verus!
