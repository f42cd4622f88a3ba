//! Calendar dates and small verified text helpers: decimal and hexadecimal
//! rendering of unsigned values, and the English name of a base number.

use vstd::prelude::*;
use vstd::string::StringExecFns;

verus! {

/// A season/day pair; day drives the per-player vibe cycle.
#[derive(Debug, Default, Clone, Copy, PartialEq, Eq, Structural)]
pub struct Date {
    pub season: u16,
    pub day: u16,
}

/// The character for one digit value in `0 .. 16`.
pub open spec fn digit_char(d: int) -> char {
    if d == 0 {
        '0'
    } else if d == 1 {
        '1'
    } else if d == 2 {
        '2'
    } else if d == 3 {
        '3'
    } else if d == 4 {
        '4'
    } else if d == 5 {
        '5'
    } else if d == 6 {
        '6'
    } else if d == 7 {
        '7'
    } else if d == 8 {
        '8'
    } else if d == 9 {
        '9'
    } else if d == 10 {
        'a'
    } else if d == 11 {
        'b'
    } else if d == 12 {
        'c'
    } else if d == 13 {
        'd'
    } else if d == 14 {
        'e'
    } else {
        'f'
    }
}

/// Decimal rendering of a non-negative value, most significant digit first.
pub open spec fn dec_spec(n: int) -> Seq<char>
    decreases n,
{
    if n < 10 {
        seq![digit_char(n)]
    } else {
        dec_spec(n / 10).push(digit_char(n % 10))
    }
}

/// Hexadecimal rendering of a non-negative value, zero-padded on the left to
/// exactly `width` digits (the low `4 * width` bits of `n`).
pub open spec fn hex_fixed_spec(n: int, width: nat) -> Seq<char>
    decreases width,
{
    if width == 0 {
        Seq::empty()
    } else {
        hex_fixed_spec(n / 16, (width - 1) as nat).push(digit_char(n % 16))
    }
}

/// The one-character string for a digit value in `0 .. 16`.
fn digit_str(d: u64) -> (s: &'static str)
    requires
        d < 16,
    ensures
        s@ == seq![digit_char(d as int)],
{
    let s: &'static str = match d {
        0 => "0",
        1 => "1",
        2 => "2",
        3 => "3",
        4 => "4",
        5 => "5",
        6 => "6",
        7 => "7",
        8 => "8",
        9 => "9",
        10 => "a",
        11 => "b",
        12 => "c",
        13 => "d",
        14 => "e",
        _ => "f",
    };
    proof {
        reveal_strlit("0");
        reveal_strlit("1");
        reveal_strlit("2");
        reveal_strlit("3");
        reveal_strlit("4");
        reveal_strlit("5");
        reveal_strlit("6");
        reveal_strlit("7");
        reveal_strlit("8");
        reveal_strlit("9");
        reveal_strlit("a");
        reveal_strlit("b");
        reveal_strlit("c");
        reveal_strlit("d");
        reveal_strlit("e");
        reveal_strlit("f");
        assert(s@ =~= seq![digit_char(d as int)]);
    }
    s
}

/// Render `n` in decimal.
pub fn dec_u64(n: u64) -> (s: String)
    ensures
        s@ == dec_spec(n as int),
    decreases n,
{
    if n < 10 {
        String::from_str(digit_str(n))
    } else {
        let mut s = dec_u64(n / 10);
        s.append(digit_str(n % 10));
        s
    }
}

/// Render the low `4 * width` bits of `n` in lower-case hexadecimal,
/// zero-padded to exactly `width` digits.
pub fn hex_fixed_u64(n: u64, width: usize) -> (s: String)
    ensures
        s@ == hex_fixed_spec(n as int, width as nat),
    decreases width,
{
    if width == 0 {
        String::new()
    } else {
        let mut s = hex_fixed_u64(n / 16, width - 1);
        s.append(digit_str(n % 16));
        s
    }
}

/// Ordinal suffix for a number rendered in English ("st", "nd", "rd", "th").
pub open spec fn ordinal_suffix_spec(n: int) -> Seq<char> {
    if n % 100 == 11 || n % 100 == 12 || n % 100 == 13 {
        "th"@
    } else if n % 10 == 1 {
        "st"@
    } else if n % 10 == 2 {
        "nd"@
    } else if n % 10 == 3 {
        "rd"@
    } else {
        "th"@
    }
}

/// The English name of base number `base`, where `home` is the base whose
/// occupation scores a run.
pub open spec fn base_name_spec(base: u8, home: u8) -> Seq<char> {
    if base == home {
        "home"@
    } else if base == 1 {
        "first base"@
    } else if base == 2 {
        "second base"@
    } else if base == 3 {
        "third base"@
    } else if base == 4 {
        "fourth base"@
    } else {
        dec_spec(base as int) + ordinal_suffix_spec(base as int) + " base"@
    }
}

/// Render the English name of a base ("second base", "home", "12th base").
pub fn base_name(base: u8, home: u8) -> (s: String)
    ensures
        s@ == base_name_spec(base, home),
{
    if base == home {
        String::from_str("home")
    } else if base == 1 {
        String::from_str("first base")
    } else if base == 2 {
        String::from_str("second base")
    } else if base == 3 {
        String::from_str("third base")
    } else if base == 4 {
        String::from_str("fourth base")
    } else {
        let mut s = dec_u64(base as u64);
        let m100 = base % 100;
        let m10 = base % 10;
        if m100 == 11 || m100 == 12 || m100 == 13 {
            s.append("th");
        } else if m10 == 1 {
            s.append("st");
        } else if m10 == 2 {
            s.append("nd");
        } else if m10 == 3 {
            s.append("rd");
        } else {
            s.append("th");
        }
        s.append(" base");
        s
    }
}

} // verus!
