//! Encoding one tick's duty set as the fixed positional argument sequence
//! of the controller command: raw-protocol byte, sub-command byte, then the
//! channel duties in wire order, each formatted as a lowercase hexadecimal
//! byte literal and clamped to the byte range beforehand. Running the
//! command is I/O and happens outside; this module fixes what is sent.

use vstd::prelude::*;
use vstd::string::StringExecFns;
use crate::duty::DutySet;

verus! {

/// The lowercase hexadecimal digit for a value below 16.
pub open spec fn hex_digit(d: int) -> char {
    if d == 0 {
        '0'
    } else if d == 1 {
        '1'
    } else if d == 2 {
        '2'
    } else if d == 3 {
        '3'
    } else if d == 4 {
        '4'
    } else if d == 5 {
        '5'
    } else if d == 6 {
        '6'
    } else if d == 7 {
        '7'
    } else if d == 8 {
        '8'
    } else if d == 9 {
        '9'
    } else if d == 10 {
        'a'
    } else if d == 11 {
        'b'
    } else if d == 12 {
        'c'
    } else if d == 13 {
        'd'
    } else if d == 14 {
        'e'
    } else {
        'f'
    }
}

/// A byte as a hexadecimal literal with minimal lowercase digits: `0x` then
/// one digit below 16, two digits otherwise.
pub open spec fn spec_hex_byte(v: u8) -> Seq<char> {
    if v < 16 {
        seq!['0', 'x', hex_digit(v as int)]
    } else {
        seq!['0', 'x', hex_digit(v as int / 16), hex_digit(v as int % 16)]
    }
}

/// The one-character string for a hexadecimal digit.
fn hex_digit_str(d: u8) -> (r: &'static str)
    requires
        d < 16,
    ensures
        r@ == seq![hex_digit(d as int)],
{
    proof {
        reveal_strlit("0");
        reveal_strlit("1");
        reveal_strlit("2");
        reveal_strlit("3");
        reveal_strlit("4");
        reveal_strlit("5");
        reveal_strlit("6");
        reveal_strlit("7");
        reveal_strlit("8");
        reveal_strlit("9");
        reveal_strlit("a");
        reveal_strlit("b");
        reveal_strlit("c");
        reveal_strlit("d");
        reveal_strlit("e");
        reveal_strlit("f");
    }
    let r: &'static str = if d == 0 {
        "0"
    } else if d == 1 {
        "1"
    } else if d == 2 {
        "2"
    } else if d == 3 {
        "3"
    } else if d == 4 {
        "4"
    } else if d == 5 {
        "5"
    } else if d == 6 {
        "6"
    } else if d == 7 {
        "7"
    } else if d == 8 {
        "8"
    } else if d == 9 {
        "9"
    } else if d == 10 {
        "a"
    } else if d == 11 {
        "b"
    } else if d == 12 {
        "c"
    } else if d == 13 {
        "d"
    } else if d == 14 {
        "e"
    } else {
        "f"
    };
    proof {
        assert(r@ =~= seq![hex_digit(d as int)]);
    }
    r
}

/// A byte formatted as a minimal lowercase hexadecimal literal.
pub fn hex_byte_arg(v: u8) -> (r: String)
    ensures
        r@ == spec_hex_byte(v),
{
    proof {
        reveal_strlit("0x");
    }
    let mut s = String::from_str("0x");
    if v >= 16 {
        s.append(hex_digit_str(v / 16));
    }
    s.append(hex_digit_str(v % 16));
    proof {
        assert(s@ =~= spec_hex_byte(v));
    }
    s
}

/// A duty clamped to the valid byte range of the wire protocol; sentinel
/// and other out-of-range values cap at 255.
pub open spec fn spec_clamp_byte(d: u32) -> u8 {
    if d > 255 {
        255u8
    } else {
        d as u8
    }
}

/// Clamp a duty to the valid byte range before it goes on the wire.
pub fn clamp_duty_byte(d: u32) -> (r: u8)
    ensures
        r == spec_clamp_byte(d),
{
    if d > 255 {
        255
    } else {
        d as u8
    }
}

/// The fixed positional argument sequence of one actuation command: the
/// raw-protocol byte `0x3a`, the sub-command byte `0x01`, the CPU duty, a
/// reserved zero byte, the two rear duties, then the four front duties,
/// each duty clamped to a byte and written as a hexadecimal literal.
pub fn command_args(d: &DutySet) -> (args: Vec<String>)
    ensures
        args@.len() == 11,
        args@[0]@ == seq!['r', 'a', 'w'],
        args@[1]@ == seq!['0', 'x', '3', 'a'],
        args@[2]@ == seq!['0', 'x', '0', '1'],
        args@[3]@ == spec_hex_byte(spec_clamp_byte(d.cpu)),
        args@[4]@ == seq!['0', 'x', '0', '0'],
        args@[5]@ == spec_hex_byte(spec_clamp_byte(d.rear1)),
        args@[6]@ == spec_hex_byte(spec_clamp_byte(d.rear2)),
        args@[7]@ == spec_hex_byte(spec_clamp_byte(d.frnt1)),
        args@[8]@ == spec_hex_byte(spec_clamp_byte(d.frnt2)),
        args@[9]@ == spec_hex_byte(spec_clamp_byte(d.frnt3)),
        args@[10]@ == spec_hex_byte(spec_clamp_byte(d.frnt4)),
{
    proof {
        reveal_strlit("raw");
        reveal_strlit("0x3a");
        reveal_strlit("0x01");
        reveal_strlit("0x00");
    }
    let mut args: Vec<String> = Vec::new();
    args.push(String::from_str("raw"));
    args.push(String::from_str("0x3a"));
    args.push(String::from_str("0x01"));
    args.push(hex_byte_arg(clamp_duty_byte(d.cpu)));
    args.push(String::from_str("0x00"));
    args.push(hex_byte_arg(clamp_duty_byte(d.rear1)));
    args.push(hex_byte_arg(clamp_duty_byte(d.rear2)));
    args.push(hex_byte_arg(clamp_duty_byte(d.frnt1)));
    args.push(hex_byte_arg(clamp_duty_byte(d.frnt2)));
    args.push(hex_byte_arg(clamp_duty_byte(d.frnt3)));
    args.push(hex_byte_arg(clamp_duty_byte(d.frnt4)));
    proof {
        assert(args@[0]@ =~= seq!['r', 'a', 'w']);
        assert(args@[1]@ =~= seq!['0', 'x', '3', 'a']);
        assert(args@[2]@ =~= seq!['0', 'x', '0', '1']);
        assert(args@[4]@ =~= seq!['0', 'x', '0', '0']);
    }
    args
}

} // verus!
