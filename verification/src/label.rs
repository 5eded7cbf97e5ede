//! The debug labels that GPU objects are given.

use vstd::prelude::*;

verus! {

/// The character of a decimal digit.
pub open spec fn digit_char(digit: nat) -> char {
    if digit == 0 {
        '0'
    } else if digit == 1 {
        '1'
    } else if digit == 2 {
        '2'
    } else if digit == 3 {
        '3'
    } else if digit == 4 {
        '4'
    } else if digit == 5 {
        '5'
    } else if digit == 6 {
        '6'
    } else if digit == 7 {
        '7'
    } else if digit == 8 {
        '8'
    } else {
        '9'
    }
}

/// A number in decimal digits, without leading zeros.
pub open spec fn decimal(number: nat) -> Seq<char>
    decreases number,
{
    if number < 10 {
        seq![digit_char(number)]
    } else {
        decimal(number / 10).push(digit_char(number % 10))
    }
}

/// The label of the instance of `name` for frame slot `index`.
pub open spec fn frame_label_text(name: Seq<char>, index: u32) -> Seq<char> {
    name + "(Frame "@ + decimal(index as nat) + ")"@
}

/// The label of the object number `index` of the kind `name`.
pub open spec fn numbered_label_text(name: Seq<char>, index: u32) -> Seq<char> {
    name + "(#"@ + decimal(index as nat) + ")"@
}

/// One decimal digit as text.
fn digit_str(digit: u32) -> (text: &'static str)
    requires
        digit < 10,
    ensures
        text@ == seq![digit_char(digit as nat)],
{
    proof {
        reveal_strlit("0");
        reveal_strlit("1");
        reveal_strlit("2");
        reveal_strlit("3");
        reveal_strlit("4");
        reveal_strlit("5");
        reveal_strlit("6");
        reveal_strlit("7");
        reveal_strlit("8");
        reveal_strlit("9");
    }
    let text = if digit == 0 {
        "0"
    } else if digit == 1 {
        "1"
    } else if digit == 2 {
        "2"
    } else if digit == 3 {
        "3"
    } else if digit == 4 {
        "4"
    } else if digit == 5 {
        "5"
    } else if digit == 6 {
        "6"
    } else if digit == 7 {
        "7"
    } else if digit == 8 {
        "8"
    } else {
        "9"
    };
    assert(text@ =~= seq![digit_char(digit as nat)]);
    text
}

/// Puts `number` in decimal digits behind `text`.
pub(crate) fn append_decimal(text: &mut String, number: u32)
    ensures
        final(text)@ == old(text)@ + decimal(number as nat),
    decreases number,
{
    if number >= 10 {
        append_decimal(text, number / 10);
    }
    text.append(digit_str(number % 10));
    proof {
        if number >= 10 {
            assert(final(text)@ =~= old(text)@ + decimal(number as nat));
        }
    }
}

/// The label of the instance of `name` for frame slot `index`.
pub fn frame_label(name: &str, index: u32) -> (label: String)
    ensures
        label@ == frame_label_text(name@, index),
{
    let mut label = String::from_str(name);
    label.append("(Frame ");
    append_decimal(&mut label, index);
    label.append(")");
    label
}

/// The label of the object number `index` of the kind `name`.
pub fn numbered_label(name: &str, index: u32) -> (label: String)
    ensures
        label@ == numbered_label_text(name@, index),
{
    let mut label = String::from_str(name);
    label.append("(#");
    append_decimal(&mut label, index);
    label.append(")");
    label
}

} // verus!
