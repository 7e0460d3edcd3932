//! Helpers shared by the renderer and the decorators: the size of a value,
//! decimal numerals, and the state of the copy button.

use crate::value::JsonValue;
use vstd::prelude::*;
use vstd::string::StringExecFns;

verus! {

/// The number of direct children of `arg`.
pub fn value_length(arg: &JsonValue) -> (n: usize)
    ensures
        n == arg@.length(),
{
    match arg {
        JsonValue::Object(entries) => entries.len(),
        JsonValue::Array(items) => items.len(),
        _ => 0,
    }
}

/// Whether `arg` can be collapsed: whether it is a container with at least
/// one child.
pub fn is_collapsable(arg: &JsonValue) -> (b: bool)
    ensures
        b == (arg@.length() > 0),
{
    value_length(arg) > 0
}

/// The decimal digit for `d`, where `d < 10`.
pub open spec fn digit(d: nat) -> char {
    if d == 0 {
        '0'
    } else if d == 1 {
        '1'
    } else if d == 2 {
        '2'
    } else if d == 3 {
        '3'
    } else if d == 4 {
        '4'
    } else if d == 5 {
        '5'
    } else if d == 6 {
        '6'
    } else if d == 7 {
        '7'
    } else if d == 8 {
        '8'
    } else {
        '9'
    }
}

/// The decimal numeral of `n`, without leading zeros.
pub open spec fn decimal(n: nat) -> Seq<char>
    decreases n,
{
    if n < 10 {
        seq![digit(n)]
    } else {
        decimal(n / 10).push(digit(n % 10))
    }
}

fn digit_text(d: usize) -> (r: &'static str)
    requires
        d < 10,
    ensures
        r@ == seq![digit(d as nat)],
{
    proof {
        reveal_strlit("0");
        reveal_strlit("1");
        reveal_strlit("2");
        reveal_strlit("3");
        reveal_strlit("4");
        reveal_strlit("5");
        reveal_strlit("6");
        reveal_strlit("7");
        reveal_strlit("8");
        reveal_strlit("9");
    }
    let r = if d == 0 {
        "0"
    } else if d == 1 {
        "1"
    } else if d == 2 {
        "2"
    } else if d == 3 {
        "3"
    } else if d == 4 {
        "4"
    } else if d == 5 {
        "5"
    } else if d == 6 {
        "6"
    } else if d == 7 {
        "7"
    } else if d == 8 {
        "8"
    } else {
        "9"
    };
    assert(r@ =~= seq![digit(d as nat)]);
    r
}

/// Writes `n` as a decimal numeral.
pub fn decimal_text(n: usize) -> (r: String)
    ensures
        r@ == decimal(n as nat),
    decreases n,
{
    if n < 10 {
        String::from_str(digit_text(n))
    } else {
        let mut r = decimal_text(n / 10);
        r.append(digit_text(n % 10));
        assert(r@ =~= decimal(n as nat));
        r
    }
}

/// What a copy button is given: the text that a click copies.
#[derive(Debug, PartialEq, Eq)]
pub struct CopyButtonProps {
    pub text: String,
}

/// How long, in milliseconds, a copy button shows that it has copied.
pub const COPIED_MILLIS: u32 = 1000;

/// What a copy button shows, and what a click on it does.
#[derive(Debug, PartialEq, Eq)]
pub struct CopyButton {
    /// The style of the button.
    pub style: String,
    /// Whether the button shows that it has copied.
    pub checked: bool,
    /// The text that a click copies to the clipboard. A click then checks
    /// the button for [`COPIED_MILLIS`]; while the button is checked a click
    /// does nothing.
    pub copies: Option<String>,
}

/// The style of a copy button: a pointer for a cursor unless it is checked.
pub open spec fn copy_style(checked: bool) -> Seq<char> {
    if checked {
        "margin-left: 4px; "@
    } else {
        "margin-left: 4px; "@ + "cursor: pointer;"@
    }
}

/// The copy button for `props`, where `checked` says whether it has just
/// copied.
pub fn copy_button(props: &CopyButtonProps, checked: bool) -> (r: CopyButton)
    ensures
        r.style@ == copy_style(checked),
        r.checked == checked,
        checked ==> r.copies is None,
        !checked ==> (r.copies matches Some(text) && text@ == props.text@),
{
    let mut style = String::from_str("margin-left: 4px; ");
    if checked {
        CopyButton { style, checked, copies: None }
    } else {
        style.append("cursor: pointer;");
        CopyButton { style, checked, copies: Some(props.text.clone()) }
    }
}

} // verus!
