//! Decimal numerals and the texts that name a place in a source.

use vstd::prelude::*;
use vstd::string::StringExecFns;

verus! {

/// The character that writes the digit `d`.
pub open spec fn digit(d: int) -> char {
    if d == 0 {
        '0'
    } else if d == 1 {
        '1'
    } else if d == 2 {
        '2'
    } else if d == 3 {
        '3'
    } else if d == 4 {
        '4'
    } else if d == 5 {
        '5'
    } else if d == 6 {
        '6'
    } else if d == 7 {
        '7'
    } else if d == 8 {
        '8'
    } else {
        '9'
    }
}

/// The decimal numeral of `n`: most significant digit first, no leading zero, `"0"` for zero.
pub open spec fn decimal(n: nat) -> Seq<char>
    decreases n,
{
    if n < 10 {
        seq![digit(n as int)]
    } else {
        decimal(n / 10).push(digit((n % 10) as int))
    }
}

fn digit_text(d: usize) -> (r: &'static str)
    requires
        d < 10,
    ensures
        r@ == seq![digit(d as int)],
{
    proof {
        reveal_strlit("0");
        reveal_strlit("1");
        reveal_strlit("2");
        reveal_strlit("3");
        reveal_strlit("4");
        reveal_strlit("5");
        reveal_strlit("6");
        reveal_strlit("7");
        reveal_strlit("8");
        reveal_strlit("9");
    }
    let r = if d == 0 {
        "0"
    } else if d == 1 {
        "1"
    } else if d == 2 {
        "2"
    } else if d == 3 {
        "3"
    } else if d == 4 {
        "4"
    } else if d == 5 {
        "5"
    } else if d == 6 {
        "6"
    } else if d == 7 {
        "7"
    } else if d == 8 {
        "8"
    } else {
        "9"
    };
    assert(r@ =~= seq![digit(d as int)]);
    r
}

/// Appends the decimal numeral of `n` to `out`.
pub fn push_decimal(out: &mut String, n: usize)
    ensures
        final(out)@ == old(out)@ + decimal(n as nat),
    decreases n,
{
    if n >= 10 {
        push_decimal(out, n / 10);
    }
    out.append(digit_text(n % 10));
    assert(out@ =~= old(out)@ + decimal(n as nat));
}

/// The decimal numeral of `n` as a string.
pub fn to_decimal(n: usize) -> (r: String)
    ensures
        r@ == decimal(n as nat),
{
    let mut r = String::new();
    push_decimal(&mut r, n);
    assert(r@ =~= decimal(n as nat));
    r
}

/// The text `source:line:column` that names a place in a source.
pub open spec fn position_text(source: Seq<char>, line: nat, column: nat) -> Seq<char> {
    source + seq![':'] + decimal(line) + seq![':'] + decimal(column)
}

/// The one-line diagnostic `source:line:column: message`.
pub open spec fn diagnostic_text(
    source: Seq<char>,
    line: nat,
    column: nat,
    message: Seq<char>,
) -> Seq<char> {
    position_text(source, line, column) + seq![':', ' '] + message
}

/// Appends `source:line:column` to `out`.
pub fn push_position(out: &mut String, source: &str, line: usize, column: usize)
    ensures
        final(out)@ == old(out)@ + position_text(source@, line as nat, column as nat),
{
    proof {
        reveal_strlit(":");
    }
    out.append(source);
    out.append(":");
    push_decimal(out, line);
    out.append(":");
    push_decimal(out, column);
    assert(out@ =~= old(out)@ + position_text(source@, line as nat, column as nat));
}

/// Renders the one-line diagnostic for a fault at a place in a source.
pub fn diagnostic(source: &str, line: usize, column: usize, message: &str) -> (r: String)
    ensures
        r@ == diagnostic_text(source@, line as nat, column as nat, message@),
{
    proof {
        reveal_strlit(": ");
    }
    let mut r = String::new();
    push_position(&mut r, source, line, column);
    r.append(": ");
    r.append(message);
    assert(r@ =~= diagnostic_text(source@, line as nat, column as nat, message@));
    r
}

} // verus!
