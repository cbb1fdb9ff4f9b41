//! Lines of text for the log, built character by character.

use vstd::prelude::*;

verus! {

/// The character of the digit `d`.
pub open spec fn digit_char(d: int) -> char {
    if d == 0 {
        '0'
    } else if d == 1 {
        '1'
    } else if d == 2 {
        '2'
    } else if d == 3 {
        '3'
    } else if d == 4 {
        '4'
    } else if d == 5 {
        '5'
    } else if d == 6 {
        '6'
    } else if d == 7 {
        '7'
    } else if d == 8 {
        '8'
    } else {
        '9'
    }
}

/// The number `n` in decimal notation.
pub open spec fn decimal(n: nat) -> Seq<char>
    decreases n,
{
    if n < 10 {
        seq![digit_char(n as int)]
    } else {
        decimal(n / 10).push(digit_char((n % 10) as int))
    }
}

/// The first `n` of `items` in decimal notation, with a comma and a blank
/// between each two.
pub open spec fn listed(items: Seq<u16>, n: nat) -> Seq<char>
    decreases n,
{
    if n == 0 {
        Seq::empty()
    } else if n == 1 {
        decimal(items[0] as nat)
    } else {
        listed(items, (n - 1) as nat) + seq![',', ' '] + decimal(items[n - 1] as nat)
    }
}

/// `items` as a list in square brackets.
pub open spec fn list_text(items: Seq<u16>) -> Seq<char> {
    seq!['['] + listed(items, items.len()) + seq![']']
}

/// The character of the digit `d`.
fn digit(d: u16) -> (ch: char)
    requires
        d < 10,
    ensures
        ch == digit_char(d as int),
{
    match d {
        0 => '0',
        1 => '1',
        2 => '2',
        3 => '3',
        4 => '4',
        5 => '5',
        6 => '6',
        7 => '7',
        8 => '8',
        _ => '9',
    }
}

/// Writes `n` in decimal notation to the end of `out`.
pub fn push_decimal(out: &mut Vec<char>, n: u16)
    ensures
        final(out)@ == old(out)@ + decimal(n as nat),
    decreases n,
{
    if n >= 10 {
        push_decimal(out, n / 10);
    }
    let ch = digit(n % 10);
    out.push(ch);
}

/// Writes `items` as a list in square brackets to the end of `out`.
pub fn push_list<const N: usize>(out: &mut Vec<char>, items: &[u16; N])
    ensures
        final(out)@ == old(out)@ + list_text(items@),
{
    out.push('[');
    let mut k: usize = 0;
    while k < N
        invariant
            k <= N,
            N == items@.len(),
            out@ == old(out)@ + seq!['['] + listed(items@, k as nat),
        decreases N - k,
    {
        if k > 0 {
            out.push(',');
            out.push(' ');
        }
        push_decimal(out, items[k]);
        k += 1;
    }
    out.push(']');
}

/// The string made of the characters of `chars`, in their order.
///
/// The body calls `Iterator::collect` of the standard library, which builds
/// a `String` from an iterator of characters by appending them one by one.
/// That the string holds exactly those characters is taken on trust.
#[verifier::external_body]
pub(crate) fn string_of(chars: &Vec<char>) -> (s: String)
    ensures
        s@ == chars@,
{
    chars.iter().collect()
}

} // verus!
