//! Text of the window title while the debug overlay is on.
use vstd::prelude::*;

verus! {

pub open spec fn digit_char(d: nat) -> char {
    if d == 0 {
        '0'
    } else if d == 1 {
        '1'
    } else if d == 2 {
        '2'
    } else if d == 3 {
        '3'
    } else if d == 4 {
        '4'
    } else if d == 5 {
        '5'
    } else if d == 6 {
        '6'
    } else if d == 7 {
        '7'
    } else if d == 8 {
        '8'
    } else {
        '9'
    }
}

/// Decimal digits of `n`, without leading zeros.
pub open spec fn decimal(n: nat) -> Seq<char>
    decreases n,
{
    if n < 10 {
        seq![digit_char(n)]
    } else {
        decimal(n / 10).push(digit_char(n % 10))
    }
}

/// A duration given in microseconds, as milliseconds with three decimals.
pub open spec fn millis_text(us: nat) -> Seq<char> {
    decimal(us / 1000) + seq!['.', digit_char((us / 100) % 10), digit_char((us / 10) % 10), digit_char(us % 10)]
}

/// `s` right-aligned in a field of `width` characters.
pub open spec fn pad_left(s: Seq<char>, width: nat) -> Seq<char> {
    Seq::new(if s.len() < width { (width - s.len()) as nat } else { 0 }, |i: int| ' ') + s
}

/// Nanoseconds to the nearest microsecond, halves rounded up.
pub open spec fn rounded_micros(ns: nat) -> nat {
    (ns + 500) / 1000
}

/// `CPU: <cpu>ms; FRAME:<frame>ms`, each time in milliseconds with three
/// decimals in a field of seven characters.
pub open spec fn title_text(cpu_ns: nat, frame_ns: nat) -> Seq<char> {
    seq!['C', 'P', 'U', ':', ' '] + pad_left(millis_text(rounded_micros(cpu_ns)), 7) + seq![
        'm',
        's',
        ';',
        ' ',
        'F',
        'R',
        'A',
        'M',
        'E',
        ':',
    ] + pad_left(millis_text(rounded_micros(frame_ns)), 7) + seq!['m', 's']
}

/// Relies on `FromIterator<char> for String`: the string holds the characters in order.
#[verifier::external_body]
fn string_of(chars: &Vec<char>) -> (r: String)
    ensures
        r@ == chars@,
{
    chars.iter().collect()
}

fn digit(d: u64) -> (r: char)
    requires
        d < 10,
    ensures
        r == digit_char(d as nat),
{
    if d == 0 {
        '0'
    } else if d == 1 {
        '1'
    } else if d == 2 {
        '2'
    } else if d == 3 {
        '3'
    } else if d == 4 {
        '4'
    } else if d == 5 {
        '5'
    } else if d == 6 {
        '6'
    } else if d == 7 {
        '7'
    } else if d == 8 {
        '8'
    } else {
        '9'
    }
}

fn push_decimal(out: &mut Vec<char>, n: u64)
    ensures
        final(out)@ == old(out)@ + decimal(n as nat),
    decreases n,
{
    if n >= 10 {
        push_decimal(out, n / 10);
    }
    out.push(digit(n % 10));
}

fn push_chars(out: &mut Vec<char>, s: &Vec<char>)
    ensures
        final(out)@ == old(out)@ + s@,
{
    let mut i: usize = 0;
    while i < s.len()
        invariant
            i <= s@.len(),
            out@ == old(out)@ + s@.take(i as int),
        decreases s@.len() - i,
    {
        assert(s@.take(i + 1) =~= s@.take(i as int).push(s@[i as int]));
        out.push(s[i]);
        i = i + 1;
    }
    assert(s@.take(i as int) =~= s@);
}

fn push_millis(out: &mut Vec<char>, us: u64)
    ensures
        final(out)@ == old(out)@ + pad_left(millis_text(us as nat), 7),
{
    let mut text: Vec<char> = Vec::new();
    push_decimal(&mut text, us / 1000);
    text.push('.');
    text.push(digit((us / 100) % 10));
    text.push(digit((us / 10) % 10));
    text.push(digit(us % 10));
    assert(text@ =~= millis_text(us as nat));
    let ghost start = out@;
    let mut pad: usize = 0;
    let n = text.len();
    while pad + n < 7
        invariant
            out@ == start + Seq::new(pad as nat, |i: int| ' '),
            n == text@.len(),
            pad + n <= 7 || pad == 0,
        decreases 7 - pad - n,
    {
        out.push(' ');
        pad = pad + 1;
        assert(out@ =~= start + Seq::new(pad as nat, |i: int| ' '));
    }
    push_chars(out, &text);
    assert(out@ =~= start + pad_left(millis_text(us as nat), 7));
}

fn round_to_micros(ns: u64) -> (r: u64)
    ensures
        r == rounded_micros(ns as nat),
{
    if ns % 1000 >= 500 {
        ns / 1000 + 1
    } else {
        ns / 1000
    }
}

/// The debug title for the CPU time and the iteration time, both in nanoseconds.
pub fn debug_title(cpu_ns: u64, frame_ns: u64) -> (r: String)
    ensures
        r@ == title_text(cpu_ns as nat, frame_ns as nat),
{
    let cpu_us = round_to_micros(cpu_ns);
    let frame_us = round_to_micros(frame_ns);
    let mut out: Vec<char> = Vec::new();
    out.push('C');
    out.push('P');
    out.push('U');
    out.push(':');
    out.push(' ');
    push_millis(&mut out, cpu_us);
    out.push('m');
    out.push('s');
    out.push(';');
    out.push(' ');
    out.push('F');
    out.push('R');
    out.push('A');
    out.push('M');
    out.push('E');
    out.push(':');
    push_millis(&mut out, frame_us);
    out.push('m');
    out.push('s');
    assert(out@ =~= title_text(cpu_ns as nat, frame_ns as nat));
    string_of(&out)
}

} // verus!
