//! Human-readable byte sizes: the service's size texts and their display.
use vstd::prelude::*;
use crate::error::EngineError;
use crate::text::{chars_of, decimal, decimal_chars, parse_unsigned, push_text, string_of, trim,
    trim_chars, unsigned_literal};

verus! {

pub open spec fn is_letter(c: char, upper: char, lower: char) -> bool {
    c == upper || c == lower
}

/// The unit that ends a trimmed size text: how many characters it takes and what it
/// multiplies by. Units are matched without regard to case, the longer ones first.
pub open spec fn size_unit(t: Seq<char>) -> Option<(nat, nat)> {
    let n = t.len();
    if n >= 2 && is_letter(t[n - 1], 'B', 'b') && is_letter(t[n - 2], 'G', 'g') {
        Some((2, 1073741824))
    } else if n >= 2 && is_letter(t[n - 1], 'B', 'b') && is_letter(t[n - 2], 'M', 'm') {
        Some((2, 1048576))
    } else if n >= 2 && is_letter(t[n - 1], 'B', 'b') && is_letter(t[n - 2], 'K', 'k') {
        Some((2, 1024))
    } else if n >= 1 && is_letter(t[n - 1], 'B', 'b') {
        Some((1, 1))
    } else {
        None
    }
}

/// The number of bytes that a size text denotes: an integer followed by `B`, `KB`, `MB`
/// or `GB`, with white space around it allowed.
pub open spec fn size_in_bytes(s: Seq<char>) -> Option<nat> {
    let t = trim(s);
    match size_unit(t) {
        Some((k, m)) => match unsigned_literal(t.take(t.len() - k)) {
            Some(v) => Some(v * m),
            None => None,
        },
        None => None,
    }
}

/// Parses a size text such as `5GB` into bytes. A text outside the grammar, or one that
/// denotes more bytes than a `u64` holds, is a `ConfigParse` error.
pub fn parse_size(size_str: &str) -> (r: Result<u64, EngineError>)
    ensures
        match r {
            Ok(v) => size_in_bytes(size_str@) == Some(v as nat),
            Err(e) => e == EngineError::ConfigParse && !(size_in_bytes(size_str@) is Some
                && size_in_bytes(size_str@)->0 <= u64::MAX),
        },
{
    let all = chars_of(size_str);
    let t = trim_chars(&all);
    let n = t.len();
    let (k, m): (usize, u64) = if n >= 2 && (t[n - 1] == 'B' || t[n - 1] == 'b') && (t[n - 2]
        == 'G' || t[n - 2] == 'g') {
        (2, 1073741824)
    } else if n >= 2 && (t[n - 1] == 'B' || t[n - 1] == 'b') && (t[n - 2] == 'M' || t[n - 2]
        == 'm') {
        (2, 1048576)
    } else if n >= 2 && (t[n - 1] == 'B' || t[n - 1] == 'b') && (t[n - 2] == 'K' || t[n - 2]
        == 'k') {
        (2, 1024)
    } else if n >= 1 && (t[n - 1] == 'B' || t[n - 1] == 'b') {
        (1, 1)
    } else {
        return Err(EngineError::ConfigParse);
    };
    assert(size_unit(t@) == Some((k as nat, m as nat)));
    let mut number: Vec<char> = Vec::new();
    let mut i: usize = 0;
    while i < n - k
        invariant
            k <= n == t.len(),
            i <= n - k,
            number@ == t@.take(i as int),
        decreases n - k - i,
    {
        number.push(t[i]);
        i = i + 1;
        assert(number@ =~= t@.take(i as int));
    }
    match parse_unsigned(&number, u64::MAX / m) {
        Some(v) => {
            assert(v * m <= u64::MAX) by (nonlinear_arith)
                requires
                    v <= u64::MAX / m,
                    m > 0,
            ;
            Ok(v * m)
        },
        None => {
            proof {
                if let Some(x) = unsigned_literal(number@) {
                    assert(x > u64::MAX / m);
                    assert(x * m > u64::MAX) by (nonlinear_arith)
                        requires
                            x > u64::MAX / m,
                            m > 0,
                    ;
                }
            }
            Err(EngineError::ConfigParse)
        },
    }
}

/// `n / unit` in tenths, rounded to the nearest tenth, a tie going to the even tenth.
pub open spec fn tenths(n: nat, unit: nat) -> nat
    recommends
        unit > 0,
{
    let q = (10 * n) / unit;
    let r = (10 * n) % unit;
    if 2 * r > unit || (2 * r == unit && q % 2 == 1) {
        (q + 1) as nat
    } else {
        q as nat
    }
}

/// A number of tenths written with one decimal: `12` as `1.2`.
pub open spec fn one_decimal(t: nat) -> Seq<char> {
    decimal(t / 10) + "."@ + decimal(t % 10)
}

/// A byte count for display: in the largest of GB, MB and KB that it reaches, with one
/// decimal, or in bytes.
pub open spec fn size_text(size: nat) -> Seq<char> {
    if size >= 1073741824 {
        one_decimal(tenths(size, 1073741824)) + " GB"@
    } else if size >= 1048576 {
        one_decimal(tenths(size, 1048576)) + " MB"@
    } else if size >= 1024 {
        one_decimal(tenths(size, 1024)) + " KB"@
    } else {
        decimal(size) + " B"@
    }
}

fn one_decimal_chars(size: u64, unit: u64) -> (r: Vec<char>)
    requires
        unit >= 1024,
    ensures
        r@ == one_decimal(tenths(size as nat, unit as nat)),
{
    let ten: u128 = 10u128 * (size as u128);
    let u = unit as u128;
    let q = ten / u;
    let rem = ten % u;
    assert(q <= 10 * size as int / 1024) by (nonlinear_arith)
        requires
            q == ten / u,
            ten == 10 * size,
            u >= 1024,
    ;
    let t: u128 = if 2 * rem > u || (2 * rem == u && q % 2 == 1) { q + 1 } else { q };
    let t64 = t as u64;
    let mut r = decimal_chars(t64 / 10);
    r.push('.');
    let mut d = decimal_chars(t64 % 10);
    r.append(&mut d);
    proof {
        reveal_strlit(".");
    }
    assert(r@ =~= one_decimal(tenths(size as nat, unit as nat)));
    r
}

/// Writes a byte count for display, such as `1.5 KB` or `512 B`.
pub fn format_size(size: u64) -> (r: String)
    ensures
        r@ == size_text(size as nat),
{
    let mut r: Vec<char>;
    if size >= 1073741824 {
        r = one_decimal_chars(size, 1073741824);
        push_text(&mut r, " GB");
    } else if size >= 1048576 {
        r = one_decimal_chars(size, 1048576);
        push_text(&mut r, " MB");
    } else if size >= 1024 {
        r = one_decimal_chars(size, 1024);
        push_text(&mut r, " KB");
    } else {
        r = decimal_chars(size);
        push_text(&mut r, " B");
    }
    string_of(&r)
}

} // verus!
