//! Core of a tree-walking interpreter for a small, dynamically typed,
//! expression-oriented scripting language with first-class functions and
//! lexical closures.
//!
//! The pipeline is: source text -> [`lexer::Lexer`] -> tokens ->
//! [`parser::Parser`] -> [`ast::Program`] -> [`eval::evaluate`] against an
//! [`object::environment::Environment`] -> runtime value or error.

pub mod token;
pub mod lexer;
pub mod parser;
pub mod ast;
pub mod object;
pub mod eval;

use vstd::prelude::*;
use vstd::string::StrSliceExecFns;

verus! {

/// Compares two string slices character by character.
pub fn str_eq(a: &str, b: &str) -> (r: bool)
    ensures
        r == (a@ == b@),
{
    let alen = a.unicode_len();
    let blen = b.unicode_len();
    if alen != blen {
        proof {
            assert(a@.len() != b@.len());
        }
        return false;
    }
    let mut i: usize = 0;
    while i < alen
        invariant
            alen == a@.len(),
            alen == b@.len(),
            0 <= i <= alen,
            forall|j: int| 0 <= j < i ==> a@[j] == b@[j],
        decreases alen - i,
    {
        if a.get_char(i) != b.get_char(i) {
            return false;
        }
        i = i + 1;
    }
    proof {
        assert(a@ =~= b@);
    }
    true
}

/// The decimal digit character for `n` (0 through 9).
pub open spec fn spec_digit(n: nat) -> char {
    if n == 0 {
        '0'
    } else if n == 1 {
        '1'
    } else if n == 2 {
        '2'
    } else if n == 3 {
        '3'
    } else if n == 4 {
        '4'
    } else if n == 5 {
        '5'
    } else if n == 6 {
        '6'
    } else if n == 7 {
        '7'
    } else if n == 8 {
        '8'
    } else {
        '9'
    }
}

/// Decimal representation of a natural number, most significant digit first.
pub open spec fn spec_udec(n: nat) -> Seq<char>
    decreases n,
{
    if n < 10 {
        seq![spec_digit(n)]
    } else {
        spec_udec(n / 10).push(spec_digit(n % 10))
    }
}

/// Decimal representation of an integer: a minus sign where it is negative,
/// then the digits of its magnitude.
pub open spec fn spec_int_dec(v: int) -> Seq<char> {
    if v < 0 {
        seq!['-'] + spec_udec((-v) as nat)
    } else {
        spec_udec(v as nat)
    }
}

fn digit_str(d: u64) -> (r: &'static str)
    requires
        d < 10,
    ensures
        r@ == seq![spec_digit(d as nat)],
{
    let r: &'static str = match d {
        0u64 => "0",
        1u64 => "1",
        2u64 => "2",
        3u64 => "3",
        4u64 => "4",
        5u64 => "5",
        6u64 => "6",
        7u64 => "7",
        8u64 => "8",
        _ => "9",
    };
    proof {
        reveal_strlit("0");
        reveal_strlit("1");
        reveal_strlit("2");
        reveal_strlit("3");
        reveal_strlit("4");
        reveal_strlit("5");
        reveal_strlit("6");
        reveal_strlit("7");
        reveal_strlit("8");
        reveal_strlit("9");
        assert(r@ =~= seq![spec_digit(d as nat)]);
    }
    r
}

/// Renders a 64-bit signed integer in decimal notation.
pub fn int_to_string(value: i64) -> (s: String)
    ensures
        s@ == spec_int_dec(value as int),
{
    let mut s = String::new();
    if value < 0 {
        s.append("-");
        proof {
            reveal_strlit("-");
            assert(s@ =~= seq!['-']);
        }
    }
    let mag: u64 = if value == i64::MIN {
        9223372036854775808u64
    } else if value < 0 {
        (-value) as u64
    } else {
        value as u64
    };
    proof {
        assert(mag as int == if value < 0 {
            -(value as int)
        } else {
            value as int
        });
    }
    // Collect the decimal digits of `mag`, most significant first.
    let mut digits: Vec<u64> = Vec::new();
    let mut m = mag;
    while m > 9
        invariant
            forall|i: int| 0 <= i < digits@.len() ==> digits@[i] < 10,
            spec_udec(mag as nat) =~= spec_udec(m as nat) + digits@.map_values(
                |d: u64| spec_digit(d as nat),
            ),
        decreases m,
    {
        let d = m % 10;
        digits.insert(0, d);
        proof {
            let old_digits = digits@.remove(0);
            assert(digits@.map_values(|dd: u64| spec_digit(dd as nat)) =~= seq![
                spec_digit(d as nat),
            ] + old_digits.map_values(|dd: u64| spec_digit(dd as nat)));
            assert(spec_udec(m as nat) =~= spec_udec((m as nat) / 10) + seq![
                spec_digit((m as nat) % 10),
            ]);
        }
        m = m / 10;
    }
    proof {
        assert(spec_udec(m as nat) =~= seq![spec_digit(m as nat)]);
    }
    s.append(digit_str(m));
    let mut i: usize = 0;
    let ghost tail = digits@.map_values(|d: u64| spec_digit(d as nat));
    let ghost s_before = s@;
    while i < digits.len()
        invariant
            forall|k: int| 0 <= k < digits@.len() ==> digits@[k] < 10,
            0 <= i <= digits@.len(),
            tail == digits@.map_values(|d: u64| spec_digit(d as nat)),
            s@ =~= s_before + tail.take(i as int),
        decreases digits@.len() - i,
    {
        let d = digits[i];
        s.append(digit_str(d));
        proof {
            assert(tail.take(i + 1 as int) =~= tail.take(i as int).push(tail[i as int]));
        }
        i = i + 1;
    }
    proof {
        assert(tail.take(digits@.len() as int) =~= tail);
        assert(s@ =~= spec_int_dec(value as int));
    }
    s
}

} // verus!
