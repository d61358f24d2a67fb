//! Derivation of row payloads from random seeds.
//!
//! An inserted row's `text` is the lowercase hexadecimal rendering of a
//! non-cryptographic hash of the cycle's random draw, taken as the draw's raw
//! bit pattern. The hash itself is std's default hasher; its value is given a
//! name here rather than restated, and the hexadecimal rendering is verified.

use std::hash::{DefaultHasher, Hash, Hasher};
use vstd::prelude::*;

verus! {

/// What std's default hasher returns for the eight bytes of `x`: a fixed
/// function of `x` alone.
pub uninterp spec fn default_hash_of(x: u64) -> u64;

/// Relies on std::hash::DefaultHasher: every hasher created by `new` is
/// documented to be the same, so feeding one the eight bytes of `x` and
/// calling `finish` yields a value determined by `x` alone.
#[verifier::external_body]
fn default_hash_u64(x: u64) -> (r: u64)
    ensures
        r == default_hash_of(x),
{
    let mut hasher = DefaultHasher::new();
    x.hash(&mut hasher);
    hasher.finish()
}

/// The lowercase hexadecimal digit for a value below sixteen.
pub open spec fn hex_digit(d: nat) -> char {
    if d == 0 {
        '0'
    } else if d == 1 {
        '1'
    } else if d == 2 {
        '2'
    } else if d == 3 {
        '3'
    } else if d == 4 {
        '4'
    } else if d == 5 {
        '5'
    } else if d == 6 {
        '6'
    } else if d == 7 {
        '7'
    } else if d == 8 {
        '8'
    } else if d == 9 {
        '9'
    } else if d == 10 {
        'a'
    } else if d == 11 {
        'b'
    } else if d == 12 {
        'c'
    } else if d == 13 {
        'd'
    } else if d == 14 {
        'e'
    } else {
        'f'
    }
}

/// The lowercase hexadecimal rendering of `x`: most significant digit first,
/// no leading zeroes, a single digit for values below sixteen.
pub open spec fn hex_lower(x: nat) -> Seq<char>
    decreases x,
{
    if x < 16 {
        seq![hex_digit(x)]
    } else {
        hex_lower(x / 16).push(hex_digit(x % 16))
    }
}

fn hex_digit_char(d: u64) -> (c: char)
    requires
        d < 16,
    ensures
        c == hex_digit(d as nat),
{
    match d {
        0 => '0',
        1 => '1',
        2 => '2',
        3 => '3',
        4 => '4',
        5 => '5',
        6 => '6',
        7 => '7',
        8 => '8',
        9 => '9',
        10 => 'a',
        11 => 'b',
        12 => 'c',
        13 => 'd',
        14 => 'e',
        _ => 'f',
    }
}

fn hex_chars(x: u64) -> (v: Vec<char>)
    ensures
        v@ == hex_lower(x as nat),
    decreases x,
{
    if x < 16 {
        let mut v: Vec<char> = Vec::new();
        v.push(hex_digit_char(x));
        proof {
            assert(v@ =~= hex_lower(x as nat));
        }
        v
    } else {
        let mut v = hex_chars(x / 16);
        v.push(hex_digit_char(x % 16));
        proof {
            assert(v@ =~= hex_lower(x as nat));
        }
        v
    }
}

/// Relies on String's FromIterator<char> implementation: collecting
/// characters yields the string of exactly those characters, in order.
#[verifier::external_body]
pub(crate) fn string_from_chars(v: &Vec<char>) -> (r: String)
    ensures
        r@ == v@,
{
    v.iter().collect()
}

/// The payload inserted for a draw with bit pattern `bits`.
pub open spec fn item_text_of(bits: u64) -> Seq<char> {
    hex_lower(default_hash_of(bits) as nat)
}

/// Derive the payload of an inserted row from the raw bit pattern of the
/// cycle's random draw.
pub fn item_text(bits: u64) -> (r: String)
    ensures
        r@ == item_text_of(bits),
{
    let h = default_hash_u64(bits);
    string_from_chars(&hex_chars(h))
}

} // verus!
