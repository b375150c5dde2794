//! Byte-size formatting.

use vstd::prelude::*;
use crate::strings::{dec_rep, digit_of, u64_to_dec};

verus! {

/// One decimal digit of the scaled value, rounded half to even on the
/// exact quotient.
pub open spec fn tenths_of(bytes: int, unit: int) -> int {
    let q = bytes * 10 / unit;
    let r = bytes * 10 % unit;
    if 2 * r > unit {
        q + 1
    } else if 2 * r < unit {
        q
    } else if q % 2 == 0 {
        q
    } else {
        q + 1
    }
}

/// A byte count in the unit it is displayed with: `B` below a kibibyte,
/// then `KB`, `MB` and `GB`, with one rounded decimal.
pub open spec fn format_bytes_spec(bytes: u64) -> Seq<char> {
    let gb = 0x4000_0000int;
    let mb = 0x10_0000int;
    let kb = 0x400int;
    if bytes >= gb {
        scaled_text(tenths_of(bytes as int, gb), " GB"@)
    } else if bytes >= mb {
        scaled_text(tenths_of(bytes as int, mb), " MB"@)
    } else if bytes >= kb {
        scaled_text(tenths_of(bytes as int, kb), " KB"@)
    } else {
        dec_rep(bytes as nat) + " B"@
    }
}

/// The text of a value in tenths: whole part, a dot, one digit, and the
/// unit suffix.
pub open spec fn scaled_text(tenths: int, suffix: Seq<char>) -> Seq<char> {
    dec_rep((tenths / 10) as nat) + "."@ + seq![crate::strings::digit_char((tenths % 10) as nat)]
        + suffix
}

/// Computes the rounded tenths of `bytes / unit`.
fn tenths(bytes: u64, unit: u64) -> (r: u64)
    requires
        unit >= 1024,
        bytes >= unit,
        unit <= 0x4000_0000,
    ensures
        r == tenths_of(bytes as int, unit as int),
        r >= 10,
{
    proof {
        let b = bytes as int;
        let u = unit as int;
        vstd::arithmetic::div_mod::lemma_div_is_ordered_by_denominator(b, 1024, u);
        assert(b / u <= b / 1024);
        vstd::arithmetic::div_mod::lemma_div_is_ordered(b, 0xFFFF_FFFF_FFFF_FFFF, 1024);
        assert(b / 1024 <= 0xFFFF_FFFF_FFFF_FFFFint / 1024);
        assert(b % u * 10 / u < 10) by (nonlinear_arith)
            requires
                u >= 1,
                0 <= b % u < u,
        ;
        assert(b % u * 10 / u >= 0) by (nonlinear_arith)
            requires
                u >= 1,
                b % u >= 0,
        ;
        assert(b * 10 / u == b / u * 10 + b % u * 10 / u && b * 10 % u == b % u * 10 % u) by (
        nonlinear_arith)
            requires
                u >= 1,
                b >= 0,
        ;
        assert(b / u >= 1) by (nonlinear_arith)
            requires
                b >= u,
                u >= 1,
        ;
    }
    let q = (bytes / unit) * 10 + (bytes % unit) * 10 / unit;
    let rem = (bytes % unit) * 10 % unit;
    if 2 * rem > unit {
        q + 1
    } else if 2 * rem < unit {
        q
    } else if q % 2 == 0 {
        q
    } else {
        q + 1
    }
}

/// Formats a byte count as a human-readable size with one rounded
/// decimal, such as a mebibyte count ending in ` MB`.
pub fn format_bytes(bytes: u64) -> (r: String)
    ensures
        r@ == format_bytes_spec(bytes),
{
    let kb: u64 = 1024;
    let mb: u64 = kb * 1024;
    let gb: u64 = mb * 1024;
    if bytes >= gb {
        scaled(tenths(bytes, gb), " GB")
    } else if bytes >= mb {
        scaled(tenths(bytes, mb), " MB")
    } else if bytes >= kb {
        scaled(tenths(bytes, kb), " KB")
    } else {
        let mut r = u64_to_dec(bytes);
        r.append(" B");
        proof {
            assert(r@ =~= dec_rep(bytes as nat) + " B"@);
        }
        r
    }
}

/// Renders a tenths value with its unit suffix.
fn scaled(t: u64, suffix: &str) -> (r: String)
    ensures
        r@ == scaled_text(t as int, suffix@),
{
    let mut r = u64_to_dec(t / 10);
    r.append(".");
    crate::strings::push_char(&mut r, digit_of(t % 10));
    r.append(suffix);
    proof {
        assert(r@ =~= scaled_text(t as int, suffix@));
    }
    r
}

} // verus!
