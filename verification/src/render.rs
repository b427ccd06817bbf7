//! Rendering of output values, as the output collaborator writes them:
//! either the decimal digits of the value, or the corresponding character
//! with a replacement glyph for values that are no code point.

use vstd::prelude::*;

verus! {

/// The decimal digits of `v`, most significant first, without leading
/// zeros; empty for zero.
pub open spec fn digits_rec(v: nat) -> Seq<u8>
    decreases v,
{
    if v == 0 {
        Seq::empty()
    } else {
        digits_rec(v / 10).push((48 + v % 10) as u8)
    }
}

/// The decimal text of `v` as bytes: its digits, or `"0"` for zero.
pub open spec fn decimal_of(v: nat) -> Seq<u8> {
    if v == 0 {
        seq![48u8]
    } else {
        digits_rec(v)
    }
}

fn push_digits(v: u32, out: &mut Vec<u8>)
    ensures
        final(out)@ == old(out)@ + digits_rec(v as nat),
    decreases v,
{
    if v == 0 {
        proof {
            assert(old(out)@ + digits_rec(0) =~= old(out)@);
        }
    } else {
        push_digits(v / 10, out);
        out.push(48 + (v % 10) as u8);
        proof {
            assert(old(out)@ + digits_rec((v / 10) as nat).push((48 + v as nat % 10) as u8)
                =~= (old(out)@ + digits_rec((v / 10) as nat)).push((48 + v as nat % 10) as u8));
        }
    }
}

/// The decimal text of a register value, as the bytes the output
/// collaborator writes in integer mode.
pub fn decimal_bytes(v: u32) -> (r: Vec<u8>)
    ensures
        r@ == decimal_of(v as nat),
{
    let mut out: Vec<u8> = Vec::new();
    if v == 0 {
        out.push(48);
        proof {
            assert(out@ =~= seq![48u8]);
        }
    } else {
        push_digits(v, &mut out);
        proof {
            assert(Seq::<u8>::empty() + digits_rec(v as nat) =~= digits_rec(v as nat));
        }
    }
    out
}

/// Whether `v` is a valid Unicode code point: not a surrogate and not
/// beyond the maximum scalar value.
pub open spec fn is_valid_code_point(v: u32) -> bool {
    v < 0xD800 || (0xE000 <= v && v <= 0x10FFFF)
}

/// Relies on `char::from_u32` (std): it returns `Some` of the character
/// with the given code exactly for values that are no surrogate and at most
/// the maximum scalar value, and `None` otherwise.
#[verifier::external_body]
fn char_from_u32(v: u32) -> (r: Option<char>)
    ensures
        (r is Some) == is_valid_code_point(v),
        r matches Some(c) ==> c as u32 == v,
{
    char::from_u32(v)
}

/// The character the output collaborator writes for a register value in
/// ascii mode: the character with that code, or the replacement glyph `?`
/// for a value that is no code point.
pub fn output_char(v: u32) -> (c: char)
    ensures
        is_valid_code_point(v) ==> c as u32 == v,
        !is_valid_code_point(v) ==> c == '?',
{
    match char_from_u32(v) {
        Some(c) => c,
        None => '?',
    }
}

} // verus!
