use vstd::prelude::*;

verus! {

use crate::utils::{join, join_spaces, push_char};

/// The decimal digit character for `d` (0 through 9).
pub open spec fn digit_char(d: int) -> char {
    (48 + d) as char
}

/// Decimal text of a nonnegative value.
pub open spec fn dec_nat(n: int) -> Seq<char>
    decreases n,
{
    if n < 10 {
        seq![digit_char(n)]
    } else {
        dec_nat(n / 10).push(digit_char(n % 10))
    }
}

/// Decimal text of `v`, with a leading minus sign when `v` is negative.
pub open spec fn dec_of(v: int) -> Seq<char> {
    if v < 0 {
        seq!['-'] + dec_nat(-v)
    } else {
        dec_nat(v)
    }
}

fn append_dec_u64(out: &mut String, n: u64)
    ensures
        final(out)@ == old(out)@ + dec_nat(n as int),
    decreases n,
{
    let d: u8 = (n % 10) as u8;
    if n < 10 {
        push_char(out, (48 + d) as char);
        proof {
            assert(final(out)@ =~= old(out)@ + dec_nat(n as int));
        }
    } else {
        append_dec_u64(out, n / 10);
        push_char(out, (48 + d) as char);
        proof {
            assert(final(out)@ =~= old(out)@ + dec_nat(n as int));
        }
    }
}

/// The decimal text form of `v`.
pub fn dec_string(v: i64) -> (r: String)
    ensures
        r@ == dec_of(v as int),
{
    let mut r = String::new();
    if v < 0 {
        push_char(&mut r, '-');
        let m: i64 = -(v + 1);
        let n: u64 = (m as u64) + 1;
        append_dec_u64(&mut r, n);
        proof {
            assert(n as int == -(v as int));
            assert(r@ =~= seq!['-'] + dec_nat(-(v as int)));
        }
    } else {
        append_dec_u64(&mut r, v as u64);
        proof {
            assert(r@ =~= dec_nat(v as int));
        }
    }
    r
}

/// The display form of a stack: each value bottom-to-top in decimal,
/// space-joined, with the top-marker suffix.
pub open spec fn render_stack(s: Seq<i64>) -> Seq<char> {
    join_spaces(s.map_values(|v: i64| dec_of(v as int))) + " <- Top"@
}

/// Renders the values of `v` for display, bottom-to-top.
pub fn render(v: &Vec<i64>) -> (r: String)
    ensures
        r@ == render_stack(v@),
{
    let mut decs: Vec<String> = Vec::new();
    let mut i: usize = 0;
    while i < v.len()
        invariant
            i <= v.len(),
            decs.deep_view() =~= v@.subrange(0, i as int).map_values(|x: i64| dec_of(x as int)),
        decreases v.len() - i,
    {
        let ghost prev = decs.deep_view();
        decs.push(dec_string(v[i]));
        proof {
            assert(decs.deep_view() =~= prev.push(dec_of(v@[i as int] as int)));
            assert(v@.subrange(0, i + 1).map_values(|x: i64| dec_of(x as int)) =~= v@.subrange(
                0,
                i as int,
            ).map_values(|x: i64| dec_of(x as int)).push(dec_of(v@[i as int] as int)));
        }
        i += 1;
    }
    proof {
        assert(v@.subrange(0, v@.len() as int) =~= v@);
    }
    let j = join(&decs);
    j.concat(" <- Top")
}

/// Whether `v` is a Unicode scalar value (not a surrogate, at most 0x10FFFF).
pub open spec fn is_scalar(v: int) -> bool {
    (0 <= v < 0xD800) || (0xE000 <= v <= 0x10FFFF)
}

/// The character the `emit` operator reports for a popped value: the
/// character with that scalar value, or a fixed fallback glyph when the
/// value is no Unicode scalar value.
pub open spec fn emit_glyph(v: int) -> char {
    if is_scalar(v) {
        v as char
    } else {
        '\u{e800}'
    }
}

/// Relies on char::from_u32: `Some` exactly on Unicode scalar values (not a
/// surrogate, at most 0x10FFFF), returning the character with that value.
#[verifier::external_body]
fn char_from_u32(v: u32) -> (r: Option<char>)
    ensures
        r is Some <==> is_scalar(v as int),
        r matches Some(c) ==> c as u32 == v,
{
    char::from_u32(v)
}

/// The character `emit` reports for the popped value `val`.
pub fn emit_char(val: i64) -> (c: char)
    ensures
        c == emit_glyph(val as int),
{
    if 0 <= val && val <= 0x10FFFF && !(0xD800 <= val && val <= 0xDFFF) {
        match char_from_u32(val as u32) {
            Some(c) => {
                proof {
                    vstd::utf8::char_u32_cast(c, val as u32);
                    assert((val as u32) as char == c);
                    assert(((val as int) as char) == ((val as u32) as char));
                }
                c
            },
            None => unreached(),
        }
    } else {
        '\u{e800}'
    }
}

} // verus!
