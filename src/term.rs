//! The terminal's width, as `tput cols` reports it.

use vstd::prelude::*;
use crate::text::chars_of;

verus! {

/// The width assumed when the terminal does not report one.
pub const DEFAULT_COLS: u16 = 80;

/// The text without its leading and trailing white space, as `str::trim`
/// gives it.
pub uninterp spec fn trimmed(s: Seq<char>) -> Seq<char>;

/// Relies on `str::trim`: the text without leading and trailing white space.
#[verifier::external_body]
fn trim_text(s: &str) -> (r: &str)
    ensures
        r@ == trimmed(s@),
{
    s.trim()
}

/// The value of a decimal digit.
pub open spec fn digit_value(c: char) -> nat {
    (c as u32 - '0' as u32) as nat
}

/// Whether `c` is a decimal digit.
pub open spec fn is_digit(c: char) -> bool {
    '0' <= c && c <= '9'
}

/// The value of a non-empty run of decimal digits.
pub open spec fn digits_value(s: Seq<char>) -> Option<nat>
    decreases s.len(),
{
    if s.len() == 0 || !is_digit(s.last()) {
        None
    } else if s.len() == 1 {
        Some(digit_value(s.last()))
    } else {
        match digits_value(s.drop_last()) {
            Some(v) => Some(10 * v + digit_value(s.last())),
            None => None,
        }
    }
}

/// The `u16` a text spells: decimal digits, optionally after a `+`, with a
/// value that fits.
pub open spec fn u16_of(s: Seq<char>) -> Option<u16> {
    let d = if s.len() > 0 && s[0] == '+' { s.drop_first() } else { s };
    match digits_value(d) {
        Some(v) => if v <= u16::MAX { Some(v as u16) } else { None },
        None => None,
    }
}

/// Proof that a run of digits is worth at least any of its prefixes.
proof fn lemma_digits_grow(s: Seq<char>, k: int)
    requires
        0 < k <= s.len(),
        digits_value(s) is Some,
    ensures
        digits_value(s.take(k)) is Some,
        digits_value(s.take(k))->0 <= digits_value(s)->0,
    decreases s.len(),
{
    assert(s.take(s.len() as int) == s);
    if k < s.len() {
        lemma_digits_grow(s.drop_last(), k);
        assert(s.drop_last().take(k) == s.take(k));
    }
}

/// Reads a `u16` out of a text; see [`u16_of`].
pub fn parse_u16(s: &str) -> (r: Option<u16>)
    ensures
        r == u16_of(s@),
{
    let cs = chars_of(s);
    let start: usize = if cs.len() > 0 && cs[0] == '+' { 1 } else { 0 };
    let ghost d = if s@.len() > 0 && s@[0] == '+' { s@.drop_first() } else { s@ };
    assert(d == cs@.skip(start as int));
    if start >= cs.len() {
        assert(d.len() == 0);
        return None;
    }
    let mut v: u32 = 0;
    let mut i: usize = start;
    while i < cs.len()
        invariant
            cs@ == s@,
            d == cs@.skip(start as int),
            d == (if s@.len() > 0 && s@[0] == '+' { s@.drop_first() } else { s@ }),
            start < cs.len(),
            start <= i <= cs.len(),
            i > start ==> digits_value(d.take(i - start)) == Some(v as nat),
            i == start ==> v == 0,
            v <= u16::MAX,
        decreases cs.len() - i,
    {
        let c = cs[i];
        let ghost pre = d.take(i - start);
        let ghost cur = d.take(i + 1 - start);
        assert(cur.drop_last() == pre);
        assert(cur.last() == c);
        if !('0' <= c && c <= '9') {
            proof {
                assert(digits_value(cur) is None);
                if digits_value(d) is Some {
                    lemma_digits_grow(d, i + 1 - start);
                }
            }
            return None;
        }
        let dv = (c as u32) - ('0' as u32);
        let nv = v * 10 + dv;
        proof {
            assert(cur.len() == i + 1 - start);
            assert(is_digit(cur.last()));
            assert(digit_value(cur.last()) == dv as nat);
            if i == start {
                assert(cur.len() == 1);
            }
            assert(digits_value(cur) == Some(nv as nat));
        }
        if nv > 65535 {
            proof {
                assert(digits_value(cur) == Some(nv as nat));
                if digits_value(d) is Some {
                    lemma_digits_grow(d, i + 1 - start);
                }
            }
            return None;
        }
        v = nv;
        i = i + 1;
    }
    assert(d.take(cs.len() - start) == d);
    Some(v as u16)
}

/// The terminal's width from what `tput cols` printed, or the default width
/// when it printed nothing usable or could not run.
pub fn cols(tput_output: Option<&str>) -> (r: u16)
    ensures
        tput_output is None ==> r == DEFAULT_COLS,
        tput_output matches Some(o) ==> r == (match u16_of(trimmed(o@)) {
            Some(n) => n,
            None => DEFAULT_COLS,
        }),
{
    match tput_output {
        None => DEFAULT_COLS,
        Some(o) => match parse_u16(trim_text(o)) {
            Some(n) => n,
            None => DEFAULT_COLS,
        },
    }
}

} // verus!
