//! Numeric character references in markup text.
//!
//! In a text with embedded markup, `&#169;` and `&#xA9;` name a character by
//! its number. A reference that names none, because it has no digits or
//! because its number is no character, is not something that the parser can
//! be handed: such a text is told apart here, before it is parsed.

use vstd::prelude::*;
use crate::text::chars_of;

verus! {

/// How far behind its `&` a reference may be closed by a `;`.
pub const REFERENCE_REACH: usize = 10;

/// The greatest number of a character.
pub const GREATEST_SCALAR: u32 = 0x10FFFF;

/// One of the digits `0` to `9`.
pub open spec fn is_dec_digit(c: char) -> bool {
    '0' as u32 <= c as u32 <= '9' as u32
}

/// One of the digits `0` to `9`, `a` to `f` and `A` to `F`.
pub open spec fn is_hex_digit(c: char) -> bool {
    ||| is_dec_digit(c)
    ||| 'a' as u32 <= c as u32 <= 'f' as u32
    ||| 'A' as u32 <= c as u32 <= 'F' as u32
}

/// Whether `c` is a digit of the decimal or of the hexadecimal system.
pub open spec fn is_digit(c: char, hex: bool) -> bool {
    if hex {
        is_hex_digit(c)
    } else {
        is_dec_digit(c)
    }
}

/// The base of the decimal or of the hexadecimal system.
pub open spec fn radix_of(hex: bool) -> nat {
    if hex {
        16
    } else {
        10
    }
}

/// The value of a digit; 0 for a character that is none.
pub open spec fn digit_value(c: char) -> nat {
    if is_dec_digit(c) {
        (c as u32 - '0' as u32) as nat
    } else if 'a' as u32 <= c as u32 <= 'f' as u32 {
        (c as u32 - 'a' as u32 + 10) as nat
    } else if 'A' as u32 <= c as u32 <= 'F' as u32 {
        (c as u32 - 'A' as u32 + 10) as nat
    } else {
        0
    }
}

/// The number that a run of digits spells in the given base.
pub open spec fn code_value(digits: Seq<char>, radix: nat) -> nat
    decreases digits.len(),
{
    if digits.len() == 0 {
        0
    } else {
        code_value(digits.drop_last(), radix) * radix + digit_value(digits.last())
    }
}

/// Whether a number is the number of a character: at most the greatest, and
/// no surrogate.
pub open spec fn is_scalar_value(value: nat) -> bool {
    value <= GREATEST_SCALAR && !(0xD800 <= value <= 0xDFFF)
}

/// Whether a run of digits names a character: there is a digit, and the
/// number they spell is the number of a character.
pub open spec fn names_character(digits: Seq<char>, hex: bool) -> bool {
    digits.len() > 0 && is_scalar_value(code_value(digits, radix_of(hex)))
}

/// The index of the first `;` in `[from, until)`, or -1 where there is none.
pub open spec fn closing_index(text: Seq<char>, from: int, until: int) -> int
    decreases until - from,
{
    if from < 0 || from >= until || from >= text.len() {
        -1
    } else if text[from] == ';' {
        from
    } else {
        closing_index(text, from + 1, until)
    }
}

/// Whether every character of `text` in `[from, to)` is a digit.
pub open spec fn all_digits(text: Seq<char>, from: int, to: int, hex: bool) -> bool {
    forall|k: int| from <= k < to ==> is_digit(#[trigger] text[k], hex)
}

/// Whether what stands in `[from, to)` reads as a numeric reference that
/// names no character: `#` and decimal digits, or `#x` and hexadecimal
/// digits, where the digits are missing or spell no character's number.
pub open spec fn is_void_number(text: Seq<char>, from: int, to: int) -> bool {
    &&& 0 <= from < to <= text.len()
    &&& text[from] == '#'
    &&& if from + 1 < to && text[from + 1] == 'x' {
        all_digits(text, from + 2, to, true) && !names_character(
            text.subrange(from + 2, to),
            true,
        )
    } else {
        all_digits(text, from + 1, to, false) && !names_character(
            text.subrange(from + 1, to),
            false,
        )
    }
}

/// Whether the `&` at `at` opens a numeric reference that names no
/// character: a `;` closes it within reach, and what stands between is such
/// a number.
pub open spec fn is_void_reference(text: Seq<char>, at: int) -> bool {
    &&& 0 <= at < text.len()
    &&& text[at] == '&'
    &&& closing_index(text, at + 1, at + 1 + REFERENCE_REACH) >= 0
    &&& is_void_number(text, at + 1, closing_index(text, at + 1, at + 1 + REFERENCE_REACH))
}

/// Whether the text holds a numeric reference that names no character.
pub open spec fn has_void_reference(text: Seq<char>) -> bool {
    exists|at: int| is_void_reference(text, at)
}

/// The number that digits spell does not shrink as more digits follow.
pub proof fn lemma_code_value_grows(digits: Seq<char>, count: int, radix: nat)
    requires
        0 <= count <= digits.len(),
        radix >= 1,
    ensures
        code_value(digits.take(count), radix) <= code_value(digits, radix),
    decreases digits.len(),
{
    if count == digits.len() {
        assert(digits.take(count) =~= digits);
    } else {
        let shorter = digits.drop_last();
        lemma_code_value_grows(shorter, count, radix);
        assert(shorter.take(count) =~= digits.take(count));
        assert(code_value(shorter, radix) * radix >= code_value(shorter, radix)) by (nonlinear_arith)
            requires
                radix >= 1,
        ;
    }
}

/// The value of the digit `c`.
fn digit_of(c: char) -> (value: u32)
    ensures
        value == digit_value(c),
        value < 16,
{
    let code = c as u32;
    if '0' as u32 <= code && code <= '9' as u32 {
        code - '0' as u32
    } else if 'a' as u32 <= code && code <= 'f' as u32 {
        code - 'a' as u32 + 10
    } else if 'A' as u32 <= code && code <= 'F' as u32 {
        code - 'A' as u32 + 10
    } else {
        0
    }
}

/// Whether `c` is a digit of the decimal or of the hexadecimal system.
fn check_digit(c: char, hex: bool) -> (r: bool)
    ensures
        r == is_digit(c, hex),
{
    let code = c as u32;
    let dec = '0' as u32 <= code && code <= '9' as u32;
    if hex {
        dec || ('a' as u32 <= code && code <= 'f' as u32) || ('A' as u32 <= code && code
            <= 'F' as u32)
    } else {
        dec
    }
}

/// Whether every character in `[from, to)` is a digit.
fn check_digits(cs: &Vec<char>, from: usize, to: usize, hex: bool) -> (r: bool)
    requires
        from <= to <= cs.len(),
    ensures
        r == all_digits(cs@, from as int, to as int, hex),
{
    let mut i: usize = from;
    while i < to
        invariant
            from <= i <= to <= cs.len(),
            all_digits(cs@, from as int, i as int, hex),
        decreases to - i,
    {
        if !check_digit(cs[i], hex) {
            return false;
        }
        i += 1;
    }
    true
}

/// Whether the digits in `[from, to)` name a character.
fn check_names_character(cs: &Vec<char>, from: usize, to: usize, hex: bool) -> (r: bool)
    requires
        from <= to <= cs.len(),
    ensures
        r == names_character(cs@.subrange(from as int, to as int), hex),
{
    let ghost digits = cs@.subrange(from as int, to as int);
    let radix: u32 = if hex {
        16
    } else {
        10
    };
    let mut value: u32 = 0;
    let mut i: usize = from;
    while i < to
        invariant
            from <= i <= to <= cs.len(),
            digits == cs@.subrange(from as int, to as int),
            radix == radix_of(hex),
            value <= GREATEST_SCALAR,
            value == code_value(cs@.subrange(from as int, i as int), radix as nat),
        decreases to - i,
    {
        let digit = digit_of(cs[i]);
        assert(value * radix <= GREATEST_SCALAR * 16) by (nonlinear_arith)
            requires
                value <= GREATEST_SCALAR,
                radix <= 16,
        ;
        let next = value * radix + digit;
        proof {
            let longer = cs@.subrange(from as int, i + 1);
            assert(longer.drop_last() =~= cs@.subrange(from as int, i as int));
            assert(longer.last() == cs@[i as int]);
            assert(next == code_value(longer, radix as nat));
        }
        if next > GREATEST_SCALAR {
            proof {
                lemma_code_value_grows(digits, i + 1 - from, radix as nat);
                assert(digits.take(i + 1 - from) =~= cs@.subrange(from as int, i + 1));
            }
            return false;
        }
        value = next;
        i += 1;
    }
    assert(cs@.subrange(from as int, i as int) =~= digits);
    from < to && !(0xD800 <= value && value <= 0xDFFF)
}

/// Finds the first `;` in `[from, until)`.
fn find_closing(cs: &Vec<char>, from: usize, until: usize) -> (r: Option<usize>)
    ensures
        r is Some <==> closing_index(cs@, from as int, until as int) >= 0,
        r is Some ==> r->0 == closing_index(cs@, from as int, until as int) && from <= r->0
            < cs.len(),
{
    let mut i: usize = from;
    while i < until && i < cs.len()
        invariant
            from <= i,
            closing_index(cs@, from as int, until as int) == closing_index(
                cs@,
                i as int,
                until as int,
            ),
        decreases cs.len() - i,
    {
        if cs[i] == ';' {
            return Some(i);
        }
        i += 1;
    }
    None
}

/// Whether the `&` at `at` opens a numeric reference that names no
/// character.
fn check_void_reference(cs: &Vec<char>, at: usize) -> (r: bool)
    requires
        at < cs.len(),
    ensures
        r == is_void_reference(cs@, at as int),
{
    if cs[at] != '&' {
        return false;
    }
    let until = if cs.len() - at > REFERENCE_REACH {
        at + 1 + REFERENCE_REACH
    } else {
        cs.len()
    };
    proof {
        lemma_same_closing(cs@, at + 1, until as int, at + 1 + REFERENCE_REACH);
    }
    let close = match find_closing(cs, at + 1, until) {
        Some(close) => close,
        None => {
            return false;
        },
    };
    if close == at + 1 || cs[at + 1] != '#' {
        return false;
    }
    if at + 2 < close && cs[at + 2] == 'x' {
        check_digits(cs, at + 3, close, true) && !check_names_character(cs, at + 3, close, true)
    } else {
        check_digits(cs, at + 2, close, false) && !check_names_character(
            cs,
            at + 2,
            close,
            false,
        )
    }
}

/// A `;` is looked for no further than the text runs: a limit behind the
/// end of the text finds what the end of the text as limit finds.
proof fn lemma_same_closing(text: Seq<char>, from: int, until: int, beyond: int)
    requires
        0 <= from,
        until == beyond || (until == text.len() && beyond >= until),
    ensures
        closing_index(text, from, until) == closing_index(text, from, beyond),
    decreases text.len() - from,
{
    if from < until && from < text.len() && text[from] != ';' {
        lemma_same_closing(text, from + 1, until, beyond);
    }
}

/// Whether the text holds a numeric reference that names no character.
pub fn holds_void_reference(text: &str) -> (r: bool)
    ensures
        r == has_void_reference(text@),
{
    let cs = chars_of(text);
    let mut at: usize = 0;
    while at < cs.len()
        invariant
            at <= cs.len(),
            cs@ == text@,
            forall|k: int| 0 <= k < at ==> !is_void_reference(cs@, k),
        decreases cs.len() - at,
    {
        if check_void_reference(&cs, at) {
            return true;
        }
        at += 1;
    }
    false
}

} // verus!
