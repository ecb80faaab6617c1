//! Decoding of the size column: a decimal quantity with an optional
//! one-letter binary unit.

use crate::text::{
    all_digits, chars_of, decimal_value, is_ascii_digit, is_digit, last_solid,
    lemma_last_solid, lemma_last_solid_behind, lemma_trimmed_of_solid, parse_decimal, trim,
    trim_end, trim_start, trimmed,
};
use vstd::prelude::*;
use vstd::slice::slice_subrange;

verus! {

/// The end of the run of decimal digits that starts at `from`.
pub open spec fn digit_run(s: Seq<char>, from: int) -> int
    decreases s.len() - from,
{
    if 0 <= from < s.len() && is_digit(s[from]) {
        digit_run(s, from + 1)
    } else {
        from
    }
}

/// The factor that a unit letter stands for, in either case.
pub open spec fn unit_multiplier(c: char) -> Option<nat> {
    if c == 'k' || c == 'K' {
        Some(0x400)
    } else if c == 'm' || c == 'M' {
        Some(0x10_0000)
    } else if c == 'g' || c == 'G' {
        Some(0x4000_0000)
    } else if c == 'p' || c == 'P' {
        Some(0x100_0000_0000)
    } else if c == 'e' || c == 'E' {
        Some(0x4_0000_0000_0000)
    } else {
        None
    }
}

/// The factor that the text behind the digits stands for: one for no
/// suffix, the unit's factor for a single unit letter, nothing otherwise.
pub open spec fn suffix_multiplier(suffix: Seq<char>) -> Option<nat> {
    if suffix.len() == 0 {
        Some(1)
    } else if suffix.len() == 1 {
        unit_multiplier(suffix[0])
    } else {
        None
    }
}

/// The byte count that a text without surrounding white space denotes.
///
/// The text is split at its first character that is no decimal digit. The
/// digits must not be empty, the rest must be a known suffix, and the
/// product must fit into 64 bits.
pub open spec fn size_of_text(t: Seq<char>) -> Option<u64> {
    let split = digit_run(t, 0);
    if split == 0 {
        None
    } else {
        match suffix_multiplier(t.skip(split)) {
            None => None,
            Some(factor) => {
                let bytes = decimal_value(t.take(split)) * factor;
                if bytes <= u64::MAX {
                    Some(bytes as u64)
                } else {
                    None
                }
            },
        }
    }
}

/// The byte count that the text of a size cell denotes.
pub open spec fn decoded_size(text: Seq<char>) -> Option<u64> {
    size_of_text(trimmed(text))
}

/// A digit run ends inside the text, holds digits only and stops at the
/// first character that is none.
pub proof fn lemma_digit_run(s: Seq<char>, from: int)
    requires
        0 <= from <= s.len(),
    ensures
        from <= digit_run(s, from) <= s.len(),
        forall|i: int| from <= i < digit_run(s, from) ==> is_digit(#[trigger] s[i]),
        digit_run(s, from) < s.len() ==> !is_digit(s[digit_run(s, from)]),
    decreases s.len() - from,
{
    if from < s.len() && is_digit(s[from]) {
        lemma_digit_run(s, from + 1);
    }
}

/// The run that starts at `from` ends at `to` when digits fill the gap and
/// the text ends or goes on with another character at `to`.
pub proof fn lemma_digit_run_ends(s: Seq<char>, from: int, to: int)
    requires
        0 <= from <= to <= s.len(),
        forall|i: int| from <= i < to ==> is_digit(#[trigger] s[i]),
        to < s.len() ==> !is_digit(s[to]),
    ensures
        digit_run(s, from) == to,
    decreases to - from,
{
    if from < to {
        lemma_digit_run_ends(s, from + 1, to);
    }
}

/// A quantity followed by nothing or by one unit letter, in either case,
/// decodes to the quantity times the unit's factor, as long as that product
/// fits into 64 bits.
pub proof fn law_size_is_quantity_times_unit(digits: Seq<char>, suffix: Seq<char>)
    requires
        digits.len() > 0,
        all_digits(digits),
        suffix_multiplier(suffix) is Some,
    ensures
        decoded_size(digits + suffix) == (if decimal_value(digits) * suffix_multiplier(suffix)->0
            <= u64::MAX {
            Some((decimal_value(digits) * suffix_multiplier(suffix)->0) as u64)
        } else {
            None
        }),
{
    let text = digits + suffix;
    assert(is_digit(digits[0]) && is_digit(digits.last()));
    assert(text[0] == digits[0]);
    if suffix.len() == 0 {
        assert(text.last() == digits.last());
    } else {
        assert(text.last() == suffix[0]);
        assert(text[digits.len() as int] == suffix[0]);
    }
    lemma_trimmed_of_solid(text);
    assert forall|i: int| 0 <= i < digits.len() implies is_digit(#[trigger] text[i]) by {
        assert(text[i] == digits[i]);
    }
    lemma_digit_run_ends(text, 0, digits.len() as int);
    assert(text.take(digits.len() as int) =~= digits);
    assert(text.skip(digits.len() as int) =~= suffix);
}

/// What stays of a text when trailing white space is cut off.
pub open spec fn without_trailing_space(s: Seq<char>) -> Seq<char> {
    s.take(last_solid(s, 0, s.len() as int))
}

/// A quantity followed by anything else that does not start with a digit is
/// rejected, unless that text is a known suffix once the white space at its
/// end is cut off.
pub proof fn law_unknown_suffix_is_rejected(digits: Seq<char>, suffix: Seq<char>)
    requires
        digits.len() > 0,
        all_digits(digits),
        suffix.len() > 0,
        !is_digit(suffix[0]),
        suffix_multiplier(without_trailing_space(suffix)) is None,
    ensures
        decoded_size(digits + suffix) is None,
{
    let text = digits + suffix;
    let rest = without_trailing_space(suffix);
    assert(is_digit(digits[0]) && is_digit(digits.last()));
    assert(text[0] == digits[0]);
    assert(trim_start(text) == 0);
    lemma_last_solid_behind(digits, suffix, suffix.len() as int);
    lemma_last_solid(suffix, 0, suffix.len() as int);
    assert(trim_end(text) == digits.len() + rest.len());
    let kept = trimmed(text);
    assert(kept =~= digits + rest);
    assert(rest.len() > 0);
    assert(rest[0] == suffix[0]);
    assert forall|i: int| 0 <= i < digits.len() implies is_digit(#[trigger] kept[i]) by {
        assert(kept[i] == digits[i]);
    }
    assert(kept[digits.len() as int] == rest[0]);
    lemma_digit_run_ends(kept, 0, digits.len() as int);
    assert(kept.skip(digits.len() as int) =~= rest);
}

/// The factor of a unit letter.
pub fn unit_factor(c: char) -> (factor: Option<u64>)
    ensures
        match factor {
            Some(f) => unit_multiplier(c) == Some(f as nat),
            None => unit_multiplier(c) is None,
        },
{
    if c == 'k' || c == 'K' {
        Some(0x400)
    } else if c == 'm' || c == 'M' {
        Some(0x10_0000)
    } else if c == 'g' || c == 'G' {
        Some(0x4000_0000)
    } else if c == 'p' || c == 'P' {
        Some(0x100_0000_0000)
    } else if c == 'e' || c == 'E' {
        Some(0x4_0000_0000_0000)
    } else {
        None
    }
}

/// Decodes the text of a size cell into a byte count.
///
/// White space around the text is ignored. The result is absent when the
/// text does not start with a digit, when what follows the digits is not a
/// known unit, and when the byte count does not fit into 64 bits.
pub fn decode_size(text: &str) -> (size: Option<u64>)
    ensures
        size == decoded_size(text@),
{
    let chars = chars_of(text);
    let kept = trim(chars.as_slice());
    let n = kept.len();
    let mut split: usize = 0;
    while split < n && is_ascii_digit(kept[split])
        invariant
            split <= n,
            n == kept@.len(),
            digit_run(kept@, split as int) == digit_run(kept@, 0),
        decreases n - split,
    {
        split += 1;
    }
    if split == 0 {
        return None;
    }
    proof {
        lemma_digit_run(kept@, 0);
        assert(kept@.subrange(0, split as int) =~= kept@.take(split as int));
        assert(kept@.skip(split as int).len() == n - split);
    }
    let factor: u64 = if split == n {
        1
    } else if n - split == 1 {
        assert(kept@.skip(split as int)[0] == kept@[split as int]);
        match unit_factor(kept[split]) {
            Some(factor) => factor,
            None => {
                return None;
            },
        }
    } else {
        return None;
    };
    assert(suffix_multiplier(kept@.skip(split as int)) == Some(factor as nat));
    let quantity = match parse_decimal(slice_subrange(kept, 0, split)) {
        Some(quantity) => quantity,
        None => {
            assert(decimal_value(kept@.take(split as int)) * factor > u64::MAX) by (nonlinear_arith)
                requires
                    decimal_value(kept@.take(split as int)) > u64::MAX,
                    factor >= 1,
            ;
            return None;
        },
    };
    quantity.checked_mul(factor)
}

} // verus!
