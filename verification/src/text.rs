//! Character-level building blocks: digits, ASCII case folding and the
//! trimming of white space, all stated over sequences of characters.

use vstd::prelude::*;
use vstd::slice::slice_subrange;

verus! {

/// The characters of a text that may be missing.
pub open spec fn option_text(text: Option<&str>) -> Option<Seq<char>> {
    match text {
        Some(t) => Some(t@),
        None => None,
    }
}

/// One of the ten ASCII decimal digits.
pub open spec fn is_digit(c: char) -> bool {
    '0' <= c && c <= '9'
}

/// The number that a decimal digit stands for.
pub open spec fn digit_value(c: char) -> nat {
    (c as int - '0' as int) as nat
}

/// The number that a run of decimal digits denotes, most significant first.
/// The empty run denotes zero.
pub open spec fn decimal_value(digits: Seq<char>) -> nat
    decreases digits.len(),
{
    if digits.len() == 0 {
        0
    } else {
        decimal_value(digits.drop_last()) * 10 + digit_value(digits.last())
    }
}

/// Every character of the sequence is a decimal digit.
pub open spec fn all_digits(s: Seq<char>) -> bool {
    forall|i: int| 0 <= i < s.len() ==> is_digit(#[trigger] s[i])
}

/// The number that a text made of decimal digits alone denotes, if it is not
/// empty and the number fits into 64 bits.
pub open spec fn decimal_of(digits: Seq<char>) -> Option<u64> {
    if digits.len() > 0 && all_digits(digits) && decimal_value(digits) <= u64::MAX {
        Some(decimal_value(digits) as u64)
    } else {
        None
    }
}

/// A prefix of a digit run never denotes more than the whole run.
pub proof fn lemma_decimal_prefix(s: Seq<char>, k: int)
    requires
        0 <= k <= s.len(),
    ensures
        decimal_value(s.take(k)) <= decimal_value(s),
    decreases s.len(),
{
    if k == s.len() {
        assert(s.take(k) =~= s);
    } else {
        lemma_decimal_prefix(s.drop_last(), k);
        assert(s.drop_last().take(k) =~= s.take(k));
    }
}

/// The code points that Unicode classes as white space.
pub open spec fn is_whitespace(c: char) -> bool {
    let n = c as int;
    ||| 0x09 <= n <= 0x0D
    ||| n == 0x20
    ||| n == 0x85
    ||| n == 0xA0
    ||| n == 0x1680
    ||| 0x2000 <= n <= 0x200A
    ||| n == 0x2028
    ||| n == 0x2029
    ||| n == 0x202F
    ||| n == 0x205F
    ||| n == 0x3000
}

/// The code point of a character with the letters `A` to `Z` mapped onto
/// `a` to `z`; every other character stands for itself.
pub open spec fn fold_case(c: char) -> int {
    if 'A' <= c && c <= 'Z' {
        c as int + 32
    } else {
        c as int
    }
}

/// Equality of two texts up to the case of their ASCII letters.
pub open spec fn same_ignoring_case(a: Seq<char>, b: Seq<char>) -> bool {
    &&& a.len() == b.len()
    &&& forall|i: int| 0 <= i < a.len() ==> fold_case(#[trigger] a[i]) == fold_case(b[i])
}

/// The first index at or after `from` that holds no white space, or the
/// length of the text if there is none.
pub open spec fn first_solid(s: Seq<char>, from: int) -> int
    decreases s.len() - from,
{
    if 0 <= from < s.len() && is_whitespace(s[from]) {
        first_solid(s, from + 1)
    } else {
        from
    }
}

/// The end of the text before `to` once trailing white space is cut off,
/// never going below `floor`.
pub open spec fn last_solid(s: Seq<char>, floor: int, to: int) -> int
    decreases to - floor,
{
    if floor < to <= s.len() && is_whitespace(s[to - 1]) {
        last_solid(s, floor, to - 1)
    } else {
        to
    }
}

/// Where the trimmed text starts.
pub open spec fn trim_start(s: Seq<char>) -> int {
    first_solid(s, 0)
}

/// Where the trimmed text ends (exclusive).
pub open spec fn trim_end(s: Seq<char>) -> int {
    last_solid(s, trim_start(s), s.len() as int)
}

/// The text without its leading and trailing white space.
pub open spec fn trimmed(s: Seq<char>) -> Seq<char> {
    s.subrange(trim_start(s), trim_end(s))
}

/// `first_solid` skips white space only and stops at the first other character.
pub proof fn lemma_first_solid(s: Seq<char>, from: int)
    requires
        0 <= from <= s.len(),
    ensures
        from <= first_solid(s, from) <= s.len(),
        forall|i: int| from <= i < first_solid(s, from) ==> is_whitespace(#[trigger] s[i]),
        first_solid(s, from) < s.len() ==> !is_whitespace(s[first_solid(s, from)]),
    decreases s.len() - from,
{
    if from < s.len() && is_whitespace(s[from]) {
        lemma_first_solid(s, from + 1);
    }
}

/// `last_solid` cuts white space only and stops behind the last other character.
pub proof fn lemma_last_solid(s: Seq<char>, floor: int, to: int)
    requires
        0 <= floor <= to <= s.len(),
    ensures
        floor <= last_solid(s, floor, to) <= to,
        forall|i: int| last_solid(s, floor, to) <= i < to ==> is_whitespace(#[trigger] s[i]),
        floor < last_solid(s, floor, to) ==> !is_whitespace(s[last_solid(s, floor, to) - 1]),
    decreases to - floor,
{
    if floor < to && is_whitespace(s[to - 1]) {
        lemma_last_solid(s, floor, to - 1);
    }
}

/// Trimming cuts white space only, and cuts all of it at both ends: what is
/// cut off in front and behind is white space, and what is left is empty or
/// starts and ends with another character.
pub proof fn law_trimmed_is_the_solid_core(s: Seq<char>)
    ensures
        0 <= trim_start(s) <= trim_end(s) <= s.len(),
        forall|i: int| 0 <= i < trim_start(s) ==> is_whitespace(#[trigger] s[i]),
        forall|i: int| trim_end(s) <= i < s.len() ==> is_whitespace(#[trigger] s[i]),
        trimmed(s).len() > 0 ==> !is_whitespace(trimmed(s)[0]) && !is_whitespace(
            trimmed(s).last(),
        ),
{
    lemma_first_solid(s, 0);
    lemma_last_solid(s, trim_start(s), s.len() as int);
}

/// A text that neither starts nor ends with white space is its own trimming.
pub proof fn lemma_trimmed_of_solid(s: Seq<char>)
    requires
        s.len() > 0 ==> !is_whitespace(s[0]) && !is_whitespace(s.last()),
    ensures
        trimmed(s) == s,
{
    assert(trimmed(s) =~= s);
}

/// Behind a text that ends in a solid character, trailing white space is
/// cut off exactly as it is cut off from what follows that text alone.
pub proof fn lemma_last_solid_behind(head: Seq<char>, tail: Seq<char>, to: int)
    requires
        head.len() > 0,
        !is_whitespace(head.last()),
        0 <= to <= tail.len(),
    ensures
        last_solid(head + tail, 0, head.len() + to) == head.len() + last_solid(tail, 0, to),
    decreases to,
{
    let whole = head + tail;
    if to > 0 {
        assert(whole[head.len() + to - 1] == tail[to - 1]);
        if is_whitespace(tail[to - 1]) {
            lemma_last_solid_behind(head, tail, to - 1);
        }
    } else {
        assert(whole[head.len() - 1] == head.last());
    }
}

/// The pattern stands in the text at index `at`.
pub open spec fn occurs_at(s: Seq<char>, pattern: Seq<char>, at: int) -> bool {
    &&& 0 <= at
    &&& at + pattern.len() <= s.len()
    &&& s.subrange(at, at + pattern.len()) == pattern
}

/// The text ends with the pattern.
pub open spec fn has_suffix(s: Seq<char>, suffix: Seq<char>) -> bool {
    occurs_at(s, suffix, s.len() - suffix.len())
}

/// The pattern stands somewhere in the text.
pub open spec fn has_infix(s: Seq<char>, pattern: Seq<char>) -> bool {
    exists|at: int| occurs_at(s, pattern, at)
}

/// The index of the last occurrence of a character before index `n`, or -1
/// where there is none.
pub open spec fn last_index_of(s: Seq<char>, c: char, n: int) -> int
    decreases n,
{
    if n <= 0 || n > s.len() {
        -1
    } else if s[n - 1] == c {
        n - 1
    } else {
        last_index_of(s, c, n - 1)
    }
}

/// The characters of a string that may be missing.
pub open spec fn option_string(text: Option<String>) -> Option<Seq<char>> {
    match text {
        Some(t) => Some(t@),
        None => None,
    }
}

/// The characters of each text of a sequence.
pub open spec fn texts(items: Seq<&str>) -> Seq<Seq<char>> {
    Seq::new(items.len(), |i: int| items[i]@)
}

/// The characters of each string of a sequence.
pub open spec fn strings(items: Seq<String>) -> Seq<Seq<char>> {
    Seq::new(items.len(), |i: int| items[i]@)
}

/// The characters of a text, one by one.
pub fn chars_of(text: &str) -> (chars: Vec<char>)
    ensures
        chars@ == text@,
{
    let mut chars: Vec<char> = Vec::new();
    for c in it: text.chars()
        invariant
            chars@ == it.seq().take(it.index()),
            it.seq() == text@,
    {
        chars.push(c);
        assert(it.seq().take(it.index() + 1) =~= it.seq().take(it.index()).push(c));
    }
    assert(text@.take(text@.len() as int) =~= text@);
    chars
}

/// Tells whether a character is a decimal digit.
pub fn is_ascii_digit(c: char) -> (r: bool)
    ensures
        r == is_digit(c),
{
    c >= '0' && c <= '9'
}

/// The value of one decimal digit.
pub(crate) fn digit_of(c: char) -> (d: u64)
    requires
        is_digit(c),
    ensures
        d == digit_value(c),
        d <= 9,
{
    (c as u32 - '0' as u32) as u64
}

/// Tells whether a character is white space.
pub fn is_white_space(c: char) -> (r: bool)
    ensures
        r == is_whitespace(c),
{
    let n: u32 = c as u32;
    (0x09 <= n && n <= 0x0D) || n == 0x20 || n == 0x85 || n == 0xA0 || n == 0x1680 || (0x2000 <= n
        && n <= 0x200A) || n == 0x2028 || n == 0x2029 || n == 0x202F || n == 0x205F || n == 0x3000
}

fn folded(c: char) -> (n: u32)
    ensures
        n == fold_case(c),
{
    if c >= 'A' && c <= 'Z' {
        c as u32 + 32
    } else {
        c as u32
    }
}

/// Compares two texts without regard to the case of ASCII letters.
pub fn eq_ignore_ascii_case(a: &str, b: &str) -> (r: bool)
    ensures
        r == same_ignoring_case(a@, b@),
{
    let left = chars_of(a);
    let right = chars_of(b);
    if left.len() != right.len() {
        return false;
    }
    let mut i: usize = 0;
    while i < left.len()
        invariant
            i <= left.len(),
            left.len() == right.len(),
            left@ == a@,
            right@ == b@,
            forall|j: int| 0 <= j < i ==> fold_case(#[trigger] left@[j]) == fold_case(right@[j]),
        decreases left.len() - i,
    {
        if folded(left[i]) != folded(right[i]) {
            assert(fold_case(a@[i as int]) != fold_case(b@[i as int]));
            return false;
        }
        i += 1;
    }
    true
}

/// Reads a run of decimal digits as a number.
pub fn parse_decimal(digits: &[char]) -> (value: Option<u64>)
    ensures
        value == decimal_of(digits@),
{
    let n = digits.len();
    if n == 0 {
        return None;
    }
    let mut value: u64 = 0;
    let mut i: usize = 0;
    while i < n
        invariant
            i <= n,
            n == digits@.len(),
            all_digits(digits@.take(i as int)),
            value == decimal_value(digits@.take(i as int)),
        decreases n - i,
    {
        let c = digits[i];
        if !is_ascii_digit(c) {
            return None;
        }
        let ghost next = digits@.take(i + 1);
        proof {
            assert(next.drop_last() =~= digits@.take(i as int));
            assert(next.last() == c);
            lemma_decimal_prefix(digits@, i + 1);
        }
        let scaled = match value.checked_mul(10) {
            Some(scaled) => scaled,
            None => {
                return None;
            },
        };
        value = match scaled.checked_add(digit_of(c)) {
            Some(sum) => sum,
            None => {
                return None;
            },
        };
        i += 1;
    }
    assert(digits@.take(n as int) =~= digits@);
    Some(value)
}

/// Tells whether the pattern stands in the text at an index.
pub fn matches_at(text: &[char], pattern: &[char], at: usize) -> (r: bool)
    ensures
        r == occurs_at(text@, pattern@, at as int),
{
    if at > text.len() || pattern.len() > text.len() - at {
        return false;
    }
    let ghost window = text@.subrange(at as int, at + pattern@.len());
    let n = text.len();
    let mut j: usize = 0;
    while j < pattern.len()
        invariant
            j <= pattern@.len(),
            n == text@.len(),
            at + pattern@.len() <= text@.len(),
            window == text@.subrange(at as int, at + pattern@.len()),
            forall|i: int| 0 <= i < j ==> window[i] == pattern@[i],
        decreases pattern@.len() - j,
    {
        if text[at + j] != pattern[j] {
            assert(window[j as int] != pattern@[j as int]);
            return false;
        }
        j += 1;
    }
    assert(window =~= pattern@);
    true
}

/// Tells whether a text ends with a pattern.
pub fn ends_with(text: &str, suffix: &str) -> (r: bool)
    ensures
        r == has_suffix(text@, suffix@),
{
    let chars = chars_of(text);
    let pattern = chars_of(suffix);
    if pattern.len() > chars.len() {
        return false;
    }
    matches_at(chars.as_slice(), pattern.as_slice(), chars.len() - pattern.len())
}

/// Tells whether a pattern stands somewhere in a text.
pub fn contains_text(text: &str, pattern: &str) -> (r: bool)
    ensures
        r == has_infix(text@, pattern@),
{
    let chars = chars_of(text);
    let wanted = chars_of(pattern);
    if wanted.len() > chars.len() {
        return false;
    }
    let last = chars.len() - wanted.len();
    let mut at: usize = 0;
    loop
        invariant
            at <= last,
            last == chars@.len() - wanted@.len(),
            chars@ == text@,
            wanted@ == pattern@,
            forall|i: int| 0 <= i < at ==> !occurs_at(text@, pattern@, i),
        decreases last - at,
    {
        if matches_at(chars.as_slice(), wanted.as_slice(), at) {
            return true;
        }
        if at == last {
            return false;
        }
        at += 1;
    }
}

/// Tells whether a character stands somewhere in a text.
pub fn contains_char(text: &str, c: char) -> (r: bool)
    ensures
        r == text@.contains(c),
{
    let chars = chars_of(text);
    let mut i: usize = 0;
    while i < chars.len()
        invariant
            i <= chars@.len(),
            chars@ == text@,
            forall|j: int| 0 <= j < i ==> chars@[j] != c,
        decreases chars@.len() - i,
    {
        if chars[i] == c {
            return true;
        }
        i += 1;
    }
    false
}

/// The bounds of what is left of a text when white space is cut off at both
/// ends: the index of the first character kept, and the index behind the
/// last.
pub fn trim_bounds(chars: &[char]) -> (bounds: (usize, usize))
    ensures
        bounds.0 == trim_start(chars@),
        bounds.1 == trim_end(chars@),
        bounds.0 <= bounds.1 <= chars@.len(),
{
    let n = chars.len();
    let mut start: usize = 0;
    while start < n && is_white_space(chars[start])
        invariant
            start <= n,
            n == chars@.len(),
            first_solid(chars@, start as int) == first_solid(chars@, 0),
        decreases n - start,
    {
        start += 1;
    }
    let mut end: usize = n;
    while end > start && is_white_space(chars[end - 1])
        invariant
            start <= end <= n,
            n == chars@.len(),
            last_solid(chars@, start as int, end as int) == last_solid(
                chars@,
                start as int,
                n as int,
            ),
        decreases end - start,
    {
        end -= 1;
    }
    (start, end)
}

/// The sub-slice of `chars` that is left when white space is cut off at both
/// ends.
pub fn trim<'a>(chars: &'a [char]) -> (kept: &'a [char])
    ensures
        kept@ == trimmed(chars@),
{
    let (start, end) = trim_bounds(chars);
    slice_subrange(chars, start, end)
}

} // verus!
