//! Parser for the song notation.
//!
//! The notation is line-based. A first line `%abc-X.Y` states the file
//! version; any other line opening with `%` is a comment. A line whose
//! second character is `:` is a header: its first character is the key
//! and the rest of the line the value. Every other non-empty line is a
//! body line: a run of notes, with spaces, tabs, bar lines `|` and
//! carriage returns between them ignored. A note is either a rest
//! (`z` or `Z`) or accidental marks (`^` sharp, `_` flat, `=` natural)
//! followed by a pitch letter `a`–`g` (either case) and octave marks
//! (`'` up, `,` down); in both forms a length specifier follows: a run
//! of slashes and then a run of decimal digits. A plain number marks
//! the note's length as a division of the base unit, a single slash
//! before it as a multiple, and two or more slashes as a multiple of
//! two per slash, as `spec_parse_note_length` and the resolution in
//! `crate::parse_tree` state exactly.

use vstd::prelude::*;

use crate::abc;
use crate::abc::Version;
use crate::parse_tree;

verus! {

/// Why an input is rejected.
#[derive(Debug, Copy, Clone, PartialEq, Eq, Structural)]
pub enum ParseError {
    /// A version line names no `major.minor` pair of byte-sized numbers.
    InvalidVersion,
    /// A header key is not exactly one character.
    InvalidInformation,
    /// A pitch letter names no natural class.
    InvalidPitch,
    /// Octave marks add up past the representable range.
    OctaveOutOfRange,
    /// A number in a length specifier exceeds its type.
    NumberTooLarge,
    /// A body character begins no note.
    UnexpectedCharacter,
}

/// The parser for the song notation; `parse_abc` is its entry point.
#[derive(Debug)]
pub struct ABCParser;

/// A decimal digit.
pub open spec fn spec_is_digit(c: char) -> bool {
    c as u32 >= 48 && c as u32 <= 57
}

/// Value of one decimal digit.
pub open spec fn spec_digit_val(c: char) -> int {
    c as u32 - 48
}

/// Value of a string of decimal digits, most significant first.
pub open spec fn spec_digits_to_int(s: Seq<char>) -> int
    decreases s.len(),
{
    if s.len() == 0 {
        0
    } else {
        spec_digits_to_int(s.drop_last()) * 10 + spec_digit_val(s.last())
    }
}

/// A non-empty all-digit string.
pub open spec fn spec_is_digit_run(s: Seq<char>) -> bool {
    s.len() > 0 && forall|k: int| 0 <= k < s.len() ==> spec_is_digit(s[k])
}

/// A digit string's value is non-negative.
pub proof fn lemma_digits_nonneg(s: Seq<char>)
    requires
        forall|k: int| 0 <= k < s.len() ==> spec_is_digit(s[k]),
    ensures
        spec_digits_to_int(s) >= 0,
    decreases s.len(),
{
    if s.len() > 0 {
        lemma_digits_nonneg(s.drop_last());
    }
}

/// Dropping digits from the end never increases the value.
pub proof fn lemma_digits_prefix_le(s: Seq<char>, i: int)
    requires
        forall|k: int| 0 <= k < s.len() ==> spec_is_digit(s[k]),
        0 <= i <= s.len(),
    ensures
        spec_digits_to_int(s.take(i)) <= spec_digits_to_int(s),
    decreases s.len(),
{
    lemma_digits_nonneg(s);
    if i < s.len() {
        assert(s.take(i) =~= s.drop_last().take(i));
        lemma_digits_prefix_le(s.drop_last(), i);
        lemma_digits_nonneg(s.drop_last());
    } else {
        assert(s.take(i) =~= s);
    }
}

/// The characters of `s`, in order.
fn str_to_chars(s: &str) -> (v: Vec<char>)
    ensures
        v@ == s@,
{
    let n = s.unicode_len();
    let mut v: Vec<char> = Vec::new();
    let mut i: usize = 0;
    while i < n
        invariant
            i <= n,
            n == s@.len(),
            v@ == s@.take(i as int),
        decreases n - i,
    {
        let c = s.get_char(i);
        v.push(c);
        proof {
            assert(s@.take(i + 1) =~= s@.take(i as int).push(s@[i as int]));
        }
        i += 1;
    }
    proof {
        assert(s@.take(n as int) =~= s@);
    }
    v
}

/// First position at or past `from` holding `c`, or the length of `s`
/// when none does.
pub open spec fn spec_find_char(s: Seq<char>, c: char, from: int) -> int
    decreases s.len() - from,
    when 0 <= from <= s.len()
{
    if from >= s.len() {
        from
    } else if s[from] == c {
        from
    } else {
        spec_find_char(s, c, from + 1)
    }
}

/// `spec_find_char` lands on `c` inside the string or at its end, and
/// skips no occurrence.
pub proof fn lemma_find_char(s: Seq<char>, c: char, from: int)
    requires
        0 <= from <= s.len(),
    ensures
        from <= spec_find_char(s, c, from) <= s.len(),
        spec_find_char(s, c, from) < s.len() ==> s[spec_find_char(s, c, from)] == c,
        forall|j: int| from <= j < spec_find_char(s, c, from) ==> s[j] != c,
    decreases s.len() - from,
{
    if from < s.len() && s[from] != c {
        lemma_find_char(s, c, from + 1);
    }
}

/// First position at or past `from` holding `c`, or the length when
/// none does.
fn find_char(chars: &Vec<char>, c: char, from: usize) -> (r: usize)
    requires
        from <= chars@.len(),
    ensures
        r == spec_find_char(chars@, c, from as int),
{
    let mut i: usize = from;
    while i < chars.len()
        invariant
            from <= i <= chars@.len(),
            spec_find_char(chars@, c, from as int) == spec_find_char(chars@, c, i as int),
        decreases chars@.len() - i,
    {
        if chars[i] == c {
            return i;
        }
        i += 1;
    }
    i
}

/// The digits of `s`, in order, all other characters dropped.
pub open spec fn spec_digits_of(s: Seq<char>) -> Seq<char>
    decreases s.len(),
{
    if s.len() == 0 {
        Seq::empty()
    } else if spec_is_digit(s.last()) {
        spec_digits_of(s.drop_last()).push(s.last())
    } else {
        spec_digits_of(s.drop_last())
    }
}

/// Every character `spec_digits_of` keeps is a digit.
pub proof fn lemma_digits_of_are_digits(s: Seq<char>)
    ensures
        forall|k: int|
            0 <= k < spec_digits_of(s).len() ==> spec_is_digit(#[trigger] spec_digits_of(s)[k]),
    decreases s.len(),
{
    if s.len() > 0 {
        lemma_digits_of_are_digits(s.drop_last());
        if spec_is_digit(s.last()) {
            assert forall|k: int|
                0 <= k < spec_digits_of(s).len() implies spec_is_digit(
                #[trigger] spec_digits_of(s)[k],
            ) by {
                if k < spec_digits_of(s).len() - 1 {
                    assert(spec_digits_of(s)[k] == spec_digits_of(s.drop_last())[k]);
                } else {
                    assert(spec_digits_of(s)[k] == s.last());
                }
            }
        }
    }
}

/// Whether `c` is a decimal digit.
fn is_digit_char(c: char) -> (b: bool)
    ensures
        b == spec_is_digit(c),
{
    let u = c as u32;
    48 <= u && u <= 57
}

/// The value of the digits `chars[start .. end)`, or `NumberTooLarge`
/// exactly when that value exceeds `u64::MAX`.
fn parse_u64_digits(chars: &Vec<char>, start: usize, end: usize) -> (r: Result<u64, ParseError>)
    requires
        start <= end <= chars@.len(),
        forall|k: int| start <= k < end ==> spec_is_digit(chars@[k]),
    ensures
        ({
            let v = spec_digits_to_int(chars@.subrange(start as int, end as int));
            match r {
                Ok(x) => x == v,
                Err(e) => e == ParseError::NumberTooLarge && v > u64::MAX,
            }
        }),
{
    let ghost digits = chars@.subrange(start as int, end as int);
    let mut acc: u64 = 0;
    let mut i: usize = start;
    while i < end
        invariant
            start <= i <= end <= chars@.len(),
            digits == chars@.subrange(start as int, end as int),
            forall|k: int| start <= k < end ==> spec_is_digit(chars@[k]),
            acc == spec_digits_to_int(digits.take(i - start)),
        decreases end - i,
    {
        let c = chars[i];
        let d: u64 = (c as u32 - 48) as u64;
        let next: u128 = acc as u128 * 10 + d as u128;
        proof {
            assert(digits.take(i + 1 - start).drop_last() =~= digits.take(i - start));
            assert(digits.take(i + 1 - start).last() == chars@[i as int]);
        }
        if next > u64::MAX as u128 {
            proof {
                assert(forall|k: int| 0 <= k < digits.len() ==> spec_is_digit(digits[k]));
                lemma_digits_prefix_le(digits, i + 1 - start);
            }
            return Err(ParseError::NumberTooLarge);
        }
        acc = next as u64;
        i += 1;
    }
    proof {
        assert(digits.take(end - start) =~= digits);
    }
    Ok(acc)
}

/// Reads a version string `major.minor`: the digits before the first
/// dot and those between it and the next dot (or the end), each a
/// number up to 255. Anything else is `InvalidVersion`.
pub open spec fn spec_parse_version(s: Seq<char>) -> Result<Version, ParseError> {
    let i = spec_find_char(s, '.', 0);
    if i >= s.len() {
        Err(ParseError::InvalidVersion)
    } else {
        let j = spec_find_char(s, '.', i + 1);
        let major = s.subrange(0, i);
        let minor = s.subrange(i + 1, j);
        if spec_is_digit_run(major) && spec_is_digit_run(minor) && spec_digits_to_int(major) <= 255
            && spec_digits_to_int(minor) <= 255 {
            Ok(
                Version {
                    major: spec_digits_to_int(major) as u8,
                    minor: spec_digits_to_int(minor) as u8,
                },
            )
        } else {
            Err(ParseError::InvalidVersion)
        }
    }
}

/// Whether `chars[start .. end)` is a non-empty run of digits.
fn check_digit_run(chars: &Vec<char>, start: usize, end: usize) -> (b: bool)
    requires
        start <= end <= chars@.len(),
    ensures
        b == spec_is_digit_run(chars@.subrange(start as int, end as int)),
{
    let ghost run = chars@.subrange(start as int, end as int);
    if start == end {
        return false;
    }
    let mut i: usize = start;
    while i < end
        invariant
            start <= i <= end <= chars@.len(),
            run == chars@.subrange(start as int, end as int),
            forall|k: int| 0 <= k < i - start ==> spec_is_digit(run[k]),
        decreases end - i,
    {
        if !is_digit_char(chars[i]) {
            proof {
                assert(run[i - start] == chars@[i as int]);
            }
            return false;
        }
        i += 1;
    }
    true
}

/// Reads a version string, exactly as `spec_parse_version` states.
pub fn parse_version(version: &str) -> (r: Result<Version, ParseError>)
    ensures
        r == spec_parse_version(version@),
{
    let chars = str_to_chars(version);
    proof {
        assert(chars@.subrange(0, chars@.len() as int) =~= version@);
    }
    parse_version_chars(&chars, 0, chars.len())
}

/// A first occurrence found by scanning `chars[start .. end)` from
/// position `start + from` is the occurrence `spec_find_char` names on
/// the extracted range.
proof fn lemma_first_occurrence(chars: Seq<char>, c: char, start: int, end: int, from: int, r: int)
    requires
        0 <= start <= end <= chars.len(),
        0 <= from,
        start + from <= r <= end,
        r < end ==> chars[r] == c,
        forall|j: int| start + from <= j < r ==> chars[j] != c,
    ensures
        r - start == spec_find_char(chars.subrange(start, end), c, from),
{
    let s = chars.subrange(start, end);
    lemma_find_char(s, c, from);
    let fi = spec_find_char(s, c, from);
    if fi < r - start {
        assert(s[fi] == chars[start + fi]);
        assert(false);
    }
    if fi > r - start {
        assert(s[r - start] == chars[r]);
        assert(false);
    }
}

/// First position in `chars[from .. end)` holding `c`, or `end`.
fn find_char_before(chars: &Vec<char>, c: char, from: usize, end: usize) -> (r: usize)
    requires
        from <= end <= chars@.len(),
    ensures
        from <= r <= end,
        r < end ==> chars@[r as int] == c,
        forall|j: int| from <= j < r ==> chars@[j] != c,
{
    let mut i: usize = from;
    while i < end
        invariant
            from <= i <= end <= chars@.len(),
            forall|j: int| from <= j < i ==> chars@[j] != c,
        decreases end - i,
    {
        if chars[i] == c {
            return i;
        }
        i += 1;
    }
    i
}

/// Reads a version from `chars[start .. end)`, as `spec_parse_version`
/// states of that range.
fn parse_version_chars(chars: &Vec<char>, start: usize, end: usize) -> (r: Result<
    Version,
    ParseError,
>)
    requires
        start <= end <= chars@.len(),
    ensures
        r == spec_parse_version(chars@.subrange(start as int, end as int)),
{
    let ghost s = chars@.subrange(start as int, end as int);
    let dot1 = find_char_before(chars, '.', start, end);
    proof {
        lemma_first_occurrence(chars@, '.', start as int, end as int, 0, dot1 as int);
    }
    if dot1 == end {
        return Err(ParseError::InvalidVersion);
    }
    let dot2 = find_char_before(chars, '.', dot1 + 1, end);
    proof {
        lemma_first_occurrence(
            chars@,
            '.',
            start as int,
            end as int,
            dot1 + 1 - start as int,
            dot2 as int,
        );
        assert(s.subrange(0, dot1 - start) =~= chars@.subrange(start as int, dot1 as int));
        assert(s.subrange(dot1 - start + 1, dot2 - start) =~= chars@.subrange(
            dot1 + 1,
            dot2 as int,
        ));
    }
    let major_ok = check_digit_run(chars, start, dot1);
    let minor_ok = check_digit_run(chars, dot1 + 1, dot2);
    if !major_ok || !minor_ok {
        return Err(ParseError::InvalidVersion);
    }
    proof {
        assert forall|k: int| start <= k < dot1 implies spec_is_digit(chars@[k]) by {
            assert(chars@.subrange(start as int, dot1 as int)[k - start] == chars@[k]);
        }
        assert forall|k: int| dot1 + 1 <= k < dot2 implies spec_is_digit(chars@[k]) by {
            assert(chars@.subrange(dot1 + 1, dot2 as int)[k - (dot1 + 1)] == chars@[k]);
        }
    }
    let major = match parse_u64_digits(chars, start, dot1) {
        Ok(v) => v,
        Err(_) => {
            return Err(ParseError::InvalidVersion);
        },
    };
    let minor = match parse_u64_digits(chars, dot1 + 1, dot2) {
        Ok(v) => v,
        Err(_) => {
            return Err(ParseError::InvalidVersion);
        },
    };
    if major > 255 || minor > 255 {
        return Err(ParseError::InvalidVersion);
    }
    Ok(Version { major: major as u8, minor: minor as u8 })
}

/// A class of characters the note scanner takes in one run.
#[derive(Debug, Copy, Clone, PartialEq, Eq, Structural)]
pub enum CharClass {
    AccidentalMark,
    OctaveMark,
    Slash,
    DecimalDigit,
}

/// Membership in a scanner character class.
pub open spec fn spec_in_class(c: char, k: CharClass) -> bool {
    match k {
        CharClass::AccidentalMark => c == '^' || c == '_' || c == '=',
        CharClass::OctaveMark => c == '\'' || c == ',',
        CharClass::Slash => c == '/',
        CharClass::DecimalDigit => spec_is_digit(c),
    }
}

/// Membership in a scanner character class.
fn in_class(c: char, k: CharClass) -> (b: bool)
    ensures
        b == spec_in_class(c, k),
{
    match k {
        CharClass::AccidentalMark => c == '^' || c == '_' || c == '=',
        CharClass::OctaveMark => c == '\'' || c == ',',
        CharClass::Slash => c == '/',
        CharClass::DecimalDigit => is_digit_char(c),
    }
}

/// First position at or past `from` outside the class, or the length
/// of `s` when the class runs to the end.
pub open spec fn spec_span(s: Seq<char>, from: int, k: CharClass) -> int
    decreases s.len() - from,
    when 0 <= from <= s.len()
{
    if from >= s.len() {
        from
    } else if spec_in_class(s[from], k) {
        spec_span(s, from + 1, k)
    } else {
        from
    }
}

/// The span runs from `from` to a position in range; everything inside
/// it belongs to the class and the character after it (if any) does
/// not.
pub proof fn lemma_span(s: Seq<char>, from: int, k: CharClass)
    requires
        0 <= from <= s.len(),
    ensures
        from <= spec_span(s, from, k) <= s.len(),
        forall|j: int| from <= j < spec_span(s, from, k) ==> spec_in_class(s[j], k),
        spec_span(s, from, k) < s.len() ==> !spec_in_class(s[spec_span(s, from, k)], k),
    decreases s.len() - from,
{
    if from < s.len() && spec_in_class(s[from], k) {
        lemma_span(s, from + 1, k);
    }
}

/// First position at or past `from` outside the class.
fn span(chars: &Vec<char>, from: usize, k: CharClass) -> (r: usize)
    requires
        from <= chars@.len(),
    ensures
        r == spec_span(chars@, from as int, k),
        from <= r <= chars@.len(),
{
    proof {
        lemma_span(chars@, from as int, k);
    }
    let mut i: usize = from;
    while i < chars.len()
        invariant
            from <= i <= chars@.len(),
            spec_span(chars@, from as int, k) == spec_span(chars@, i as int, k),
        decreases chars@.len() - i,
    {
        if !in_class(chars[i], k) {
            return i;
        }
        i += 1;
    }
    i
}

/// The accidental a mark stands for.
pub open spec fn spec_accidental_of(c: char) -> parse_tree::Accidental {
    if c == '^' {
        parse_tree::Accidental::Sharp
    } else if c == '_' {
        parse_tree::Accidental::Flat
    } else {
        parse_tree::Accidental::Natural
    }
}

/// The accidentals a run of marks stands for, in order.
pub open spec fn spec_accidentals_of(s: Seq<char>) -> Seq<parse_tree::Accidental> {
    s.map(|i: int, c: char| spec_accidental_of(c))
}

/// The accidental a mark stands for.
fn accidental_of(c: char) -> (a: parse_tree::Accidental)
    ensures
        a == spec_accidental_of(c),
{
    if c == '^' {
        parse_tree::Accidental::Sharp
    } else if c == '_' {
        parse_tree::Accidental::Flat
    } else {
        parse_tree::Accidental::Natural
    }
}

/// The octave step a mark stands for.
pub open spec fn spec_octave_of(c: char) -> parse_tree::Octave {
    if c == '\'' {
        parse_tree::Octave::Up
    } else {
        parse_tree::Octave::Down
    }
}

/// The octave steps a run of marks stands for, in order.
pub open spec fn spec_octaves_of(s: Seq<char>) -> Seq<parse_tree::Octave> {
    s.map(|i: int, c: char| spec_octave_of(c))
}

/// The octave step a mark stands for.
fn octave_of(c: char) -> (o: parse_tree::Octave)
    ensures
        o == spec_octave_of(c),
{
    if c == '\'' {
        parse_tree::Octave::Up
    } else {
        parse_tree::Octave::Down
    }
}

/// Characters ignored between the notes of a body line.
pub open spec fn spec_is_skip(c: char) -> bool {
    c == ' ' || c == '\t' || c == '|' || c == '\r'
}

/// Characters ignored between the notes of a body line.
fn is_skip_char(c: char) -> (b: bool)
    ensures
        b == spec_is_skip(c),
{
    c == ' ' || c == '\t' || c == '|' || c == '\r'
}

/// The characters that write a rest.
pub open spec fn spec_is_rest_char(c: char) -> bool {
    c == 'z' || c == 'Z'
}

/// Reads a length specifier: nothing means the base unit; otherwise
/// the leading slashes are counted and the digits anywhere in the
/// string are read as one number (missing digits mean one). The
/// slashed flag records whether any slash was written, two or more
/// slashes stand for the number two to the power of their count, and
/// a number too wide for its type is `NumberTooLarge`.
pub open spec fn spec_parse_note_length(s: Seq<char>) -> Result<parse_tree::Length, ParseError> {
    if s.len() == 0 {
        Ok(parse_tree::Length::Default)
    } else {
        let slashes = spec_span(s, 0, CharClass::Slash);
        let digits = spec_digits_of(s);
        if slashes >= 2 {
            if slashes >= 64 {
                Err(ParseError::NumberTooLarge)
            } else {
                Ok(
                    parse_tree::Length::Specified {
                        divided: true,
                        number: vstd::arithmetic::power2::pow2(slashes as nat) as u64,
                    },
                )
            }
        } else {
            let number = if digits.len() == 0 {
                1int
            } else {
                spec_digits_to_int(digits)
            };
            if number > u64::MAX {
                Err(ParseError::NumberTooLarge)
            } else {
                Ok(parse_tree::Length::Specified { divided: slashes == 1, number: number as u64 })
            }
        }
    }
}

/// Two to the power `k`.
fn pow2_u64(k: usize) -> (r: u64)
    requires
        k <= 63,
    ensures
        r == vstd::arithmetic::power2::pow2(k as nat),
{
    proof {
        vstd::arithmetic::power2::lemma2_to64();
        vstd::arithmetic::power2::lemma2_to64_rest();
    }
    let mut r: u64 = 1;
    let mut i: usize = 0;
    while i < k
        invariant
            i <= k <= 63,
            r == vstd::arithmetic::power2::pow2(i as nat),
        decreases k - i,
    {
        proof {
            vstd::arithmetic::power2::lemma_pow2_unfold((i + 1) as nat);
            if i + 1 <= 63 {
                vstd::arithmetic::power2::lemma_pow2_strictly_increases((i + 1) as nat, 64);
            }
            vstd::arithmetic::power2::lemma2_to64();
            vstd::arithmetic::power2::lemma2_to64_rest();
        }
        r = r * 2;
        i += 1;
    }
    r
}

/// Reads the length specifier `chars[start .. end)`, exactly as
/// `spec_parse_note_length` states of that range.
fn parse_note_length_chars(chars: &Vec<char>, start: usize, end: usize) -> (r: Result<
    parse_tree::Length,
    ParseError,
>)
    requires
        start <= end <= chars@.len(),
    ensures
        r == spec_parse_note_length(chars@.subrange(start as int, end as int)),
{
    let ghost s = chars@.subrange(start as int, end as int);
    if start == end {
        return Ok(parse_tree::Length::Default);
    }

    // count the leading slashes
    let mut p: usize = start;
    while p < end && chars[p] == '/'
        invariant
            start <= p <= end <= chars@.len(),
            s == chars@.subrange(start as int, end as int),
            forall|j: int| 0 <= j < p - start ==> spec_in_class(s[j], CharClass::Slash),
        decreases end - p,
    {
        proof {
            assert(s[p - start] == chars@[p as int]);
        }
        p += 1;
    }
    proof {
        if p < end {
            assert(s[p - start] == chars@[p as int]);
        }
        lemma_span_of_scan(s, CharClass::Slash, p - start);
    }
    let slashes: usize = p - start;

    // gather the digits, wherever they stand
    let mut digit_vec: Vec<char> = Vec::new();
    let mut q: usize = start;
    while q < end
        invariant
            start <= q <= end <= chars@.len(),
            s == chars@.subrange(start as int, end as int),
            digit_vec@ == spec_digits_of(s.take(q - start)),
        decreases end - q,
    {
        proof {
            assert(s.take(q + 1 - start).drop_last() =~= s.take(q - start));
            assert(s.take(q + 1 - start).last() == chars@[q as int]);
        }
        if is_digit_char(chars[q]) {
            digit_vec.push(chars[q]);
        }
        q += 1;
    }
    proof {
        assert(s.take(end - start) =~= s);
    }

    if slashes >= 2 {
        if slashes >= 64 {
            return Err(ParseError::NumberTooLarge);
        }
        let number = pow2_u64(slashes);
        return Ok(parse_tree::Length::Specified { divided: true, number });
    }
    if digit_vec.len() == 0 {
        return Ok(parse_tree::Length::Specified { divided: slashes == 1, number: 1 });
    }
    proof {
        lemma_digits_of_are_digits(s);
        assert(digit_vec@.subrange(0, digit_vec@.len() as int) =~= digit_vec@);
    }
    let number = match parse_u64_digits(&digit_vec, 0, digit_vec.len()) {
        Ok(v) => v,
        Err(e) => {
            return Err(e);
        },
    };
    Ok(parse_tree::Length::Specified { divided: slashes == 1, number })
}

/// A scan that stopped at `r` found the very span `spec_span` names
/// from the start of `s`.
proof fn lemma_span_of_scan(s: Seq<char>, k: CharClass, r: int)
    requires
        0 <= r <= s.len(),
        forall|j: int| 0 <= j < r ==> spec_in_class(s[j], k),
        r < s.len() ==> !spec_in_class(s[r], k),
    ensures
        spec_span(s, 0, k) == r,
{
    lemma_span(s, 0, k);
    let sp = spec_span(s, 0, k);
    if sp < r {
        assert(spec_in_class(s[sp], k));
        assert(false);
    }
    if sp > r {
        assert(spec_in_class(s[r], k));
        assert(false);
    }
}

/// Reads a length specifier, exactly as `spec_parse_note_length`
/// states.
pub fn parse_note_length(note_length: &str) -> (r: Result<parse_tree::Length, ParseError>)
    ensures
        r == spec_parse_note_length(note_length@),
{
    let chars = str_to_chars(note_length);
    proof {
        assert(chars@.subrange(0, chars@.len() as int) =~= note_length@);
    }
    parse_note_length_chars(&chars, 0, chars.len())
}

/// The length specifier at `pos` joined with an already read pitch:
/// a run of slashes, then a run of digits. A bad length is reported
/// before a bad pitch.
pub open spec fn spec_note_tail(
    line: Seq<char>,
    pos: int,
    pitch: Result<abc::PitchOrRest, ParseError>,
) -> Result<(abc::Note, int), ParseError>
    recommends
        0 <= pos <= line.len(),
{
    let slash_end = spec_span(line, pos, CharClass::Slash);
    let len_end = spec_span(line, slash_end, CharClass::DecimalDigit);
    match spec_parse_note_length(line.subrange(pos, len_end)) {
        Err(e) => Err(e),
        Ok(tl) => match pitch {
            Err(e) => Err(e),
            Ok(p) => Ok((abc::Note { pitch: p, length: tl.spec_resolve() }, len_end)),
        },
    }
}

/// The note written at `pos`: a rest character, or accidental marks,
/// a pitch letter and octave marks; a length specifier follows either
/// form. Yields the note and the position one past it.
pub open spec fn spec_note_at(line: Seq<char>, pos: int) -> Result<(abc::Note, int), ParseError>
    recommends
        0 <= pos < line.len(),
{
    if spec_is_rest_char(line[pos]) {
        spec_note_tail(line, pos + 1, Ok(abc::PitchOrRest::Rest))
    } else {
        let acc_end = spec_span(line, pos, CharClass::AccidentalMark);
        if acc_end >= line.len() || !(abc::PitchClass::spec_from_char(line[acc_end]) is Ok) {
            Err(ParseError::UnexpectedCharacter)
        } else {
            let base = abc::PitchClass::spec_from_char(line[acc_end])->Ok_0;
            let oct_end = spec_span(line, acc_end + 1, CharClass::OctaveMark);
            let class = parse_tree::spec_apply_accidentals(
                base,
                spec_accidentals_of(line.subrange(pos, acc_end)),
            );
            let shift = parse_tree::spec_octave_shift(
                spec_octaves_of(line.subrange(acc_end + 1, oct_end)),
            );
            let pitch: Result<abc::PitchOrRest, ParseError> = if -128 <= shift <= 127 {
                Ok(abc::PitchOrRest::Pitch { class, octave: shift as i8 })
            } else {
                Err(ParseError::OctaveOutOfRange)
            };
            spec_note_tail(line, oct_end, pitch)
        }
    }
}

/// Reads the note at `pos`, exactly as `spec_note_at` states; on
/// success the returned position lies past `pos` and within the line.
fn parse_note_at(chars: &Vec<char>, pos: usize) -> (r: Result<(abc::Note, usize), ParseError>)
    requires
        pos < chars@.len(),
    ensures
        ({
            let s = spec_note_at(chars@, pos as int);
            match r {
                Ok(p) => s matches Ok(q) && q.0 == p.0 && q.1 == p.1 as int && pos < p.1
                    <= chars@.len(),
                Err(e) => s == Err::<(abc::Note, int), ParseError>(e),
            }
        }),
{
    let total = chars.len();
    let c0 = chars[pos];
    let pitch_result: Result<abc::PitchOrRest, ParseError>;
    let marks_end: usize;
    if c0 == 'z' || c0 == 'Z' {
        pitch_result = Ok(abc::PitchOrRest::Rest);
        marks_end = pos + 1;
    } else {
        let acc_end = span(chars, pos, CharClass::AccidentalMark);
        if acc_end == chars.len() {
            return Err(ParseError::UnexpectedCharacter);
        }
        let letter = chars[acc_end];
        let base = match abc::PitchClass::try_from_char(letter) {
            Ok(c) => c,
            Err(()) => {
                return Err(ParseError::UnexpectedCharacter);
            },
        };

        let mut accidentals: Vec<parse_tree::Accidental> = Vec::new();
        let mut k: usize = pos;
        while k < acc_end
            invariant
                pos <= k <= acc_end <= chars@.len(),
                accidentals@ == spec_accidentals_of(chars@.subrange(pos as int, k as int)),
            decreases acc_end - k,
        {
            accidentals.push(accidental_of(chars[k]));
            proof {
                assert(spec_accidentals_of(chars@.subrange(pos as int, k + 1))
                    =~= spec_accidentals_of(chars@.subrange(pos as int, k as int)).push(
                    spec_accidental_of(chars@[k as int]),
                ));
            }
            k += 1;
        }

        let oct_end = span(chars, acc_end + 1, CharClass::OctaveMark);
        let mut octaves: Vec<parse_tree::Octave> = Vec::new();
        let mut m: usize = acc_end + 1;
        while m < oct_end
            invariant
                acc_end + 1 <= m <= oct_end <= chars@.len(),
                octaves@ == spec_octaves_of(chars@.subrange(acc_end + 1, m as int)),
            decreases oct_end - m,
        {
            octaves.push(octave_of(chars[m]));
            proof {
                assert(spec_octaves_of(chars@.subrange(acc_end + 1, m + 1)) =~= spec_octaves_of(
                    chars@.subrange(acc_end + 1, m as int),
                ).push(spec_octave_of(chars@[m as int])));
            }
            m += 1;
        }

        let written = parse_tree::Pitch::NonRest { accidentals, pitch_char: letter, octaves };
        pitch_result = written.resolve();
        marks_end = oct_end;
    }

    let slash_end = span(chars, marks_end, CharClass::Slash);
    let len_end = span(chars, slash_end, CharClass::DecimalDigit);
    let length = match parse_note_length_chars(chars, marks_end, len_end) {
        Ok(tl) => tl,
        Err(e) => {
            return Err(e);
        },
    };
    let pitch = match pitch_result {
        Ok(p) => p,
        Err(e) => {
            return Err(e);
        },
    };
    proof {
        lemma_span(chars@, marks_end as int, CharClass::Slash);
        lemma_span(chars@, slash_end as int, CharClass::DecimalDigit);
    }
    Ok((abc::Note { pitch, length: length.resolve() }, len_end))
}

/// The notes of a body line from `pos` on, skip characters ignored.
/// The two guards on `next` only keep the recursion well-founded: a
/// read note always ends past where it began and within the line.
pub open spec fn spec_parse_notes(line: Seq<char>, pos: int) -> Result<Seq<abc::Note>, ParseError>
    decreases line.len() - pos,
    when 0 <= pos <= line.len()
{
    if pos >= line.len() {
        Ok(Seq::empty())
    } else if spec_is_skip(line[pos]) {
        spec_parse_notes(line, pos + 1)
    } else {
        match spec_note_at(line, pos) {
            Err(e) => Err(e),
            Ok(p) => {
                let next = if p.1 <= pos {
                    pos + 1
                } else if p.1 > line.len() {
                    line.len() as int
                } else {
                    p.1
                };
                match spec_parse_notes(line, next) {
                    Err(e) => Err(e),
                    Ok(rest) => Ok(seq![p.0] + rest),
                }
            },
        }
    }
}

/// Reads a whole body line, exactly as `spec_parse_notes` states.
fn parse_notes_line(line: &Vec<char>) -> (r: Result<Vec<abc::Note>, ParseError>)
    ensures
        ({
            let s = spec_parse_notes(line@, 0);
            match r {
                Ok(v) => s matches Ok(ns) && v@ == ns,
                Err(e) => s == Err::<Seq<abc::Note>, ParseError>(e),
            }
        }),
{
    let mut notes: Vec<abc::Note> = Vec::new();
    let mut pos: usize = 0;
    while pos < line.len()
        invariant
            pos <= line@.len(),
            spec_parse_notes(line@, 0) == (match spec_parse_notes(line@, pos as int) {
                Ok(tail) => Ok::<Seq<abc::Note>, ParseError>(notes@ + tail),
                Err(e) => Err::<Seq<abc::Note>, ParseError>(e),
            }),
        decreases line@.len() - pos,
    {
        if is_skip_char(line[pos]) {
            pos += 1;
        } else {
            let (note, end) = match parse_note_at(line, pos) {
                Ok(p) => p,
                Err(e) => {
                    return Err(e);
                },
            };
            proof {
                match spec_parse_notes(line@, end as int) {
                    Ok(rest) => {
                        assert(notes@ + (seq![note] + rest) =~= notes@.push(note) + rest);
                    },
                    Err(_) => {},
                }
            }
            notes.push(note);
            pos = end;
        }
    }
    proof {
        assert(notes@ + Seq::<abc::Note>::empty() =~= notes@);
    }
    Ok(notes)
}

/// A parse's contribution: the version stated, the header key/value
/// pairs in input order, and the notes in playing order.
pub type Parsed = (Option<Version>, Seq<(char, Seq<char>)>, Seq<abc::Note>);

/// A line's contribution: at most a version, at most one header pair,
/// and its notes.
pub type LineParsed = (Option<Version>, Option<(char, Seq<char>)>, Seq<abc::Note>);

/// Whether a line states the file version: only the first line can,
/// by opening with the version prefix.
pub open spec fn spec_is_version_line(line: Seq<char>, first: bool) -> bool {
    &&& first
    &&& line.len() >= 5
    &&& line[0] == '%'
    &&& line[1] == 'a'
    &&& line[2] == 'b'
    &&& line[3] == 'c'
    &&& line[4] == '-'
}

/// One line's contribution. An empty line gives nothing. A `%` line is
/// the version when eligible — an unreadable version is dropped, not
/// fatal — and otherwise a comment. A line with `:` in second place is
/// a header pair. Every other line is a body line of notes.
pub open spec fn spec_parse_line(line: Seq<char>, first: bool) -> Result<LineParsed, ParseError> {
    if line.len() == 0 {
        Ok((None, None, Seq::empty()))
    } else if line[0] == '%' {
        if spec_is_version_line(line, first) {
            match spec_parse_version(line.subrange(5, line.len() as int)) {
                Ok(v) => Ok((Some(v), None, Seq::empty())),
                Err(_) => Ok((None, None, Seq::empty())),
            }
        } else {
            Ok((None, None, Seq::empty()))
        }
    } else if line.len() >= 2 && line[1] == ':' {
        Ok((None, Some((line[0], line.subrange(2, line.len() as int))), Seq::empty()))
    } else {
        match spec_parse_notes(line, 0) {
            Err(e) => Err(e),
            Ok(ns) => Ok((None, None, ns)),
        }
    }
}

/// All lines from `pos` on: each line reaches to the next newline,
/// shedding one trailing carriage return, and the contributions are
/// joined in order. The guards on `nl2` and `next` only keep the
/// recursion well-founded: a newline search never moves backwards nor
/// past the end.
pub open spec fn spec_parse_lines(s: Seq<char>, pos: int, first: bool) -> Result<
    Parsed,
    ParseError,
>
    decreases s.len() - pos,
    when 0 <= pos <= s.len()
{
    if pos >= s.len() {
        Ok((None, Seq::empty(), Seq::empty()))
    } else {
        let nl = spec_find_char(s, '\n', pos);
        let nl2 = if nl < pos {
            pos
        } else if nl > s.len() {
            s.len() as int
        } else {
            nl
        };
        let line_end = if nl2 > pos && s[nl2 - 1] == '\r' {
            nl2 - 1
        } else {
            nl2
        };
        let line = s.subrange(pos, line_end);
        let next = if nl2 >= s.len() {
            s.len() as int
        } else {
            nl2 + 1
        };
        match spec_parse_line(line, first) {
            Err(e) => Err(e),
            Ok(c) => match spec_parse_lines(s, next, false) {
                Err(e) => Err(e),
                Ok(rest) => Ok(
                    (
                        if c.0 is Some {
                            c.0
                        } else {
                            rest.0
                        },
                        (match c.1 {
                            Some(p) => seq![p],
                            None => Seq::empty(),
                        }) + rest.1,
                        c.2 + rest.2,
                    ),
                ),
            },
        }
    }
}

/// The whole file's parse: all lines from the top, with only the first
/// line eligible to state the version.
pub open spec fn spec_parse_abc(s: Seq<char>) -> Result<Parsed, ParseError> {
    spec_parse_lines(s, 0, true)
}

/// The characters `chars[start .. end)`, as their own vector.
fn copy_range(chars: &Vec<char>, start: usize, end: usize) -> (v: Vec<char>)
    requires
        start <= end <= chars@.len(),
    ensures
        v@ == chars@.subrange(start as int, end as int),
{
    let mut v: Vec<char> = Vec::new();
    let mut i: usize = start;
    while i < end
        invariant
            start <= i <= end <= chars@.len(),
            v@ == chars@.subrange(start as int, i as int),
        decreases end - i,
    {
        v.push(chars[i]);
        proof {
            assert(chars@.subrange(start as int, i + 1) =~= chars@.subrange(
                start as int,
                i as int,
            ).push(chars@[i as int]));
        }
        i += 1;
    }
    v
}

/// Reads a whole file of the notation, exactly as `spec_parse_abc`
/// states: its version line, its header lines grouped by key, and its
/// notes in playing order. The first faulty line is reported and
/// nothing is returned for it.
#[verifier::rlimit(100)]
pub fn parse_abc(file_str: &str) -> (r: Result<abc::ABC, ParseError>)
    ensures
        ({
            let s = spec_parse_abc(file_str@);
            match r {
                Ok(a) => s matches Ok(t) && a.version == t.0 && a.headers.spec_groups()
                    == abc::spec_group_pairs(t.1) && a.notes@ == t.2,
                Err(e) => s == Err::<Parsed, ParseError>(e),
            }
        }),
{
    let chars = str_to_chars(file_str);
    let total = chars.len();
    let mut version: Option<Version> = None;
    let mut headers = abc::Headers::new();
    let mut notes: Vec<abc::Note> = Vec::new();
    let ghost mut pairs: Seq<(char, Seq<char>)> = Seq::empty();
    let mut pos: usize = 0;
    let mut first: bool = true;

    while pos < total
        invariant
            total == chars@.len(),
            chars@ == file_str@,
            pos <= total,
            first ==> version is None,
            headers.spec_groups() == abc::spec_group_pairs(pairs),
            spec_parse_abc(file_str@) == (match spec_parse_lines(chars@, pos as int, first) {
                Err(e) => Err::<Parsed, ParseError>(e),
                Ok(rest) => Ok::<Parsed, ParseError>(
                    (
                        if version is Some {
                            version
                        } else {
                            rest.0
                        },
                        pairs + rest.1,
                        notes@ + rest.2,
                    ),
                ),
            }),
        decreases total - pos,
    {
        let ghost version0 = version;
        let ghost pairs0 = pairs;
        let ghost notes0 = notes@;

        let nl = find_char(&chars, '\n', pos);
        proof {
            lemma_find_char(chars@, '\n', pos as int);
        }
        let line_end: usize = if nl > pos && chars[nl - 1] == '\r' {
            nl - 1
        } else {
            nl
        };
        let line = copy_range(&chars, pos, line_end);
        let next: usize = if nl >= total {
            total
        } else {
            nl + 1
        };
        let ghost rest_after = spec_parse_lines(chars@, next as int, false);
        let ghost cur = spec_parse_line(line@, first);

        if line.len() == 0 {
            proof {
                match rest_after {
                    Ok(rest) => {
                        assert(pairs0 + (Seq::<(char, Seq<char>)>::empty() + rest.1) =~= pairs0
                            + rest.1);
                        assert(notes0 + (Seq::<abc::Note>::empty() + rest.2) =~= notes0 + rest.2);
                    },
                    Err(_) => {},
                }
            }
        } else if line[0] == '%' {
            if first && line.len() >= 5 && line[1] == 'a' && line[2] == 'b' && line[3] == 'c'
                && line[4] == '-' {
                match parse_version_chars(&line, 5, line.len()) {
                    Ok(v) => {
                        version = Some(v);
                    },
                    Err(_) => {},
                }
            }
            proof {
                match rest_after {
                    Ok(rest) => {
                        assert(pairs0 + (Seq::<(char, Seq<char>)>::empty() + rest.1) =~= pairs0
                            + rest.1);
                        assert(notes0 + (Seq::<abc::Note>::empty() + rest.2) =~= notes0 + rest.2);
                    },
                    Err(_) => {},
                }
            }
        } else if line.len() >= 2 && line[1] == ':' {
            let key = line[0];
            let value_chars = copy_range(&line, 2, line.len());
            let value = crate::text::chars_into_string(&value_chars);
            headers.push_value(key, value);
            proof {
                pairs = pairs0.push((key, value_chars@));
                assert(pairs.drop_last() =~= pairs0);
                match rest_after {
                    Ok(rest) => {
                        assert(pairs0 + (seq![(key, value_chars@)] + rest.1) =~= pairs + rest.1);
                        assert(notes0 + (Seq::<abc::Note>::empty() + rest.2) =~= notes0 + rest.2);
                    },
                    Err(_) => {},
                }
            }
        } else {
            let mut line_notes = match parse_notes_line(&line) {
                Ok(v) => v,
                Err(e) => {
                    return Err(e);
                },
            };
            notes.append(&mut line_notes);
            proof {
                match rest_after {
                    Ok(rest) => {
                        assert(notes0 + (cur->Ok_0.2 + rest.2) =~= notes@ + rest.2);
                        assert(pairs0 + (Seq::<(char, Seq<char>)>::empty() + rest.1) =~= pairs0
                            + rest.1);
                    },
                    Err(_) => {},
                }
            }
        }

        pos = next;
        first = false;
    }
    proof {
        assert(pairs + Seq::<(char, Seq<char>)>::empty() =~= pairs);
        assert(notes@ + Seq::<abc::Note>::empty() =~= notes@);
    }
    Ok(abc::ABC { version, headers, notes })
}

impl ABCParser {
    /// Reads a whole file of the notation, exactly as `spec_parse_abc`
    /// states.
    pub fn parse(input: &str) -> (r: Result<abc::ABC, ParseError>)
        ensures
            ({
                let s = spec_parse_abc(input@);
                match r {
                    Ok(a) => s matches Ok(t) && a.version == t.0 && a.headers.spec_groups()
                        == abc::spec_group_pairs(t.1) && a.notes@ == t.2,
                    Err(e) => s == Err::<Parsed, ParseError>(e),
                }
            }),
    {
        parse_abc(input)
    }
}

/// A header line: its one-character key, and its value unchanged.
/// A key of any other width is `InvalidInformation`.
pub fn parse_information<'a>(key: &'a str, val: &'a str) -> (r: Result<(char, &'a str), ParseError>)
    ensures
        key@.len() == 1 ==> (r matches Ok(p) && p.0 == key@[0] && p.1@ == val@),
        key@.len() != 1 ==> (r matches Err(e) && e == ParseError::InvalidInformation),
{
    if key.unicode_len() == 1 {
        Ok((key.get_char(0), val))
    } else {
        Err(ParseError::InvalidInformation)
    }
}

} // verus!
