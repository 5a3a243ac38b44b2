//! Verified text building: decimal renderings of numbers, padding, and
//! character-buffer helpers. Generated text is assembled in a `Vec` of
//! characters whose view is stated exactly, and turned into a `String`
//! once at the end.

use vstd::prelude::*;

verus! {

/// The character of one decimal digit.
pub open spec fn spec_digit_char(d: int) -> char {
    if d == 0 {
        '0'
    } else if d == 1 {
        '1'
    } else if d == 2 {
        '2'
    } else if d == 3 {
        '3'
    } else if d == 4 {
        '4'
    } else if d == 5 {
        '5'
    } else if d == 6 {
        '6'
    } else if d == 7 {
        '7'
    } else if d == 8 {
        '8'
    } else {
        '9'
    }
}

/// The decimal digits of a non-negative number, most significant
/// first; zero is the single digit `0`.
pub open spec fn spec_dec_nat(n: int) -> Seq<char>
    decreases n,
{
    if n < 10 {
        seq![spec_digit_char(n)]
    } else {
        spec_dec_nat(n / 10) + seq![spec_digit_char(n % 10)]
    }
}

/// The decimal rendering of an integer: a minus sign before the digits
/// of its magnitude when it is negative.
pub open spec fn spec_dec_int(v: int) -> Seq<char> {
    if v < 0 {
        seq!['-'] + spec_dec_nat(-v)
    } else {
        spec_dec_nat(v)
    }
}

/// `count` spaces.
pub open spec fn spec_spaces(count: int) -> Seq<char>
    decreases count,
{
    if count <= 0 {
        Seq::empty()
    } else {
        spec_spaces(count - 1).push(' ')
    }
}

/// `s` left-padded with spaces to width `w`; a string already that
/// wide is unchanged.
pub open spec fn spec_pad_left(s: Seq<char>, w: int) -> Seq<char> {
    if s.len() >= w {
        s
    } else {
        spec_spaces(w - s.len()) + s
    }
}

/// The character of one decimal digit.
fn digit_char(d: u64) -> (c: char)
    requires
        d < 10,
    ensures
        c == spec_digit_char(d as int),
{
    match d {
        0 => '0',
        1 => '1',
        2 => '2',
        3 => '3',
        4 => '4',
        5 => '5',
        6 => '6',
        7 => '7',
        8 => '8',
        _ => '9',
    }
}

/// Appends the decimal digits of `n`.
pub fn push_dec_u64(out: &mut Vec<char>, n: u64)
    ensures
        final(out)@ == old(out)@ + spec_dec_nat(n as int),
    decreases n,
{
    if n < 10 {
        out.push(digit_char(n));
        proof {
            assert(old(out)@ + spec_dec_nat(n as int) =~= old(out)@.push(
                spec_digit_char(n as int),
            ));
        }
    } else {
        push_dec_u64(out, n / 10);
        out.push(digit_char(n % 10));
        proof {
            assert(old(out)@ + spec_dec_nat(n as int) =~= (old(out)@ + spec_dec_nat(
                n as int / 10,
            )).push(spec_digit_char(n as int % 10)));
        }
    }
}

/// Appends the decimal rendering of `v`.
pub fn push_dec_i64(out: &mut Vec<char>, v: i64)
    ensures
        final(out)@ == old(out)@ + spec_dec_int(v as int),
{
    if v < 0 {
        out.push('-');
        let magnitude: u64 = (-(v as i128)) as u64;
        push_dec_u64(out, magnitude);
        proof {
            assert(old(out)@ + spec_dec_int(v as int) =~= old(out)@.push('-') + spec_dec_nat(
                -(v as int),
            ));
        }
    } else {
        push_dec_u64(out, v as u64);
    }
}

/// Appends the characters of `s`.
pub fn push_str_chars(out: &mut Vec<char>, s: &str)
    ensures
        final(out)@ == old(out)@ + s@,
{
    let n = s.unicode_len();
    let mut i: usize = 0;
    while i < n
        invariant
            i <= n,
            n == s@.len(),
            out@ == old(out)@ + s@.take(i as int),
        decreases n - i,
    {
        out.push(s.get_char(i));
        proof {
            assert(old(out)@ + s@.take(i + 1) =~= (old(out)@ + s@.take(i as int)).push(
                s@[i as int],
            ));
        }
        i += 1;
    }
    proof {
        assert(old(out)@ + s@.take(n as int) =~= old(out)@ + s@);
    }
}

/// Appends `count` spaces.
pub fn push_spaces(out: &mut Vec<char>, count: usize)
    ensures
        final(out)@ == old(out)@ + spec_spaces(count as int),
{
    let mut i: usize = 0;
    while i < count
        invariant
            i <= count,
            out@ == old(out)@ + spec_spaces(i as int),
        decreases count - i,
    {
        out.push(' ');
        proof {
            assert(old(out)@ + spec_spaces(i + 1) =~= (old(out)@ + spec_spaces(i as int)).push(
                ' ',
            ));
        }
        i += 1;
    }
}

/// How many characters the decimal rendering of `v` takes.
fn dec_i64_width(v: i64) -> (w: usize)
    ensures
        w == spec_dec_int(v as int).len(),
{
    let mut out: Vec<char> = Vec::new();
    push_dec_i64(&mut out, v);
    proof {
        assert(Seq::<char>::empty() + spec_dec_int(v as int) =~= spec_dec_int(v as int));
    }
    out.len()
}

/// Appends the decimal rendering of `v`, left-padded with spaces to
/// width `w`.
pub fn push_dec_i64_padded(out: &mut Vec<char>, v: i64, w: usize)
    ensures
        final(out)@ == old(out)@ + spec_pad_left(spec_dec_int(v as int), w as int),
{
    let width = dec_i64_width(v);
    if width < w {
        push_spaces(out, w - width);
    }
    let ghost mid = out@;
    push_dec_i64(out, v);
    proof {
        if width < w {
            assert(old(out)@ + spec_pad_left(spec_dec_int(v as int), w as int) =~= mid
                + spec_dec_int(v as int));
        }
    }
}

/// Relies on `String`'s `FromIterator` over `char`: collecting the
/// characters of `chars` yields the string holding exactly those
/// characters.
#[verifier::external_body]
pub fn chars_into_string(chars: &Vec<char>) -> (s: String)
    ensures
        s@ == chars@,
{
    chars.iter().collect()
}

} // verus!
