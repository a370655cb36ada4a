//! The command line: the one option it knows sets the width of the image.
use vstd::prelude::*;
use vstd::string::*;

verus! {

/// Why a command line was refused.
#[derive(Clone, Copy, Debug, PartialEq, Eq, Structural)]
pub enum ArgError {
    /// The width option stands last, with no value behind it.
    MissingValue,
    /// The value behind the width option is no number that fits 32 bits.
    InvalidValue,
}

/// Whether `arg` is the width option: `--width` or `-w`.
pub open spec fn spec_is_width_flag(arg: Seq<char>) -> bool {
    arg == "--width"@ || arg == "-w"@
}

/// The value of a decimal digit.
pub open spec fn spec_digit(c: char) -> Option<nat> {
    if '0' <= c && c <= '9' {
        Some((c as nat - '0' as nat) as nat)
    } else {
        None
    }
}

/// The number that a run of decimal digits spells, the empty run spelling
/// zero; `None` where a character is no digit.
pub open spec fn spec_digits_value(digits: Seq<char>) -> Option<nat>
    decreases digits.len(),
{
    if digits.len() == 0 {
        Some(0)
    } else {
        match (spec_digits_value(digits.drop_last()), spec_digit(digits.last())) {
            (Some(front), Some(d)) => Some(front * 10 + d),
            _ => None,
        }
    }
}

/// The text without one leading plus sign, if it has one.
pub open spec fn spec_unsigned_part(text: Seq<char>) -> Seq<char> {
    if text.len() > 0 && text[0] == '+' {
        text.drop_first()
    } else {
        text
    }
}

/// The number that `text` spells as an unsigned 32-bit value: an optional
/// plus sign, then at least one decimal digit and nothing else, the value
/// at most `u32::MAX`.
pub open spec fn spec_parse_u32(text: Seq<char>) -> Option<u32> {
    let digits = spec_unsigned_part(text);
    if digits.len() == 0 {
        None
    } else {
        match spec_digits_value(digits) {
            Some(value) => if value <= u32::MAX {
                Some(value as u32)
            } else {
                None
            },
            None => None,
        }
    }
}

/// The width that the arguments from `from` on ask for, given that those
/// before ask for `current`. Each width option takes the argument behind it
/// as its value; the last option wins.
pub open spec fn spec_scan_width(args: Seq<String>, from: int, current: Option<u32>) -> Result<
    Option<u32>,
    ArgError,
>
    decreases args.len() - from,
{
    if from < 0 || from >= args.len() {
        Ok(current)
    } else if spec_is_width_flag(args[from]@) {
        if from + 1 >= args.len() {
            Err(ArgError::MissingValue)
        } else {
            match spec_parse_u32(args[from + 1]@) {
                Some(w) => spec_scan_width(args, from + 2, Some(w)),
                None => Err(ArgError::InvalidValue),
            }
        }
    } else {
        spec_scan_width(args, from + 1, current)
    }
}

/// A run of digits spells at least what any of its beginnings spells, and
/// holds no other character if the whole is a number.
proof fn lemma_digits_prefix(digits: Seq<char>, n: int)
    requires
        0 <= n <= digits.len(),
    ensures
        spec_digits_value(digits.take(n)) is None ==> spec_digits_value(digits) is None,
        spec_digits_value(digits) matches Some(whole) ==> spec_digits_value(digits.take(n))
            matches Some(part) && part <= whole,
    decreases digits.len() - n,
{
    if n == digits.len() {
        assert(digits.take(n) =~= digits);
    } else {
        lemma_digits_prefix(digits, n + 1);
        assert(digits.take(n + 1).drop_last() =~= digits.take(n));
    }
}

/// Whether two texts are the same.
fn same_text(left: &str, right: &str) -> (b: bool)
    ensures
        b == (left@ == right@),
{
    let n = left.unicode_len();
    if n != right.unicode_len() {
        return false;
    }
    let mut i: usize = 0;
    while i < n
        invariant
            i <= n,
            n == left@.len(),
            n == right@.len(),
            forall|k: int| 0 <= k < i ==> left@[k] == right@[k],
        decreases n - i,
    {
        if left.get_char(i) != right.get_char(i) {
            return false;
        }
        i = i + 1;
    }
    assert(left@ =~= right@);
    true
}

/// Whether `arg` is the width option.
pub fn is_width_flag(arg: &str) -> (b: bool)
    ensures
        b == spec_is_width_flag(arg@),
{
    same_text(arg, "--width") || same_text(arg, "-w")
}

/// Reads `text` as an unsigned 32-bit number in decimal.
pub fn parse_u32(text: &str) -> (r: Option<u32>)
    ensures
        r == spec_parse_u32(text@),
{
    let n = text.unicode_len();
    let start: usize = if n > 0 && text.get_char(0) == '+' { 1 } else { 0 };
    if start == n {
        return None;
    }
    let ghost digits = spec_unsigned_part(text@);
    let mut value: u64 = 0;
    let mut i: usize = start;
    while i < n
        invariant
            start <= i <= n,
            n == text@.len(),
            digits == spec_unsigned_part(text@),
            digits.len() == n - start,
            forall|k: int| 0 <= k < digits.len() ==> digits[k] == text@[k + start],
            spec_digits_value(digits.take(i - start)) == Some(value as nat),
            value <= u32::MAX,
        decreases n - i,
    {
        let c = text.get_char(i);
        proof {
            lemma_digits_prefix(digits, i - start + 1);
            assert(digits.take(i - start + 1).drop_last() =~= digits.take(i - start));
            assert(digits.take(i - start + 1).last() == c);
        }
        if c < '0' || c > '9' {
            return None;
        }
        let d: u64 = (c as u32 - '0' as u32) as u64;
        value = value * 10 + d;
        if value > u32::MAX as u64 {
            return None;
        }
        i = i + 1;
    }
    proof {
        assert(digits.take(n - start) =~= digits);
    }
    Some(value as u32)
}

/// The image width that a command line asks for: `Ok(None)` where it holds
/// no width option, the value of the last one where it holds some, and an
/// error as soon as one of them lacks its value or has one that is no
/// number.
pub fn width_from_args(args: &Vec<String>) -> (r: Result<Option<u32>, ArgError>)
    ensures
        r == spec_scan_width(args@, 0, None),
{
    let mut current: Option<u32> = None;
    let mut i: usize = 0;
    while i < args.len()
        invariant
            i <= args.len(),
            spec_scan_width(args@, 0, None) == spec_scan_width(args@, i as int, current),
        decreases args.len() - i,
    {
        if is_width_flag(args[i].as_str()) {
            if i + 1 >= args.len() {
                return Err(ArgError::MissingValue);
            }
            match parse_u32(args[i + 1].as_str()) {
                Some(w) => {
                    current = Some(w);
                    i = i + 2;
                },
                None => {
                    return Err(ArgError::InvalidValue);
                },
            }
        } else {
            i = i + 1;
        }
    }
    Ok(current)
}

} // verus!
