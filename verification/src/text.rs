//! Text building: decimal numbers, padding and joining.

use vstd::prelude::*;
use vstd::string::StringExecFns;

verus! {

broadcast use vstd::string::group_string_axioms;

/// The character of a decimal digit.
pub open spec fn digit(d: int) -> char
    recommends
        0 <= d < 10,
{
    (0x30 + d) as char
}

/// The decimal digits of a natural number, most significant first, without
/// leading zeros.
pub open spec fn natural(n: nat) -> Seq<char>
    decreases n,
{
    if n < 10 {
        seq![digit(n as int)]
    } else {
        natural(n / 10).push(digit((n % 10) as int))
    }
}

/// The decimal form of an integer: a minus sign for a negative number, then
/// the digits of its magnitude.
pub open spec fn decimal(n: int) -> Seq<char> {
    if n < 0 {
        seq!['-'] + natural((-n) as nat)
    } else {
        natural(n as nat)
    }
}

/// `count` spaces.
pub open spec fn spaces(count: nat) -> Seq<char> {
    Seq::new(count, |i: int| ' ')
}

/// The text with spaces in front of it, up to `width` characters in all; a
/// text that is already that long is left as it is.
pub open spec fn right_aligned(text: Seq<char>, width: nat) -> Seq<char> {
    if text.len() >= width {
        text
    } else {
        spaces((width - text.len()) as nat) + text
    }
}

/// The text with spaces behind it, up to `width` characters in all; a text
/// that is already that long is left as it is.
pub open spec fn left_aligned(text: Seq<char>, width: nat) -> Seq<char> {
    if text.len() >= width {
        text
    } else {
        text + spaces((width - text.len()) as nat)
    }
}

/// The texts one after the other, with `separator` between neighbours.
pub open spec fn joined(parts: Seq<Seq<char>>, separator: Seq<char>) -> Seq<char>
    decreases parts.len(),
{
    if parts.len() == 0 {
        Seq::empty()
    } else if parts.len() == 1 {
        parts[0]
    } else {
        joined(parts.drop_last(), separator) + separator + parts.last()
    }
}

/// Whether `text` ends with `suffix`.
pub open spec fn ends_with(text: Seq<char>, suffix: Seq<char>) -> bool {
    text.len() >= suffix.len() && text.skip(text.len() - suffix.len()) == suffix
}

/// `text` without `suffix` at its end, however often it stands there. An
/// empty suffix takes nothing away.
pub open spec fn trimmed(text: Seq<char>, suffix: Seq<char>) -> Seq<char>
    decreases text.len(),
{
    if suffix.len() > 0 && ends_with(text, suffix) {
        trimmed(text.take(text.len() - suffix.len()), suffix)
    } else {
        text
    }
}

fn digit_text(d: u64) -> (text: &'static str)
    requires
        d < 10,
    ensures
        text@ == seq![digit(d as int)],
{
    proof {
        reveal_strlit("0");
        reveal_strlit("1");
        reveal_strlit("2");
        reveal_strlit("3");
        reveal_strlit("4");
        reveal_strlit("5");
        reveal_strlit("6");
        reveal_strlit("7");
        reveal_strlit("8");
        reveal_strlit("9");
    }
    let text = if d == 0 {
        "0"
    } else if d == 1 {
        "1"
    } else if d == 2 {
        "2"
    } else if d == 3 {
        "3"
    } else if d == 4 {
        "4"
    } else if d == 5 {
        "5"
    } else if d == 6 {
        "6"
    } else if d == 7 {
        "7"
    } else if d == 8 {
        "8"
    } else {
        "9"
    };
    text
}

/// The decimal form of `n`.
pub fn decimal_u64(n: u64) -> (text: String)
    ensures
        text@ == decimal(n as int),
{
    let mut digits: Vec<u64> = Vec::new();
    let mut rest: u64 = n;
    while rest >= 10
        invariant
            forall|i: int| 0 <= i < digits.len() ==> digits[i] < 10,
            natural(n as nat) == natural(rest as nat) + Seq::new(
                digits.len() as nat,
                |i: int| digit(digits[digits.len() - 1 - i] as int),
            ),
        decreases rest,
    {
        let ghost before = digits@;
        digits.push(rest % 10);
        proof {
            let tail_before = Seq::new(
                before.len() as nat,
                |i: int| digit(before[before.len() - 1 - i] as int),
            );
            let tail = Seq::new(
                digits.len() as nat,
                |i: int| digit(digits[digits.len() - 1 - i] as int),
            );
        }
        rest = rest / 10;
    }
    let mut text = String::from_str(digit_text(rest));
    let mut left: usize = digits.len();
    while left > 0
        invariant
            left <= digits.len(),
            forall|i: int| 0 <= i < digits.len() ==> digits[i] < 10,
            text@ == natural(rest as nat) + Seq::new(
                (digits.len() - left) as nat,
                |i: int| digit(digits[digits.len() - 1 - i] as int),
            ),
            rest < 10,
        decreases left,
    {
        left -= 1;
        text.append(digit_text(digits[left]));
    }
    text
}

/// The decimal form of `n`.
pub fn decimal_usize(n: usize) -> (text: String)
    ensures
        text@ == decimal(n as int),
{
    decimal_u64(n as u64)
}

/// The decimal form of `n`.
pub fn decimal_i64(n: i64) -> (text: String)
    ensures
        text@ == decimal(n as int),
{
    if n >= 0 {
        decimal_u64(n as u64)
    } else {
        let magnitude: u64 = (-(n + 1)) as u64 + 1;
        let digits = decimal_u64(magnitude);
        proof {
            reveal_strlit("-");
        }
        let text = String::from_str("-").concat(digits.as_str());
        text
    }
}

/// `count` spaces.
pub fn blank(count: usize) -> (text: String)
    ensures
        text@ == spaces(count as nat),
{
    let mut text = String::new();
    let mut done: usize = 0;
    proof {
        reveal_strlit(" ");
    }
    while done < count
        invariant
            done <= count,
            text@ == spaces(done as nat),
            " "@ == seq![' '],
        decreases count - done,
    {
        text.append(" ");
        done += 1;
    }
    text
}

/// The number of characters in `text`.
pub fn width(text: &str) -> (count: usize)
    ensures
        count == text@.len(),
{
    text.unicode_len()
}

/// `text` with spaces in front of it, up to `width` characters in all.
pub fn align_right(text: &str, width: usize) -> (out: String)
    ensures
        out@ == right_aligned(text@, width as nat),
{
    let have = self::width(text);
    if have >= width {
        String::from_str(text)
    } else {
        let out = blank(width - have).concat(text);
        out
    }
}

/// `text` with spaces behind it, up to `width` characters in all.
pub fn align_left(text: &str, width: usize) -> (out: String)
    ensures
        out@ == left_aligned(text@, width as nat),
{
    let have = self::width(text);
    if have >= width {
        String::from_str(text)
    } else {
        let pad = blank(width - have);
        let out = String::from_str(text).concat(pad.as_str());
        out
    }
}

/// `text` without `suffix` at its end, however often it stands there.
pub fn trim_end(text: &str, suffix: &str) -> (out: String)
    ensures
        out@ == trimmed(text@, suffix@),
{
    let n = self::width(suffix);
    if n == 0 {
        return String::from_str(text);
    }
    let wanted = String::from_str(suffix);
    let mut len = self::width(text);
    assert(text@.take(len as int) =~= text@);
    loop
        invariant
            n == suffix@.len(),
            n > 0,
            wanted@ == suffix@,
            len <= text@.len(),
            trimmed(text@, suffix@) == trimmed(text@.take(len as int), suffix@),
        ensures
            len <= text@.len(),
            trimmed(text@, suffix@) == text@.take(len as int),
        decreases len,
    {
        if len < n {
            break ;
        }
        let tail = String::from_str(text.substring_char(len - n, len));
        assert(text@.subrange(len - n, len as int) =~= text@.take(len as int).skip(len - n));
        if tail != wanted {
            break ;
        }
        assert(text@.take(len as int).take(len - n) =~= text@.take(len - n));
        len -= n;
    }
    let out = String::from_str(text.substring_char(0, len));
    out
}

/// The texts one after the other, with `separator` between neighbours.
pub fn join(parts: &Vec<String>, separator: &str) -> (out: String)
    ensures
        out@ == joined(parts.deep_view(), separator@),
{
    let mut out = String::new();
    let mut i: usize = 0;
    while i < parts.len()
        invariant
            i <= parts.len(),
            out@ == joined(parts.deep_view().take(i as int), separator@),
        decreases parts.len() - i,
    {
        let ghost before = parts.deep_view().take(i as int);
        let ghost after = parts.deep_view().take(i + 1);
        proof {
            assert(after.drop_last() =~= before);
        }
        if i > 0 {
            out.append(separator);
        }
        out.append(parts[i].as_str());
        i += 1;
    }
    assert(parts.deep_view().take(parts.len() as int) =~= parts.deep_view());
    out
}

} // verus!
