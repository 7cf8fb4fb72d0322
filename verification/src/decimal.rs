//! Fixed-width decimal text: the digits of identity numbers and what they stand for.

use vstd::prelude::*;

verus! {

/// `c` is one of the ten ASCII digits.
pub open spec fn is_digit(c: char) -> bool {
    '0' <= c <= '9'
}

/// Every character of `s` is an ASCII digit.
pub open spec fn all_digits(s: Seq<char>) -> bool {
    forall|i: int| 0 <= i < s.len() ==> is_digit(#[trigger] s[i])
}

/// The number that the digit `c` stands for.
pub open spec fn digit_value(c: char) -> nat {
    (c as int - '0' as int) as nat
}

/// The digit that stands for `d`, for `d` below ten.
pub open spec fn digit_char(d: nat) -> char {
    (d + '0' as nat) as char
}

/// The number that the digit string `s` reads as in base ten.
pub open spec fn decimal_value(s: Seq<char>) -> nat
    decreases s.len(),
{
    if s.len() == 0 {
        0
    } else {
        decimal_value(s.drop_last()) * 10 + digit_value(s.last())
    }
}

/// The last `width` decimal digits of `n`, padded with zeros on the left.
pub open spec fn decimal_text(n: nat, width: nat) -> Seq<char>
    decreases width,
{
    if width == 0 {
        Seq::empty()
    } else {
        decimal_text(n / 10, (width - 1) as nat).push(digit_char(n % 10))
    }
}

/// `n` in decimal digits, without padding.
pub open spec fn natural_text(n: nat) -> Seq<char>
    decreases n,
{
    if n < 10 {
        seq![digit_char(n)]
    } else {
        natural_text(n / 10).push(digit_char(n % 10))
    }
}

/// Ten to the power `width`.
pub open spec fn pow10(width: nat) -> nat
    decreases width,
{
    if width == 0 {
        1
    } else {
        10 * pow10((width - 1) as nat)
    }
}

/// Decimal text has the width asked for and holds digits only.
pub proof fn lemma_decimal_text_shape(n: nat, width: nat)
    ensures
        decimal_text(n, width).len() == width,
        all_digits(decimal_text(n, width)),
    decreases width,
{
    if width > 0 {
        lemma_decimal_text_shape(n / 10, (width - 1) as nat);
    }
}

/// A digit string reads as a number below ten to the power of its length.
pub proof fn lemma_decimal_value_bound(s: Seq<char>)
    requires
        all_digits(s),
    ensures
        decimal_value(s) < pow10(s.len()),
    decreases s.len(),
{
    if s.len() > 0 {
        lemma_decimal_value_bound(s.drop_last());
        assert(is_digit(s.last()));
    }
}

/// Reading back the text of a number that fits the width gives the number.
pub proof fn lemma_value_of_text(n: nat, width: nat)
    requires
        n < pow10(width),
    ensures
        decimal_value(decimal_text(n, width)) == n,
    decreases width,
{
    if width > 0 {
        let t = decimal_text(n, width);
        lemma_value_of_text(n / 10, (width - 1) as nat);
        assert(t.drop_last() =~= decimal_text(n / 10, (width - 1) as nat));
        assert(t.last() == digit_char(n % 10));
    }
}

/// Writing the value of a digit string at the string's own width gives the string.
pub proof fn lemma_text_of_value(s: Seq<char>)
    requires
        all_digits(s),
    ensures
        decimal_text(decimal_value(s), s.len()) == s,
    decreases s.len(),
{
    if s.len() > 0 {
        lemma_text_of_value(s.drop_last());
        assert(is_digit(s.last()));
        let v = decimal_value(s.drop_last());
        let d = digit_value(s.last());
        assert((v * 10 + d) / 10 == v && (v * 10 + d) % 10 == d);
        assert(digit_char(d) == s.last());
        assert(decimal_text(decimal_value(s), s.len()) =~= s);
    }
}

/// The value of a longer digit string is no less than that of its beginning.
pub proof fn lemma_value_of_prefix(s: Seq<char>, k: int)
    requires
        0 <= k <= s.len(),
    ensures
        decimal_value(s.take(k)) <= decimal_value(s),
    decreases s.len(),
{
    if k < s.len() {
        lemma_value_of_prefix(s.drop_last(), k);
        assert(s.drop_last().take(k) =~= s.take(k));
    } else {
        assert(s.take(k) =~= s);
    }
}

/// Digits up to `k`, and a digit at `k`, are digits up to `k + 1`.
pub proof fn lemma_digits_extend(s: Seq<char>, k: int)
    requires
        0 <= k < s.len(),
        all_digits(s.take(k)),
        is_digit(s[k]),
    ensures
        all_digits(s.take(k + 1)),
{
    assert forall|i: int| 0 <= i < k + 1 implies is_digit(#[trigger] s.take(k + 1)[i]) by {
        if i < k {
            assert(s.take(k)[i] == s[i]);
        }
    }
}

/// What a text reads as: the number that its digits stand for, where it is a
/// non-empty string of digits whose value fits 32 bits, and nothing otherwise.
pub open spec fn parsed(s: Seq<char>) -> Option<u32> {
    if s.len() > 0 && all_digits(s) && decimal_value(s) <= u32::MAX {
        Some(decimal_value(s) as u32)
    } else {
        None
    }
}

/// Whether `c` is an ASCII digit.
pub fn char_is_digit(c: char) -> (b: bool)
    ensures
        b == is_digit(c),
{
    '0' <= c && c <= '9'
}

/// Whether every character of `s` is an ASCII digit.
pub fn digits_only(s: &str) -> (b: bool)
    ensures
        b == all_digits(s@),
{
    for c in it: s.chars()
        invariant
            it.seq() == s@,
            all_digits(s@.take(it.index())),
    {
        if !char_is_digit(c) {
            assert(s@[it.index()] == c);
            return false;
        }
        proof {
            lemma_digits_extend(s@, it.index());
        }
    }
    assert(s@.take(s@.len() as int) =~= s@);
    true
}

/// Reads `s` as a number in base ten. Only digits are taken: no sign, no
/// space, and at least one digit.
pub fn parse_decimal(s: &str) -> (res: Option<u32>)
    ensures
        res == parsed(s@),
{
    if s.is_empty() {
        return None;
    }
    let mut v: u32 = 0;
    for c in it: s.chars()
        invariant
            it.seq() == s@,
            all_digits(s@.take(it.index())),
            v == decimal_value(s@.take(it.index())),
    {
        proof {
            let next = s@.take(it.index() + 1);
            assert(next.drop_last() =~= s@.take(it.index()));
            assert(next.last() == c);
            lemma_value_of_prefix(s@, it.index() + 1);
        }
        if !char_is_digit(c) {
            assert(s@[it.index()] == c);
            return None;
        }
        let d: u32 = c as u32 - '0' as u32;
        if v > (u32::MAX - d) / 10 {
            return None;
        }
        proof {
            lemma_digits_extend(s@, it.index());
        }
        v = v * 10 + d;
    }
    assert(s@.take(s@.len() as int) =~= s@);
    Some(v)
}

/// Appends to `out` the last `width` decimal digits of `n`, padded with zeros.
pub fn push_decimal(out: &mut String, n: u32, width: u32)
    ensures
        final(out)@ == old(out)@ + decimal_text(n as nat, width as nat),
    decreases width,
{
    if width > 0 {
        push_decimal(out, n / 10, width - 1);
        let d: u8 = (n % 10) as u8;
        out.push((48u8 + d) as char);
    }
    assert(final(out)@ =~= old(out)@ + decimal_text(n as nat, width as nat));
}

/// Appends `n` in decimal digits, without padding.
pub fn push_natural(out: &mut String, n: usize)
    ensures
        final(out)@ == old(out)@ + natural_text(n as nat),
    decreases n,
{
    if n >= 10 {
        push_natural(out, n / 10);
    }
    let d: u8 = (n % 10) as u8;
    out.push((48u8 + d) as char);
    assert(final(out)@ =~= old(out)@ + natural_text(n as nat));
}

} // verus!
