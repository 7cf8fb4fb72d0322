//! What holds of every conversion of an identity number.

use crate::decimal::{all_digits, decimal_text, decimal_value, is_digit, pow10};
use crate::decimal::{
    lemma_decimal_text_shape, lemma_decimal_value_bound, lemma_text_of_value, lemma_value_of_text,
};
use crate::nic_converter::{
    canonical_day_token, canonical_fault, canonical_year, convert_cleaned_spec, convert_spec,
    day_token_valid, expand_legacy, full_year, is_new_form, legacy_day_token, legacy_year,
    length_is_known, outcome, token_day_of_year, token_is_female, NICError, NICInfo,
};
use crate::text::{ascii_uppercase, cleaned, lemma_without_spaces_keeps};
use vstd::prelude::*;
use vstd::utf8::is_ascii_chars;

verus! {

/// A field of up to four digits reads as a number below ten thousand.
pub proof fn lemma_small_fields_fit(field: Seq<char>)
    requires
        field.len() <= 4,
    ensures
        all_digits(field) ==> decimal_value(field) < pow10(field.len()) <= 10000,
{
    reveal_with_fuel(pow10, 5);
    if all_digits(field) {
        lemma_decimal_value_bound(field);
    }
}

/// The expansion of nine digits is a number in the new form.
pub proof fn lemma_expansion_is_new_form(digits: Seq<char>)
    requires
        all_digits(digits),
    ensures
        expand_legacy(digits) matches Ok(c) ==> is_new_form(c),
{
    if let Ok(c) = expand_legacy(digits) {
        let year = decimal_text(full_year(legacy_year(digits)), 4);
        let day = decimal_text(legacy_day_token(digits), 3);
        lemma_decimal_text_shape(full_year(legacy_year(digits)), 4);
        lemma_decimal_text_shape(legacy_day_token(digits), 3);
        assert forall|i: int| 0 <= i < c.len() implies is_digit(#[trigger] c[i]) by {
            if i < 4 {
                assert(c[i] == year[i]);
            } else if i < 7 {
                assert(c[i] == day[i - 4]);
            } else if i == 7 {
            } else {
                assert(c[i] == digits[i - 3]);
            }
        }
    }
}

/// Every number that the conversion of a cleaned text returns is in the new form.
pub proof fn lemma_cleaned_conversion_is_new_form(text: Seq<char>)
    ensures
        convert_cleaned_spec(text) matches Ok(c) ==> is_new_form(c),
{
    if text.len() == 10 {
        let digits = text.subrange(0, 9);
        if all_digits(digits) {
            lemma_expansion_is_new_form(digits);
        }
    } else if text.len() == 9 && all_digits(text) {
        lemma_expansion_is_new_form(text);
    }
}

/// The conversion of a cleaned text ends in a wrong length exactly when the
/// text has neither 9, 10 nor 12 characters. Whatever else is wrong with a
/// text of one of these lengths is a wrong format, year or day.
pub proof fn lemma_cleaned_wrong_length_exactly(text: Seq<char>)
    ensures
        convert_cleaned_spec(text) == Err::<Seq<char>, NICError>(NICError::InvalidLength)
            <==> !length_is_known(text),
        length_is_known(text) && !all_digits(text.subrange(0, 9)) ==> convert_cleaned_spec(text)
            == Err::<Seq<char>, NICError>(NICError::InvalidFormat),
        text.len() == 12 && !all_digits(text) ==> convert_cleaned_spec(text) == Err::<
            Seq<char>,
            NICError,
        >(NICError::InvalidFormat),
{
    if text.len() == 9 {
        assert(text.subrange(0, 9) =~= text);
    } else if text.len() == 12 && !all_digits(text.subrange(0, 9)) {
        let i = choose|i: int| 0 <= i < 9 && !is_digit(#[trigger] text.subrange(0, 9)[i]);
        assert(text[i] == text.subrange(0, 9)[i]);
    }
}

/// A conversion ends in a wrong length exactly when the cleaned number has
/// neither 9, 10 nor 12 characters.
pub proof fn lemma_wrong_length_exactly(raw: Seq<char>)
    ensures
        convert_spec(raw) == Err::<Seq<char>, NICError>(NICError::InvalidLength)
            <==> !length_is_known(cleaned(raw)),
{
    lemma_cleaned_wrong_length_exactly(cleaned(raw));
}

/// Every number that a conversion returns is in the new form: twelve
/// characters, each a digit.
pub proof fn lemma_converted_is_new_form(raw: Seq<char>)
    ensures
        convert_spec(raw) matches Ok(c) ==> is_new_form(c),
{
    lemma_cleaned_conversion_is_new_form(cleaned(raw));
}

/// The year and the day field of a number in the new form can be read.
pub proof fn lemma_new_form_has_no_fault(text: Seq<char>)
    requires
        is_new_form(text),
    ensures
        canonical_fault(text) is None,
{
    assert forall|i: int| 0 <= i < 4 implies is_digit(#[trigger] text.subrange(0, 4)[i]) by {
        assert(text.subrange(0, 4)[i] == text[i]);
    }
    assert forall|i: int| 0 <= i < 3 implies is_digit(#[trigger] text.subrange(4, 7)[i]) by {
        assert(text.subrange(4, 7)[i] == text[4 + i]);
    }
}

/// A text of digits is its own cleaned form.
pub proof fn lemma_digits_are_clean(s: Seq<char>)
    requires
        all_digits(s),
    ensures
        cleaned(s) == s,
{
    assert forall|i: int| 0 <= i < s.len() implies s[i] != ' ' by {
        assert(is_digit(s[i]));
    }
    lemma_without_spaces_keeps(s);
    assert forall|i: int| 0 <= i < s.len() implies '\0' <= #[trigger] s[i] <= '\u{7f}' by {
        assert(is_digit(s[i]));
    }
    assert(is_ascii_chars(s));
    assert forall|i: int| 0 <= i < s.len() implies #[trigger] ascii_uppercase(s)[i] == s[i] by {
        assert(is_digit(s[i]));
    }
    assert(ascii_uppercase(s) =~= s);
}

/// A number that is already in the new form, twelve digits, converts to itself.
pub proof fn lemma_new_form_is_kept(s: Seq<char>)
    requires
        is_new_form(s),
    ensures
        convert_spec(s) == Ok::<Seq<char>, NICError>(s),
{
    lemma_digits_are_clean(s);
}

/// Two conversions of the same number end the same way: with the same text,
/// or with the same error.
pub proof fn lemma_conversion_is_determined(
    raw: Seq<char>,
    first: Result<String, NICError>,
    second: Result<String, NICError>,
)
    requires
        outcome(first) == convert_spec(raw),
        outcome(second) == convert_spec(raw),
    ensures
        outcome(first) == outcome(second),
{
}

/// Converting the result of a conversion once more changes nothing.
pub proof fn lemma_converting_again_keeps(raw: Seq<char>)
    ensures
        convert_spec(raw) matches Ok(c) ==> convert_spec(c) == Ok::<Seq<char>, NICError>(c),
{
    if let Ok(c) = convert_spec(raw) {
        lemma_converted_is_new_form(raw);
        lemma_new_form_is_kept(c);
    }
}

/// Of nine characters whose year and day fields are digits, the day field
/// alone decides: there is a new form exactly when it lies in 1 to 366 or in
/// 501 to 866, and any other day field is an invalid day.
pub proof fn lemma_day_token_decides(digits: Seq<char>)
    requires
        digits.len() == 9,
        all_digits(digits.subrange(0, 2)),
        all_digits(digits.subrange(2, 5)),
    ensures
        expand_legacy(digits) is Ok <==> day_token_valid(legacy_day_token(digits)),
        !day_token_valid(legacy_day_token(digits)) ==> expand_legacy(digits) == Err::<
            Seq<char>,
            NICError,
        >(NICError::InvalidDay),
{
}

/// The year of the new form is the year that the two-digit year stands for:
/// 2000 to 2050 for the years up to 50, 1951 to 1999 for those above.
pub proof fn lemma_century_cutoff(digits: Seq<char>)
    ensures
        expand_legacy(digits) matches Ok(c) ==> {
            &&& canonical_year(c) == full_year(legacy_year(digits))
            &&& legacy_year(digits) <= 50 ==> canonical_year(c) == 2000 + legacy_year(digits)
            &&& legacy_year(digits) > 50 ==> canonical_year(c) == 1900 + legacy_year(digits)
            &&& 1951 <= canonical_year(c) <= 2050
        },
{
    if let Ok(c) = expand_legacy(digits) {
        let year = full_year(legacy_year(digits));
        lemma_decimal_value_bound(digits.subrange(0, 2));
        assert(pow10(2) == 100 && pow10(4) == 10000) by {
            reveal_with_fuel(pow10, 5);
        }
        lemma_value_of_text(year, 4);
        lemma_decimal_text_shape(year, 4);
        assert(c.subrange(0, 4) =~= decimal_text(year, 4));
    }
}

/// The day field of the new form is the day field of the old number, and it
/// gives a day of the year from 1 to 366: for a man the field itself, for a
/// woman, whose field lies above 500, the field less 500.
pub proof fn lemma_day_and_gender_of_expansion(digits: Seq<char>)
    ensures
        expand_legacy(digits) matches Ok(c) ==> {
            let token = legacy_day_token(digits);
            &&& canonical_day_token(c) == token
            &&& 1 <= token_day_of_year(token) <= 366
            &&& token_is_female(token) <==> 501 <= token <= 866
            &&& !token_is_female(token) ==> token_day_of_year(token) == token
            &&& token_is_female(token) ==> token_day_of_year(token) == token - 500
        },
{
    if let Ok(c) = expand_legacy(digits) {
        let token = legacy_day_token(digits);
        assert(pow10(3) == 1000) by {
            reveal_with_fuel(pow10, 4);
        }
        lemma_value_of_text(token, 3);
        lemma_decimal_text_shape(full_year(legacy_year(digits)), 4);
        lemma_decimal_text_shape(token, 3);
        assert(c.subrange(4, 7) =~= decimal_text(token, 3));
    }
}

/// `year` in four digits is the century in two followed by the year of the
/// century in two.
proof fn lemma_year_text_splits(century: nat, yy: nat)
    requires
        yy < 100,
    ensures
        decimal_text(century * 100 + yy, 4) == decimal_text(century, 2) + decimal_text(yy, 2),
{
    reveal_with_fuel(decimal_text, 5);
    let n = century * 100 + yy;
    assert(n / 10 == century * 10 + yy / 10);
    assert(n % 10 == yy % 10);
    assert((n / 10) / 10 == century);
    assert((n / 10) % 10 == (yy / 10) % 10);
    assert((yy / 10) / 10 == 0);
    assert(decimal_text(n, 4) =~= decimal_text(century, 2) + decimal_text(yy, 2));
}

/// The expansion renumbers nothing: the new form is the century, `20` or
/// `19`, then the first five characters of the old number, a `0`, and its last
/// four characters.
pub proof fn lemma_expansion_keeps_digits(digits: Seq<char>)
    ensures
        expand_legacy(digits) matches Ok(c) ==> c == (if legacy_year(digits) <= 50 {
            seq!['2', '0']
        } else {
            seq!['1', '9']
        }) + digits.subrange(0, 5) + seq!['0'] + digits.subrange(5, 9),
{
    if let Ok(c) = expand_legacy(digits) {
        let yy = legacy_year(digits);
        lemma_decimal_value_bound(digits.subrange(0, 2));
        assert(pow10(2) == 100) by {
            reveal_with_fuel(pow10, 3);
        }
        lemma_text_of_value(digits.subrange(0, 2));
        lemma_text_of_value(digits.subrange(2, 5));
        if yy <= 50 {
            lemma_year_text_splits(20, yy);
            assert(decimal_text(20, 2) =~= seq!['2', '0']) by {
                reveal_with_fuel(decimal_text, 3);
            }
        } else {
            lemma_year_text_splits(19, yy);
            assert(decimal_text(19, 2) =~= seq!['1', '9']) by {
                reveal_with_fuel(decimal_text, 3);
            }
        }
        assert(c =~= (if yy <= 50 {
            seq!['2', '0']
        } else {
            seq!['1', '9']
        }) + digits.subrange(0, 5) + seq!['0'] + digits.subrange(5, 9));
    }
}

/// A record that describes a number names the gender by the day field: up to
/// 500 it is a man and the day of the year is the field, above 500 a woman and
/// the day of the year is the field less 500. The two names differ.
pub proof fn lemma_gender_by_day_token(info: NICInfo, canonical: Seq<char>)
    requires
        info.describes(canonical),
    ensures
        canonical_day_token(canonical) <= 500 ==> info.gender@ == "Male"@ && info.day_of_year
            == canonical_day_token(canonical),
        canonical_day_token(canonical) > 500 ==> info.gender@ == "Female"@ && info.day_of_year
            == canonical_day_token(canonical) - 500,
        "Male"@ != "Female"@,
{
    reveal_strlit("Male");
    reveal_strlit("Female");
    assert("Male"@.len() != "Female"@.len());
}

} // verus!
