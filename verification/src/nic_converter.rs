//! Conversion of national identity card numbers from the old form (nine digits,
//! optionally followed by `V` or `X`) to the new form of twelve digits, and the
//! birth year, day of year and gender that a number encodes.

use crate::decimal::{
    all_digits, decimal_text, decimal_value, digits_only, parse_decimal, push_decimal,
};
use crate::nic_lemmas::{
    lemma_cleaned_conversion_is_new_form, lemma_cleaned_wrong_length_exactly,
    lemma_new_form_has_no_fault, lemma_new_form_is_kept, lemma_small_fields_fit,
    lemma_wrong_length_exactly,
};
use crate::text::{clean, cleaned};
use vstd::prelude::*;

verus! {

/// Why an identity number was turned down.
#[derive(Debug, Clone, Copy, PartialEq, Eq)]
pub enum NICError {
    /// The cleaned number has 9, 10 or 12 characters, but not the ones that
    /// the format wants: a character that should be a digit is none, or the
    /// tenth is neither `V` nor `X`.
    InvalidFormat,
    /// The year field holds something other than digits.
    InvalidYear,
    /// The day field holds something other than digits, or names no day of
    /// the year.
    InvalidDay,
    /// The cleaned number has neither 9, 10 nor 12 characters.
    InvalidLength,
}

impl NICError {
    /// The message that goes with each error.
    pub open spec fn message(self) -> Seq<char> {
        match self {
            NICError::InvalidFormat => "Invalid NIC format"@,
            NICError::InvalidYear => "Invalid year in NIC"@,
            NICError::InvalidDay => "Invalid day in NIC"@,
            NICError::InvalidLength => "Invalid NIC length"@,
        }
    }

    /// The error's message as text.
    pub fn to_string(&self) -> (s: String)
        ensures
            s@ == self.message(),
    {
        match self {
            NICError::InvalidFormat => "Invalid NIC format".to_owned(),
            NICError::InvalidYear => "Invalid year in NIC".to_owned(),
            NICError::InvalidDay => "Invalid day in NIC".to_owned(),
            NICError::InvalidLength => "Invalid NIC length".to_owned(),
        }
    }
}

/// The new form of an identity number: twelve characters, each a digit.
pub open spec fn is_new_form(text: Seq<char>) -> bool {
    text.len() == 12 && all_digits(text)
}

/// A day field names a day of the year: 1 to 366 for a man, 501 to 866 for a woman.
pub open spec fn day_token_valid(token: nat) -> bool {
    1 <= token <= 366 || 501 <= token <= 866
}

/// The year that a two-digit year stands for: up to 50 it lies in the 2000s,
/// above 50 in the 1900s.
pub open spec fn full_year(yy: nat) -> nat {
    if yy <= 50 {
        2000 + yy
    } else {
        1900 + yy
    }
}

/// The two-digit year of an old number.
pub open spec fn legacy_year(digits: Seq<char>) -> nat {
    decimal_value(digits.subrange(0, 2))
}

/// The day field of an old number.
pub open spec fn legacy_day_token(digits: Seq<char>) -> nat {
    decimal_value(digits.subrange(2, 5))
}

/// The new form of the nine characters of an old number, or why there is none:
/// the year in four digits, the day field in three, a `0`, then the three
/// characters of the serial number and the check character as they stand.
pub open spec fn expand_legacy(digits: Seq<char>) -> Result<Seq<char>, NICError> {
    if digits.len() != 9 {
        Err(NICError::InvalidLength)
    } else if !all_digits(digits.subrange(0, 2)) {
        Err(NICError::InvalidYear)
    } else if !all_digits(digits.subrange(2, 5)) {
        Err(NICError::InvalidDay)
    } else if !day_token_valid(legacy_day_token(digits)) {
        Err(NICError::InvalidDay)
    } else {
        Ok(
            decimal_text(full_year(legacy_year(digits)), 4) + decimal_text(
                legacy_day_token(digits),
                3,
            ) + seq!['0'] + digits.subrange(5, 8) + digits.subrange(8, 9),
        )
    }
}

/// The length of a cleaned number is one that the formats have: 9 or 10
/// characters for an old number, 12 for a new one.
pub open spec fn length_is_known(text: Seq<char>) -> bool {
    text.len() == 9 || text.len() == 10 || text.len() == 12
}

/// The new form of a cleaned number, or why there is none. The length is
/// looked at first: only a text of 9, 10 or 12 characters is read further,
/// and what is then out of place is a matter of format.
pub open spec fn convert_cleaned_spec(text: Seq<char>) -> Result<Seq<char>, NICError> {
    if text.len() == 12 {
        if all_digits(text) {
            Ok(text)
        } else {
            Err(NICError::InvalidFormat)
        }
    } else if text.len() == 10 {
        if !all_digits(text.subrange(0, 9)) {
            Err(NICError::InvalidFormat)
        } else if text[9] != 'V' && text[9] != 'X' {
            Err(NICError::InvalidFormat)
        } else {
            expand_legacy(text.subrange(0, 9))
        }
    } else if text.len() == 9 {
        if all_digits(text) {
            expand_legacy(text)
        } else {
            Err(NICError::InvalidFormat)
        }
    } else {
        Err(NICError::InvalidLength)
    }
}

/// The new form of a number as it was typed, or why there is none.
pub open spec fn convert_spec(raw: Seq<char>) -> Result<Seq<char>, NICError> {
    convert_cleaned_spec(cleaned(raw))
}

/// What a conversion returned, with the text as a sequence of characters.
pub open spec fn outcome(res: Result<String, NICError>) -> Result<Seq<char>, NICError> {
    match res {
        Ok(s) => Ok(s@),
        Err(e) => Err(e),
    }
}

/// Expands the nine characters of an old number to the new form. The year
/// and the day field must be digits and the day field must name a day; the
/// serial number and the check character are copied unread.
pub fn convert_9_digits_to_12(digits: &str) -> (res: Result<String, NICError>)
    ensures
        outcome(res) == expand_legacy(digits@),
{
    if digits.unicode_len() != 9 {
        return Err(NICError::InvalidLength);
    }
    proof {
        lemma_small_fields_fit(digits@.subrange(0, 2));
        lemma_small_fields_fit(digits@.subrange(2, 5));
    }
    let yy: u32 = match parse_decimal(digits.substring_char(0, 2)) {
        Some(v) => v,
        None => return Err(NICError::InvalidYear),
    };
    let ddd: u32 = match parse_decimal(digits.substring_char(2, 5)) {
        Some(v) => v,
        None => return Err(NICError::InvalidDay),
    };
    if (ddd < 1 || ddd > 366) && (ddd < 501 || ddd > 866) {
        return Err(NICError::InvalidDay);
    }
    let yyyy: u32 = if yy <= 50 {
        2000 + yy
    } else {
        1900 + yy
    };
    let mut out = String::new();
    push_decimal(&mut out, yyyy, 4);
    push_decimal(&mut out, ddd, 3);
    out.push('0');
    out.append(digits.substring_char(5, 8));
    out.append(digits.substring_char(8, 9));
    assert(out@ =~= expand_legacy(digits@)->Ok_0);
    Ok(out)
}

/// Converts a number that is already cleaned: without spaces and in upper
/// case. Lengths are counted in characters. A length other than 9, 10 or 12
/// is a wrong length; with one of these, a character out of place is a wrong
/// format.
pub fn convert_cleaned(text: &str) -> (res: Result<String, NICError>)
    ensures
        outcome(res) == convert_cleaned_spec(text@),
        res matches Ok(s) ==> is_new_form(s@),
        res == Err::<String, NICError>(NICError::InvalidLength) <==> !length_is_known(text@),
{
    proof {
        lemma_cleaned_conversion_is_new_form(text@);
        lemma_cleaned_wrong_length_exactly(text@);
    }
    let n: usize = text.unicode_len();
    if n == 12 {
        if !digits_only(text) {
            return Err(NICError::InvalidFormat);
        }
        return Ok(text.to_owned());
    }
    if n == 10 {
        if !digits_only(text.substring_char(0, 9)) {
            return Err(NICError::InvalidFormat);
        }
        let letter = text.get_char(9);
        if letter != 'V' && letter != 'X' {
            return Err(NICError::InvalidFormat);
        }
        return convert_9_digits_to_12(text.substring_char(0, 9));
    }
    if n == 9 {
        if !digits_only(text) {
            return Err(NICError::InvalidFormat);
        }
        return convert_9_digits_to_12(text);
    }
    Err(NICError::InvalidLength)
}

/// Converts an identity number to the new form of twelve digits. Spaces are
/// dropped and letters raised to upper case first; a number that is already in
/// the new form is returned as it is.
pub fn convert_old_to_new_nic(old_nic: &str) -> (res: Result<String, NICError>)
    ensures
        outcome(res) == convert_spec(old_nic@),
        res matches Ok(s) ==> is_new_form(s@),
        is_new_form(old_nic@) ==> outcome(res) == Ok::<Seq<char>, NICError>(old_nic@),
        res == Err::<String, NICError>(NICError::InvalidLength) <==> !length_is_known(
            cleaned(old_nic@),
        ),
{
    proof {
        if is_new_form(old_nic@) {
            lemma_new_form_is_kept(old_nic@);
        }
        lemma_wrong_length_exactly(old_nic@);
    }
    let text = clean(old_nic);
    convert_cleaned(text.as_str())
}

/// What an identity number says of its holder.
#[derive(Debug)]
pub struct NICInfo {
    /// The year of birth.
    pub year: u32,
    /// The day of the year of birth: the day field, less 500 for a woman.
    pub day_of_year: u32,
    /// `"Male"` or `"Female"`.
    pub gender: String,
    /// The number in the new form.
    pub new_format: String,
}

/// The year that a number in the new form starts with.
pub open spec fn canonical_year(canonical: Seq<char>) -> nat {
    decimal_value(canonical.subrange(0, 4))
}

/// The day field of a number in the new form.
pub open spec fn canonical_day_token(canonical: Seq<char>) -> nat {
    decimal_value(canonical.subrange(4, 7))
}

/// A day field above 500 marks a woman.
pub open spec fn token_is_female(token: nat) -> bool {
    token > 500
}

/// The day of the year in a day field: for a woman the field less 500.
pub open spec fn token_day_of_year(token: nat) -> nat {
    if token_is_female(token) {
        (token - 500) as nat
    } else {
        token
    }
}

/// The name of a gender.
pub open spec fn gender_name(female: bool) -> Seq<char> {
    if female {
        "Female"@
    } else {
        "Male"@
    }
}

/// What keeps the fields of a text from being read as those of the new form.
pub open spec fn canonical_fault(text: Seq<char>) -> Option<NICError> {
    if text.len() != 12 {
        Some(NICError::InvalidLength)
    } else if !all_digits(text.subrange(0, 4)) {
        Some(NICError::InvalidYear)
    } else if !all_digits(text.subrange(4, 7)) {
        Some(NICError::InvalidDay)
    } else {
        None
    }
}

impl NICInfo {
    /// The record holds what the number `canonical`, in the new form, says.
    pub open spec fn describes(&self, canonical: Seq<char>) -> bool {
        &&& self.new_format@ == canonical
        &&& self.year == canonical_year(canonical)
        &&& self.day_of_year == token_day_of_year(canonical_day_token(canonical))
        &&& self.gender@ == gender_name(token_is_female(canonical_day_token(canonical)))
    }
}

/// Reads birth year, day of year and gender from a number in the new form.
/// The day field is taken as it stands: it is not held to the days of a year.
pub fn info_of_canonical(new_nic: String) -> (res: Result<NICInfo, NICError>)
    ensures
        match res {
            Ok(info) => canonical_fault(new_nic@) is None && info.describes(new_nic@),
            Err(e) => canonical_fault(new_nic@) == Some(e),
        },
{
    let text = new_nic.as_str();
    if text.unicode_len() != 12 {
        return Err(NICError::InvalidLength);
    }
    proof {
        lemma_small_fields_fit(text@.subrange(0, 4));
        lemma_small_fields_fit(text@.subrange(4, 7));
    }
    let year: u32 = match parse_decimal(text.substring_char(0, 4)) {
        Some(v) => v,
        None => return Err(NICError::InvalidYear),
    };
    let day_token: u32 = match parse_decimal(text.substring_char(4, 7)) {
        Some(v) => v,
        None => return Err(NICError::InvalidDay),
    };
    let (actual_day, is_female) = if day_token > 500 {
        (day_token - 500, true)
    } else {
        (day_token, false)
    };
    let gender = if is_female {
        "Female"
    } else {
        "Male"
    };
    Ok(NICInfo { year, day_of_year: actual_day, gender: gender.to_owned(), new_format: new_nic })
}

/// Converts an identity number, old or new, and reads birth year, day of year
/// and gender from the new form.
pub fn extract_nic_info(nic: &str) -> (res: Result<NICInfo, NICError>)
    ensures
        match res {
            Ok(info) => convert_spec(nic@) == Ok::<Seq<char>, NICError>(info.new_format@)
                && info.describes(info.new_format@),
            Err(e) => convert_spec(nic@) == Err::<Seq<char>, NICError>(e),
        },
{
    match convert_old_to_new_nic(nic) {
        Ok(new_nic) => {
            proof {
                lemma_new_form_has_no_fault(new_nic@);
            }
            info_of_canonical(new_nic)
        },
        Err(e) => Err(e),
    }
}

} // verus!
