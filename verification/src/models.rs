//! The records that the staff register hands to its callers.

use vstd::prelude::*;

verus! {

/// What to look for in the staff register. A field that is `None` narrows
/// nothing, and neither does an empty text.
#[derive(Debug)]
pub struct StaffSearch {
    /// Part of the full name or of the appointment number.
    pub query: Option<String>,
    pub designation: Option<String>,
    pub gender: Option<String>,
    pub marital_status: Option<String>,
    pub salary_code: Option<String>,
    /// The least age, itself included.
    pub age_min: Option<i32>,
    /// The greatest age, itself included.
    pub age_max: Option<i32>,
    /// Part of the identity card number.
    pub nic_number: Option<String>,
}

/// How many people the register holds, in all and by designation and gender.
#[derive(Debug)]
pub struct StaffCount {
    pub total: i32,
    pub by_designation: Vec<DesignationCount>,
    pub by_gender: Vec<GenderCount>,
}

/// How many people hold one designation.
#[derive(Debug)]
pub struct DesignationCount {
    pub designation: String,
    pub count: i32,
}

/// How many people are of one gender.
#[derive(Debug)]
pub struct GenderCount {
    pub gender: String,
    pub count: i32,
}

} // verus!
