//! The statement that finds staff in the register: its text and the values
//! bound to its numbered parameters.

use crate::decimal::{natural_text, push_natural};
use crate::models::StaffSearch;
use vstd::prelude::*;

verus! {

/// A value bound to a parameter of a statement.
#[derive(Debug, PartialEq, Eq)]
pub enum SqlParam {
    Text(String),
    Integer(i32),
}

/// A bound value as mathematics sees it.
pub enum SqlParamView {
    Text(Seq<char>),
    Integer(int),
}

impl View for SqlParam {
    type V = SqlParamView;

    open spec fn view(&self) -> SqlParamView {
        match self {
            SqlParam::Text(s) => SqlParamView::Text(s@),
            SqlParam::Integer(i) => SqlParamView::Integer(*i as int),
        }
    }
}

/// A statement and the values of its parameters: the first value is bound to
/// `?1`, the second to `?2`, and so on.
#[derive(Debug)]
pub struct SearchStatement {
    pub sql: String,
    pub params: Vec<SqlParam>,
}

/// A statement as mathematics sees it.
pub struct SearchStatementView {
    pub sql: Seq<char>,
    pub params: Seq<SqlParamView>,
}

impl View for SearchStatement {
    type V = SearchStatementView;

    open spec fn view(&self) -> SearchStatementView {
        SearchStatementView { sql: self.sql@, params: self.params@.map_values(|p: SqlParam| p@) }
    }
}

/// The statement that selects every column of every member of staff.
pub const SELECT_ALL_STAFF: &'static str = "SELECT id, appointment_number, full_name, gender, date_of_birth, age, nic_number,
         marital_status, address_line1, address_line2, address_line3, contact_number, email,
         designation, date_of_first_appointment, date_of_retirement, increment_date,
         salary_code, basic_salary, increment_amount, image_path, created_at, updated_at
         FROM staff WHERE 1=1";

/// The text that a field of the search narrows by: none where the field is
/// absent or empty.
pub open spec fn wanted_text(field: Option<String>) -> Option<Seq<char>> {
    match field {
        Some(s) => if s@.len() > 0 {
            Some(s@)
        } else {
            None
        },
        None => None,
    }
}

/// The pattern that matches every text with `part` inside it.
pub open spec fn containing(part: Seq<char>) -> Seq<char> {
    seq!['%'] + part + seq!['%']
}

/// `stmt` narrowed by one more condition: `condition` is followed by the
/// number of the parameter that `value` is then bound to.
pub open spec fn narrowed(
    stmt: SearchStatementView,
    condition: Seq<char>,
    value: SqlParamView,
) -> SearchStatementView {
    SearchStatementView {
        sql: stmt.sql + condition + natural_text(stmt.params.len() + 1),
        params: stmt.params.push(value),
    }
}

/// `stmt` narrowed by `condition` where there is a text to narrow by.
pub open spec fn narrowed_by_text(
    stmt: SearchStatementView,
    condition: Seq<char>,
    value: Option<Seq<char>>,
) -> SearchStatementView {
    match value {
        Some(t) => narrowed(stmt, condition, SqlParamView::Text(t)),
        None => stmt,
    }
}

/// `stmt` narrowed by `condition` where there is a number to narrow by.
pub open spec fn narrowed_by_number(
    stmt: SearchStatementView,
    condition: Seq<char>,
    value: Option<i32>,
) -> SearchStatementView {
    match value {
        Some(i) => narrowed(stmt, condition, SqlParamView::Integer(i as int)),
        None => stmt,
    }
}

/// The statement narrowed by the free-text query, which is looked for in the
/// full name and in the appointment number alike.
pub open spec fn narrowed_by_query(
    stmt: SearchStatementView,
    query: Option<Seq<char>>,
) -> SearchStatementView {
    match query {
        Some(q) => SearchStatementView {
            sql: stmt.sql + " AND (full_name LIKE ?1 OR appointment_number LIKE ?1)"@,
            params: stmt.params.push(SqlParamView::Text(containing(q))),
        },
        None => stmt,
    }
}

/// The pattern for a part of a text, where there is one.
pub open spec fn containing_wanted(field: Option<String>) -> Option<Seq<char>> {
    match wanted_text(field) {
        Some(t) => Some(containing(t)),
        None => None,
    }
}

/// The statement for a search: every column of the staff that meet all the
/// conditions that the search names, by full name.
pub open spec fn search_statement(search: &StaffSearch) -> SearchStatementView {
    let s0 = SearchStatementView { sql: SELECT_ALL_STAFF@, params: Seq::empty() };
    let s1 = narrowed_by_query(s0, wanted_text(search.query));
    let s2 = narrowed_by_text(s1, " AND designation = ?"@, wanted_text(search.designation));
    let s3 = narrowed_by_text(s2, " AND gender = ?"@, wanted_text(search.gender));
    let s4 = narrowed_by_text(s3, " AND marital_status = ?"@, wanted_text(search.marital_status));
    let s5 = narrowed_by_text(s4, " AND salary_code = ?"@, wanted_text(search.salary_code));
    let s6 = narrowed_by_text(s5, " AND nic_number LIKE ?"@, containing_wanted(search.nic_number));
    let s7 = narrowed_by_number(s6, " AND age >= ?"@, search.age_min);
    let s8 = narrowed_by_number(s7, " AND age <= ?"@, search.age_max);
    SearchStatementView { sql: s8.sql + " ORDER BY full_name"@, params: s8.params }
}

/// The text of a field where the search narrows by it.
pub fn wanted<'a>(field: &'a Option<String>) -> (res: Option<&'a str>)
    ensures
        match res {
            Some(t) => wanted_text(*field) == Some(t@),
            None => wanted_text(*field) is None,
        },
{
    match field {
        Some(s) => {
            let t = s.as_str();
            if t.is_empty() {
                None
            } else {
                Some(t)
            }
        },
        None => None,
    }
}

/// The pattern that matches every text with `part` inside it.
pub fn pattern_containing(part: &str) -> (res: String)
    ensures
        res@ == containing(part@),
{
    let mut out = String::new();
    out.push('%');
    out.append(part);
    out.push('%');
    assert(out@ =~= containing(part@));
    out
}

impl SearchStatement {
    /// Adds a condition and binds `value` to the parameter that it names.
    pub fn narrow(&mut self, condition: &str, value: SqlParam)
        requires
            old(self).params.len() < usize::MAX,
        ensures
            final(self)@ == narrowed(old(self)@, condition@, value@),
            final(self).params.len() == old(self).params.len() + 1,
    {
        self.sql.append(condition);
        push_natural(&mut self.sql, self.params.len() + 1);
        self.params.push(value);
        assert(final(self)@.sql =~= narrowed(old(self)@, condition@, value@).sql);
        assert(final(self)@.params =~= narrowed(old(self)@, condition@, value@).params);
    }
}

/// Builds the statement for a search.
pub fn build_search_statement(search: &StaffSearch) -> (stmt: SearchStatement)
    ensures
        stmt@ == search_statement(search),
{
    let mut stmt = SearchStatement {
        sql: SELECT_ALL_STAFF.to_owned(),
        params: Vec::new(),
    };
    assert(stmt@.params =~= Seq::empty());
    if let Some(q) = wanted(&search.query) {
        stmt.sql.append(" AND (full_name LIKE ?1 OR appointment_number LIKE ?1)");
        stmt.params.push(SqlParam::Text(pattern_containing(q)));
        assert(stmt@.params =~= narrowed_by_query(
            SearchStatementView { sql: SELECT_ALL_STAFF@, params: Seq::empty() },
            wanted_text(search.query),
        ).params);
    }
    if let Some(designation) = wanted(&search.designation) {
        stmt.narrow(" AND designation = ?", SqlParam::Text(designation.to_owned()));
    }
    if let Some(gender) = wanted(&search.gender) {
        stmt.narrow(" AND gender = ?", SqlParam::Text(gender.to_owned()));
    }
    if let Some(marital_status) = wanted(&search.marital_status) {
        stmt.narrow(" AND marital_status = ?", SqlParam::Text(marital_status.to_owned()));
    }
    if let Some(salary_code) = wanted(&search.salary_code) {
        stmt.narrow(" AND salary_code = ?", SqlParam::Text(salary_code.to_owned()));
    }
    if let Some(nic) = wanted(&search.nic_number) {
        stmt.narrow(" AND nic_number LIKE ?", SqlParam::Text(pattern_containing(nic)));
    }
    if let Some(age_min) = search.age_min {
        stmt.narrow(" AND age >= ?", SqlParam::Integer(age_min));
    }
    if let Some(age_max) = search.age_max {
        stmt.narrow(" AND age <= ?", SqlParam::Integer(age_max));
    }
    stmt.sql.append(" ORDER BY full_name");
    stmt
}

} // verus!
