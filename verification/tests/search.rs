use forest_office_staff::models::{DesignationCount, GenderCount, StaffCount, StaffSearch};
use forest_office_staff::decimal::push_natural;
use forest_office_staff::search::{
    build_search_statement, pattern_containing, wanted, SearchStatement, SqlParam,
    SELECT_ALL_STAFF,
};

const SELECT: &str = "SELECT id, appointment_number, full_name, gender, date_of_birth, age, nic_number,
         marital_status, address_line1, address_line2, address_line3, contact_number, email,
         designation, date_of_first_appointment, date_of_retirement, increment_date,
         salary_code, basic_salary, increment_amount, image_path, created_at, updated_at
         FROM staff WHERE 1=1";

fn empty_search() -> StaffSearch {
    StaffSearch {
        query: None,
        designation: None,
        gender: None,
        marital_status: None,
        salary_code: None,
        age_min: None,
        age_max: None,
        nic_number: None,
    }
}

fn text(s: &str) -> SqlParam {
    SqlParam::Text(s.to_string())
}

#[test]
fn search_without_conditions_selects_everyone() {
    assert_eq!(SELECT_ALL_STAFF, SELECT);
    let stmt = build_search_statement(&empty_search());
    assert_eq!(stmt.sql, format!("{} ORDER BY full_name", SELECT));
    assert_eq!(stmt.params, vec![]);
}

#[test]
fn empty_texts_narrow_nothing() {
    let mut search = empty_search();
    search.query = Some(String::new());
    search.designation = Some(String::new());
    search.gender = Some(String::new());
    search.marital_status = Some(String::new());
    search.salary_code = Some(String::new());
    search.nic_number = Some(String::new());
    let stmt = build_search_statement(&search);
    assert_eq!(stmt.sql, format!("{} ORDER BY full_name", SELECT));
    assert_eq!(stmt.params, vec![]);
}

#[test]
fn search_with_every_condition() {
    let search = StaffSearch {
        query: Some("Perera".to_string()),
        designation: Some("Ranger".to_string()),
        gender: Some("Female".to_string()),
        marital_status: Some("Single".to_string()),
        salary_code: Some("MN-1".to_string()),
        age_min: Some(25),
        age_max: Some(-3),
        nic_number: Some("1974".to_string()),
    };
    let stmt = build_search_statement(&search);
    assert_eq!(
        stmt.sql,
        format!(
            "{}{}{}{}{}{}{}{}{}{}",
            SELECT,
            " AND (full_name LIKE ?1 OR appointment_number LIKE ?1)",
            " AND designation = ?2",
            " AND gender = ?3",
            " AND marital_status = ?4",
            " AND salary_code = ?5",
            " AND nic_number LIKE ?6",
            " AND age >= ?7",
            " AND age <= ?8",
            " ORDER BY full_name"
        )
    );
    assert_eq!(
        stmt.params,
        vec![
            text("%Perera%"),
            text("Ranger"),
            text("Female"),
            text("Single"),
            text("MN-1"),
            text("%1974%"),
            SqlParam::Integer(25),
            SqlParam::Integer(-3),
        ]
    );
}

#[test]
fn parameters_are_numbered_by_what_came_before() {
    let mut search = empty_search();
    search.gender = Some("Male".to_string());
    search.age_max = Some(60);
    let stmt = build_search_statement(&search);
    assert_eq!(
        stmt.sql,
        format!("{} AND gender = ?1 AND age <= ?2 ORDER BY full_name", SELECT)
    );
    assert_eq!(stmt.params, vec![text("Male"), SqlParam::Integer(60)]);

    let mut search = empty_search();
    search.nic_number = Some("757V".to_string());
    let stmt = build_search_statement(&search);
    assert_eq!(
        stmt.sql,
        format!("{} AND nic_number LIKE ?1 ORDER BY full_name", SELECT)
    );
    assert_eq!(stmt.params, vec![text("%757V%")]);
}

#[test]
fn query_alone_is_bound_once() {
    let mut search = empty_search();
    search.query = Some("A 12".to_string());
    let stmt = build_search_statement(&search);
    assert_eq!(
        stmt.sql,
        format!(
            "{} AND (full_name LIKE ?1 OR appointment_number LIKE ?1) ORDER BY full_name",
            SELECT
        )
    );
    assert_eq!(stmt.params, vec![text("%A 12%")]);
}

#[test]
fn narrowing_numbers_the_parameter_after_those_bound() {
    let mut stmt = SearchStatement { sql: "S".to_string(), params: vec![] };
    for i in 0..12 {
        stmt.narrow(" AND c = ?", SqlParam::Integer(i));
    }
    assert_eq!(
        stmt.sql,
        "S AND c = ?1 AND c = ?2 AND c = ?3 AND c = ?4 AND c = ?5 AND c = ?6 AND c = ?7 \
         AND c = ?8 AND c = ?9 AND c = ?10 AND c = ?11 AND c = ?12"
    );
    assert_eq!(stmt.params.len(), 12);
    assert_eq!(stmt.params[11], SqlParam::Integer(11));
}

#[test]
fn naturals_are_written_without_padding() {
    let mut out = String::new();
    push_natural(&mut out, 0);
    out.push(' ');
    push_natural(&mut out, 7);
    out.push(' ');
    push_natural(&mut out, 10);
    out.push(' ');
    push_natural(&mut out, 4096);
    assert_eq!(out, "0 7 10 4096");
}

#[test]
fn patterns_wrap_the_part_in_percent_signs() {
    assert_eq!(pattern_containing("abc"), "%abc%");
    assert_eq!(pattern_containing(""), "%%");
    assert_eq!(pattern_containing("%"), "%%%");
}

#[test]
fn absent_and_empty_fields_are_not_wanted() {
    assert_eq!(wanted(&None), None);
    assert_eq!(wanted(&Some(String::new())), None);
    assert_eq!(wanted(&Some(" ".to_string())), Some(" "));
    assert_eq!(wanted(&Some("Ranger".to_string())), Some("Ranger"));
}

#[test]
fn counts_hold_what_they_are_given() {
    let count = StaffCount {
        total: 3,
        by_designation: vec![
            DesignationCount { designation: "Ranger".to_string(), count: 2 },
            DesignationCount { designation: "Clerk".to_string(), count: 1 },
        ],
        by_gender: vec![GenderCount { gender: "Female".to_string(), count: 3 }],
    };
    assert_eq!(count.total, 3);
    assert_eq!(count.by_designation.len(), 2);
    assert_eq!(count.by_designation[0].designation, "Ranger");
    assert_eq!(count.by_designation[1].count, 1);
    assert_eq!(count.by_gender[0].gender, "Female");
    assert_eq!(count.by_gender[0].count, 3);
}
