use rust_labs::date_capture::{find_year, year_report};

#[test]
fn year_of_a_date() {
    assert_eq!(find_year("2011-12-12"), Ok(Some("2011".to_string())));
}

#[test]
fn year_of_a_date_inside_text() {
    assert_eq!(find_year("due on 1999-01-31, paid"), Ok(Some("1999".to_string())));
}

#[test]
fn no_date_no_year() {
    assert_eq!(find_year("12-12-2011"), Ok(None));
    assert_eq!(find_year(""), Ok(None));
}

#[test]
fn report_prints_the_year_or_not_found() {
    assert_eq!(year_report(Some("2011".to_string())), "2011");
    assert_eq!(year_report(None), "Not found");
}
