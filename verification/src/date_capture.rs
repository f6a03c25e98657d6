//! Reading the year out of a `YYYY-MM-DD` date with a regular expression.

use vstd::prelude::*;

verus! {

/// Whether `regex::Regex::new` accepts `pattern`.
pub uninterp spec fn regex_accepts(pattern: Seq<char>) -> bool;

/// The text of group `group` in the first match of `pattern` in `haystack`,
/// as the `regex` crate finds it; `None` where nothing matches or the group
/// took no part in the match.
pub uninterp spec fn regex_named_capture(
    pattern: Seq<char>,
    haystack: Seq<char>,
    group: Seq<char>,
) -> Option<Seq<char>>;

/// Calls `regex::Regex::new(pattern)` and reports whether it succeeded. The
/// contract claims only that the answer is the same for the same pattern.
#[verifier::external_body]
fn pattern_compiles(pattern: &str) -> (ok: bool)
    ensures
        ok == regex_accepts(pattern@),
{
    regex::Regex::new(pattern).is_ok()
}

/// Compiles `pattern` with `regex::Regex::new`, searches `haystack` with
/// `Regex::captures` and reads group `group` with `Captures::name` and
/// `Match::as_str`. The contract claims that the result is the same for the
/// same arguments, and, as `Match::as_str` slices the haystack, that a found
/// text is a contiguous part of `haystack`.
#[verifier::external_body]
fn first_named_capture(pattern: &str, haystack: &str, group: &str) -> (found: Option<String>)
    requires
        regex_accepts(pattern@),
    ensures
        found matches Some(text) ==> regex_named_capture(pattern@, haystack@, group@) == Some(
            text@,
        ) && exists|i: int, j: int|
            0 <= i <= j <= haystack@.len() && text@ == haystack@.subrange(i, j),
        found is None ==> regex_named_capture(pattern@, haystack@, group@) is None,
{
    let re = regex::Regex::new(pattern).unwrap();
    Some(re.captures(haystack)?.name(group)?.as_str().to_string())
}

/// The pattern of a date: four digits of year, two of month, two of day.
pub open spec fn date_pattern() -> Seq<char> {
    r"(?P<year>\d{4})-(?P<month>\d{2})-(?P<day>\d{2})"@
}

/// The date pattern is the one written in the program, character for character.
pub proof fn lemma_date_pattern_literal()
    ensures
        date_pattern() == r"(?P<year>\d{4})-(?P<month>\d{2})-(?P<day>\d{2})"@,
        year_group() == "year"@,
{
}

/// The name of the year group of the date pattern.
pub open spec fn year_group() -> Seq<char> {
    "year"@
}

/// The date pattern was refused by the regular expression engine.
#[derive(Debug, Clone, Copy, PartialEq, Eq, Structural)]
pub enum PatternError {
    Refused,
}

/// The year of the first `YYYY-MM-DD` date in `text`, if there is one.
pub fn find_year(text: &str) -> (year: Result<Option<String>, PatternError>)
    ensures
        !regex_accepts(date_pattern()) ==> year == Err::<Option<String>, PatternError>(
            PatternError::Refused,
        ),
        regex_accepts(date_pattern()) ==> (year matches Ok(found) && match found {
            Some(y) => regex_named_capture(date_pattern(), text@, year_group()) == Some(y@),
            None => regex_named_capture(date_pattern(), text@, year_group()) is None,
        }),
        // the same, with the date pattern and the group written out as the
        // regular expression engine receives them
        !regex_accepts(r"(?P<year>\d{4})-(?P<month>\d{2})-(?P<day>\d{2})"@) ==> year is Err,
        regex_accepts(r"(?P<year>\d{4})-(?P<month>\d{2})-(?P<day>\d{2})"@) ==> (year matches Ok(
            found,
        ) && match found {
            Some(y) => regex_named_capture(
                r"(?P<year>\d{4})-(?P<month>\d{2})-(?P<day>\d{2})"@,
                text@,
                "year"@,
            ) == Some(y@),
            None => regex_named_capture(
                r"(?P<year>\d{4})-(?P<month>\d{2})-(?P<day>\d{2})"@,
                text@,
                "year"@,
            ) is None,
        }),
        year matches Ok(Some(y)) ==> exists|i: int, j: int|
            0 <= i <= j <= text@.len() && y@ == text@.subrange(i, j),
{
    let pattern = r"(?P<year>\d{4})-(?P<month>\d{2})-(?P<day>\d{2})";
    if !pattern_compiles(pattern) {
        return Err(PatternError::Refused);
    }
    Ok(first_named_capture(pattern, text, "year"))
}

/// What the date program prints for a search result: the year, or `Not found`.
pub fn year_report(found: Option<String>) -> (line: String)
    ensures
        found matches Some(y) ==> line@ == y@,
        found is None ==> line@ == "Not found"@,
{
    match found {
        Some(y) => y,
        None => String::from_str("Not found"),
    }
}

} // verus!
