//! Tests of the text utilities and the record parsers.

use gradetree::credits::{parse_credits, Credits};
use gradetree::paths::{parent_dir, resolve};
use gradetree::records::{
    parse_group_header, parse_run_header, parse_section, parse_student_line, HeaderFault,
    SectionError,
};
use gradetree::text::{split_lines, split_record, split_ws, trim_quotes_commas};

#[test]
fn lines_split_at_newlines() {
    assert_eq!(split_lines("a\nb\nc"), vec!["a", "b", "c"]);
}

#[test]
fn lines_strip_carriage_returns() {
    assert_eq!(split_lines("a\r\nb\r\n"), vec!["a", "b"]);
}

#[test]
fn final_newline_adds_no_line() {
    assert_eq!(split_lines("a\n"), vec!["a"]);
    assert_eq!(split_lines("\n"), vec![""]);
}

#[test]
fn empty_text_has_no_lines() {
    assert_eq!(split_lines(""), Vec::<String>::new());
}

#[test]
fn blank_lines_are_kept() {
    assert_eq!(split_lines("a\n\nb"), vec!["a", "", "b"]);
}

#[test]
fn whitespace_tokens() {
    assert_eq!(split_ws("Algebra1 3"), vec!["Algebra1", "3"]);
    assert_eq!(split_ws("  a \t b  "), vec!["a", "b"]);
    assert_eq!(split_ws("   "), Vec::<String>::new());
    assert_eq!(split_ws(""), Vec::<String>::new());
}

#[test]
fn record_split_on_quote_comma_quote() {
    assert_eq!(split_record("\"Doe, Jane\",\"12345\",\"A\""), vec!["\"Doe, Jane", "12345", "A\""]);
    assert_eq!(split_record("no separator"), vec!["no separator"]);
    assert_eq!(split_record(""), vec![""]);
}

#[test]
fn trim_strips_quotes_and_commas_both_ends() {
    assert_eq!(trim_quotes_commas("\"Doe, Jane"), "Doe, Jane");
    assert_eq!(trim_quotes_commas("A\""), "A");
    assert_eq!(trim_quotes_commas(",,\"x\",,"), "x");
    assert_eq!(trim_quotes_commas("\",\""), "");
}

#[test]
fn credits_plain_integer() {
    assert_eq!(parse_credits("3"), Some(Credits { mantissa: 3, scale: 0 }));
}

#[test]
fn credits_with_fraction() {
    assert_eq!(parse_credits("3.5"), Some(Credits { mantissa: 35, scale: 1 }));
    assert_eq!(parse_credits(".5"), Some(Credits { mantissa: 5, scale: 1 }));
    assert_eq!(parse_credits("3."), Some(Credits { mantissa: 3, scale: 0 }));
}

#[test]
fn credits_leading_zeros() {
    assert_eq!(parse_credits("007"), Some(Credits { mantissa: 7, scale: 0 }));
    assert_eq!(parse_credits("0.25"), Some(Credits { mantissa: 25, scale: 2 }));
}

#[test]
fn credits_reject_malformed_tokens() {
    assert_eq!(parse_credits("threeCredits"), None);
    assert_eq!(parse_credits(""), None);
    assert_eq!(parse_credits("."), None);
    assert_eq!(parse_credits("1.2.3"), None);
    assert_eq!(parse_credits("-1"), None);
    assert_eq!(parse_credits("3x"), None);
}

#[test]
fn student_line_well_formed() {
    let st = parse_student_line("\"Doe, Jane\",\"12345\",\"A\"").unwrap();
    assert_eq!(st.name, "Doe, Jane");
    assert_eq!(st.id, "12345");
    assert_eq!(st.grade, "A");
}

#[test]
fn student_line_empty_fields_are_valid() {
    let st = parse_student_line("\"\",\"\",\"\"").unwrap();
    assert_eq!(st.name, "");
    assert_eq!(st.id, "");
    assert_eq!(st.grade, "");
}

#[test]
fn student_line_wrong_field_count() {
    assert!(parse_student_line("\"Doe, Jane\",\"12345\"").is_none());
    assert!(parse_student_line("\"a\",\"b\",\"c\",\"d\"").is_none());
    assert!(parse_student_line("").is_none());
}

#[test]
fn run_header_splits_name_and_refs() {
    let h = parse_run_header("Fall2024\nmath.grp\nsci.grp").unwrap();
    assert_eq!(h.name, "Fall2024");
    assert_eq!(h.refs, vec!["math.grp", "sci.grp"]);
}

#[test]
fn run_header_empty_file_fails() {
    assert!(parse_run_header("").is_none());
}

#[test]
fn group_header_splits_name_and_refs() {
    let h = parse_group_header("MathDept\nalg1.sec").unwrap();
    assert_eq!(h.name, "MathDept");
    assert_eq!(h.refs, vec!["alg1.sec"]);
}

#[test]
fn section_parses_header_and_students() {
    let sec = parse_section("Algebra1 3\n\"Doe, Jane\",\"12345\",\"A\"").unwrap();
    assert_eq!(sec.name, "Algebra1");
    assert_eq!(sec.num_credits, Credits { mantissa: 3, scale: 0 });
    assert_eq!(sec.students.len(), 1);
    assert_eq!(sec.students[0].name, "Doe, Jane");
}

#[test]
fn section_uses_first_and_last_tokens() {
    let sec = parse_section("Algebra I Honors 4.5").unwrap();
    assert_eq!(sec.name, "Algebra");
    assert_eq!(sec.num_credits, Credits { mantissa: 45, scale: 1 });
    assert_eq!(sec.students.len(), 0);
}

#[test]
fn section_empty_file() {
    assert_eq!(parse_section(""), Err(SectionError::Empty));
}

#[test]
fn section_header_missing_name() {
    assert_eq!(
        parse_section("   \n"),
        Err(SectionError::BadHeader { fault: HeaderFault::MissingName })
    );
}

#[test]
fn section_header_missing_credits() {
    assert_eq!(
        parse_section("Algebra1"),
        Err(SectionError::BadHeader { fault: HeaderFault::MissingCredits })
    );
}

#[test]
fn section_header_non_numeric_credits() {
    assert_eq!(
        parse_section("Algebra I threeCredits"),
        Err(SectionError::BadHeader {
            fault: HeaderFault::InvalidCredits { token: "threeCredits".to_string() }
        })
    );
}

#[test]
fn section_malformed_student_line_number() {
    let r = parse_section("Algebra1 3\n\"Doe, Jane\",\"12345\",\"A\"\n\"Doe, Jane\",\"12345\"");
    assert_eq!(
        r,
        Err(SectionError::BadStudentLine {
            line_number: 3,
            raw_text: "\"Doe, Jane\",\"12345\"".to_string()
        })
    );
}

#[test]
fn section_header_splits_on_unicode_whitespace() {
    let sec = parse_section("Algebra1\u{00A0}3").unwrap();
    assert_eq!(sec.name, "Algebra1");
    assert_eq!(sec.num_credits, Credits { mantissa: 3, scale: 0 });
}

#[test]
fn credits_mantissa_beyond_u64_is_rejected() {
    assert_eq!(parse_credits("99999999999999999999999"), None);
    assert_eq!(parse_credits("18446744073709551615"), Some(Credits { mantissa: u64::MAX, scale: 0 }));
}

#[test]
fn resolve_joins_with_separator() {
    assert_eq!(resolve("campus", "math.grp"), "campus/math.grp");
    assert_eq!(resolve("campus/", "math.grp"), "campus/math.grp");
    assert_eq!(resolve("", "math.grp"), "math.grp");
}

#[test]
fn resolve_of_blank_line_names_the_directory() {
    assert_eq!(resolve("campus", ""), "campus/");
    assert_eq!(resolve("", ""), "");
}

#[test]
fn parent_of_nested_path() {
    assert_eq!(parent_dir("campus/run.txt"), Some("campus".to_string()));
    assert_eq!(parent_dir("/a/b/run.txt"), Some("/a/b".to_string()));
}

#[test]
fn parent_of_bare_file_name_is_empty() {
    assert_eq!(parent_dir("run.txt"), Some("".to_string()));
}

#[test]
fn parent_of_root_and_empty_is_none() {
    assert_eq!(parent_dir("/"), None);
    assert_eq!(parent_dir(""), None);
}

#[test]
fn parent_of_file_under_root() {
    assert_eq!(parent_dir("/run.txt"), Some("/".to_string()));
}
