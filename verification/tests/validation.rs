//! End-to-end tests: the builder driven against an in-memory set of files,
//! as a host reading a real directory would drive it.

use gradetree::builder::{Builder, FileEvent, Step};
use gradetree::credits::Credits;
use gradetree::messages::{to_validation_result, ValidationResult};

/// Drive a whole validation run, answering each request out of `files`.
fn validate(run_path: &str, files: &[(&str, &str)]) -> ValidationResult {
    let mut builder = Builder::new(run_path.to_string());
    let mut path = run_path.to_string();
    loop {
        let ev = match files.iter().find(|(p, _)| *p == path) {
            Some((_, text)) => FileEvent::Content { text: text.to_string() },
            None => FileEvent::Missing,
        };
        match builder.step(ev) {
            Step::Done { result } => return to_validation_result(result),
            Step::Next { builder: b, kind: _, path: p } => {
                builder = b;
                path = p;
            },
        }
    }
}

#[test]
fn example_end_to_end() {
    let r = validate(
        "run.txt",
        &[
            ("run.txt", "Fall2024\nmath.grp"),
            ("math.grp", "MathDept\nalg1.sec"),
            ("alg1.sec", "Algebra1 3\n\"Doe, Jane\",\"12345\",\"A\""),
        ],
    );
    assert!(r.valid);
    assert_eq!(r.message, "All files exist and are valid.");
    let tree = r.contents.unwrap();
    assert_eq!(tree.name, "Fall2024");
    assert_eq!(tree.groups.len(), 1);
    let group = &tree.groups[0];
    assert_eq!(group.name, "MathDept");
    assert_eq!(group.sections.len(), 1);
    let section = &group.sections[0];
    assert_eq!(section.name, "Algebra1");
    assert_eq!(section.num_credits, Credits { mantissa: 3, scale: 0 });
    assert_eq!(section.students.len(), 1);
    let student = &section.students[0];
    assert_eq!(student.name, "Doe, Jane");
    assert_eq!(student.id, "12345");
    assert_eq!(student.grade, "A");
}

#[test]
fn references_resolve_against_run_directory() {
    let r = validate(
        "campus/run.txt",
        &[
            ("campus/run.txt", "Fall2024\nmath.grp"),
            ("campus/math.grp", "MathDept\nalg1.sec"),
            ("campus/alg1.sec", "Algebra1 3"),
        ],
    );
    assert!(r.valid);
}

#[test]
fn rerunning_unchanged_files_yields_equal_trees() {
    let files = [
        ("run.txt", "Fall2024\nmath.grp\nsci.grp"),
        ("math.grp", "MathDept\nalg1.sec"),
        ("sci.grp", "SciDept\nbio.sec"),
        ("alg1.sec", "Algebra1 3\n\"Doe, Jane\",\"12345\",\"A\""),
        ("bio.sec", "Biology 4\n\"Roe, Ann\",\"67890\",\"B\""),
    ];
    let first = validate("run.txt", &files);
    let second = validate("run.txt", &files);
    assert!(first.valid);
    assert_eq!(first, second);
}

#[test]
fn tree_order_mirrors_line_order() {
    let r = validate(
        "run.txt",
        &[
            ("run.txt", "Fall2024\nb.grp\na.grp"),
            ("b.grp", "Beta\nz.sec\ny.sec"),
            ("a.grp", "Alpha\nx.sec"),
            ("z.sec", "Zulu 1\n\"S1\",\"1\",\"A\"\n\"S2\",\"2\",\"B\""),
            ("y.sec", "Yankee 2"),
            ("x.sec", "Xray 3"),
        ],
    );
    assert!(r.valid);
    let tree = r.contents.unwrap();
    assert_eq!(tree.groups.len(), 2);
    assert_eq!(tree.groups[0].name, "Beta");
    assert_eq!(tree.groups[1].name, "Alpha");
    assert_eq!(tree.groups[0].sections.len(), 2);
    assert_eq!(tree.groups[0].sections[0].name, "Zulu");
    assert_eq!(tree.groups[0].sections[1].name, "Yankee");
    let students = &tree.groups[0].sections[0].students;
    assert_eq!(students.len(), 2);
    assert_eq!(students[0].name, "S1");
    assert_eq!(students[1].name, "S2");
}

#[test]
fn crlf_line_endings_parse_alike() {
    let r = validate(
        "run.txt",
        &[
            ("run.txt", "Fall2024\r\nmath.grp\r\n"),
            ("math.grp", "MathDept\r\nalg1.sec\r\n"),
            ("alg1.sec", "Algebra1 3\r\n\"Doe, Jane\",\"12345\",\"A\"\r\n"),
        ],
    );
    assert!(r.valid);
    let tree = r.contents.unwrap();
    assert_eq!(tree.name, "Fall2024");
    assert_eq!(tree.groups[0].sections[0].students[0].name, "Doe, Jane");
}

#[test]
fn references_may_name_subdirectories() {
    let r = validate(
        "campus/run.txt",
        &[
            ("campus/run.txt", "Fall2024\ngroups/math.grp"),
            ("campus/groups/math.grp", "MathDept\nsections/alg1.sec"),
            ("campus/sections/alg1.sec", "Algebra1 3"),
        ],
    );
    assert!(r.valid);
}

#[test]
fn empty_run_file_is_invalid() {
    let r = validate("run.txt", &[("run.txt", "")]);
    assert!(!r.valid);
    assert!(r.contents.is_none());
    assert_eq!(r.message, "RUN file is empty");
}

#[test]
fn empty_grp_file_is_invalid() {
    let r = validate(
        "run.txt",
        &[("run.txt", "Fall2024\nmath.grp"), ("math.grp", "")],
    );
    assert!(!r.valid);
    assert_eq!(r.message, "GRP file math.grp is empty");
}

#[test]
fn empty_sec_file_is_invalid() {
    let r = validate(
        "run.txt",
        &[
            ("run.txt", "Fall2024\nmath.grp"),
            ("math.grp", "MathDept\nalg1.sec"),
            ("alg1.sec", ""),
        ],
    );
    assert!(!r.valid);
    assert_eq!(r.message, "SEC file alg1.sec is empty");
}

#[test]
fn run_with_only_a_name_is_a_valid_empty_tree() {
    let r = validate("run.txt", &[("run.txt", "Fall2024")]);
    assert!(r.valid);
    let tree = r.contents.unwrap();
    assert_eq!(tree.name, "Fall2024");
    assert_eq!(tree.groups.len(), 0);
}

#[test]
fn missing_grp_file_names_the_resolved_path() {
    let r = validate("campus/run.txt", &[("campus/run.txt", "Fall2024\nmath.grp")]);
    assert!(!r.valid);
    assert_eq!(r.message, "Missing .GRP File: campus/math.grp");
}

#[test]
fn missing_sec_file_names_the_resolved_path() {
    let r = validate(
        "campus/run.txt",
        &[
            ("campus/run.txt", "Fall2024\nmath.grp"),
            ("campus/math.grp", "MathDept\nalg1.sec"),
        ],
    );
    assert!(!r.valid);
    assert_eq!(r.message, "Missing .SEC File: campus/alg1.sec");
}

#[test]
fn missing_file_stops_before_later_references() {
    // The second GRP reference is missing; the third names a file whose
    // text could never parse, and the run must never reach it.
    let r = validate(
        "run.txt",
        &[
            ("run.txt", "Fall2024\na.grp\nmissing.grp\nbroken.grp"),
            ("a.grp", "Alpha"),
            ("broken.grp", ""),
        ],
    );
    assert!(!r.valid);
    assert_eq!(r.message, "Missing .GRP File: missing.grp");
}

#[test]
fn missing_sec_stops_before_sibling_grp() {
    let r = validate(
        "run.txt",
        &[
            ("run.txt", "Fall2024\na.grp\nb.grp"),
            ("a.grp", "Alpha\ngone.sec"),
            ("b.grp", ""),
        ],
    );
    assert!(!r.valid);
    assert_eq!(r.message, "Missing .SEC File: gone.sec");
}

#[test]
fn blank_reference_line_fails_resolution() {
    let r = validate("campus/run.txt", &[("campus/run.txt", "Fall2024\n")]);
    // A lone name with a trailing newline has no reference lines at all.
    assert!(r.valid);

    let r = validate("campus/run.txt", &[("campus/run.txt", "Fall2024\n\nx.grp")]);
    assert!(!r.valid);
    assert_eq!(r.message, "Missing .GRP File: campus/");
}

#[test]
fn non_numeric_credits_is_invalid_header() {
    let r = validate(
        "run.txt",
        &[
            ("run.txt", "Fall2024\nmath.grp"),
            ("math.grp", "MathDept\nalg1.sec"),
            ("alg1.sec", "Algebra I threeCredits"),
        ],
    );
    assert!(!r.valid);
    assert_eq!(
        r.message,
        "Invalid number of credits in SEC file alg1.sec: threeCredits"
    );
}

#[test]
fn single_token_header_is_missing_credits() {
    let r = validate(
        "run.txt",
        &[
            ("run.txt", "Fall2024\nmath.grp"),
            ("math.grp", "MathDept\nalg1.sec"),
            ("alg1.sec", "Algebra1"),
        ],
    );
    assert!(!r.valid);
    assert_eq!(r.message, "Invalid SEC file format alg1.sec: Missing credits");
}

#[test]
fn whitespace_only_header_is_missing_name() {
    let r = validate(
        "run.txt",
        &[
            ("run.txt", "Fall2024\nmath.grp"),
            ("math.grp", "MathDept\nalg1.sec"),
            ("alg1.sec", "   "),
        ],
    );
    assert!(!r.valid);
    assert_eq!(r.message, "Invalid SEC file format alg1.sec: Missing section name");
}

#[test]
fn malformed_student_line_reports_its_line_number() {
    let r = validate(
        "run.txt",
        &[
            ("run.txt", "Fall2024\nmath.grp"),
            ("math.grp", "MathDept\nalg1.sec"),
            ("alg1.sec", "Algebra1 3\n\"Doe, Jane\",\"12345\",\"A\"\n\"Doe, Jane\",\"12345\""),
        ],
    );
    assert!(!r.valid);
    assert_eq!(
        r.message,
        "Invalid student data in SEC file alg1.sec line 3: \"Doe, Jane\",\"12345\""
    );
}

#[test]
fn malformed_line_number_with_two_digits() {
    let mut sec = String::from("Algebra1 3");
    for i in 0..10 {
        sec.push_str(&format!("\n\"Student{}\",\"{}\",\"A\"", i, i));
    }
    sec.push_str("\nbroken line");
    let r = validate(
        "run.txt",
        &[
            ("run.txt", "Fall2024\nmath.grp"),
            ("math.grp", "MathDept\nalg1.sec"),
            ("alg1.sec", sec.as_str()),
        ],
    );
    assert!(!r.valid);
    assert_eq!(
        r.message,
        "Invalid student data in SEC file alg1.sec line 12: broken line"
    );
}

#[test]
fn run_path_without_parent_is_an_error() {
    let r = validate("/", &[("/", "Fall2024\nmath.grp")]);
    assert!(!r.valid);
    assert_eq!(r.message, "Error getting parent directory of RUN file");
}

#[test]
fn missing_run_file_is_a_read_error() {
    let r = validate("run.txt", &[]);
    assert!(!r.valid);
    assert_eq!(r.message, "Error reading RUN file: file not found");
}

#[test]
fn unreadable_grp_file_reports_the_cause() {
    let mut builder = Builder::new("run.txt".to_string());
    let step = builder.step(FileEvent::Content { text: "Fall2024\nmath.grp".to_string() });
    let next = match step {
        Step::Next { builder: b, kind: _, path } => {
            assert_eq!(path, "math.grp");
            b
        },
        Step::Done { .. } => panic!("expected a GRP request"),
    };
    builder = next;
    let step = builder.step(FileEvent::Unreadable { cause: "permission denied".to_string() });
    match step {
        Step::Done { result } => {
            let r = to_validation_result(result);
            assert!(!r.valid);
            assert_eq!(r.message, "Error reading GRP file math.grp: permission denied");
        },
        Step::Next { .. } => panic!("expected the run to end"),
    }
}
