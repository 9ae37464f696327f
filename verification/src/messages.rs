//! Human-readable reports: the decimal rendering of a line number, the
//! message describing each structural fault, and the result value handed to
//! the caller — valid with the tree, or invalid with the first fault's
//! message.

use vstd::prelude::*;
use crate::records::{HeaderFaultModel, RunFile};
use crate::builder::{FileKind, ValidationError, ValidationErrorModel};

verus! {

/// The character of one decimal digit.
pub open spec fn digit_char(d: nat) -> char {
    if d == 0 {
        '0'
    } else if d == 1 {
        '1'
    } else if d == 2 {
        '2'
    } else if d == 3 {
        '3'
    } else if d == 4 {
        '4'
    } else if d == 5 {
        '5'
    } else if d == 6 {
        '6'
    } else if d == 7 {
        '7'
    } else if d == 8 {
        '8'
    } else {
        '9'
    }
}

/// The decimal digits of `n`, most significant first.
pub open spec fn spec_digits(n: nat) -> Seq<char>
    decreases n,
{
    if n < 10 {
        seq![digit_char(n)]
    } else {
        spec_digits(n / 10).push(digit_char(n % 10))
    }
}

/// One decimal digit as a string.
fn digit_str(d: usize) -> (r: &'static str)
    requires
        d < 10,
    ensures
        r@ == seq![digit_char(d as nat)],
{
    if d == 0 {
        proof {
            reveal_strlit("0");
            assert(("0")@ =~= seq!['0']);
        }
        "0"
    } else if d == 1 {
        proof {
            reveal_strlit("1");
            assert(("1")@ =~= seq!['1']);
        }
        "1"
    } else if d == 2 {
        proof {
            reveal_strlit("2");
            assert(("2")@ =~= seq!['2']);
        }
        "2"
    } else if d == 3 {
        proof {
            reveal_strlit("3");
            assert(("3")@ =~= seq!['3']);
        }
        "3"
    } else if d == 4 {
        proof {
            reveal_strlit("4");
            assert(("4")@ =~= seq!['4']);
        }
        "4"
    } else if d == 5 {
        proof {
            reveal_strlit("5");
            assert(("5")@ =~= seq!['5']);
        }
        "5"
    } else if d == 6 {
        proof {
            reveal_strlit("6");
            assert(("6")@ =~= seq!['6']);
        }
        "6"
    } else if d == 7 {
        proof {
            reveal_strlit("7");
            assert(("7")@ =~= seq!['7']);
        }
        "7"
    } else if d == 8 {
        proof {
            reveal_strlit("8");
            assert(("8")@ =~= seq!['8']);
        }
        "8"
    } else {
        proof {
            reveal_strlit("9");
            assert(("9")@ =~= seq!['9']);
        }
        "9"
    }
}

/// Render `x` in decimal.
pub fn fmt_usize(x: usize) -> (r: String)
    ensures
        r@ == spec_digits(x as nat),
    decreases x,
{
    if x < 10 {
        return digit_str(x).to_owned();
    }
    let mut s = fmt_usize(x / 10);
    s.append(digit_str(x % 10));
    proof {
        assert(spec_digits((x as nat) / 10).push(digit_char((x as nat) % 10)) =~= spec_digits(
            (x as nat) / 10,
        ) + seq![digit_char((x as nat) % 10)]);
    }
    s
}

/// The message describing a structural fault, naming the resolved path of
/// the offending file where one applies.
pub open spec fn spec_message(e: ValidationErrorModel) -> Seq<char> {
    match e {
        ValidationErrorModel::FileReadError { kind, path, cause } => match kind {
            FileKind::Run => "Error reading RUN file: "@ + cause,
            FileKind::Grp => "Error reading GRP file "@ + path + ": "@ + cause,
            FileKind::Sec => "Error reading SEC file "@ + path + ": "@ + cause,
        },
        ValidationErrorModel::EmptyFile { kind, path } => match kind {
            FileKind::Run => "RUN file is empty"@,
            FileKind::Grp => "GRP file "@ + path + " is empty"@,
            FileKind::Sec => "SEC file "@ + path + " is empty"@,
        },
        ValidationErrorModel::NoParentDir { path: _ } => {
            "Error getting parent directory of RUN file"@
        },
        ValidationErrorModel::MissingReferencedFile { kind, path } => match kind {
            FileKind::Run => "Missing file: "@ + path,
            FileKind::Grp => "Missing .GRP File: "@ + path,
            FileKind::Sec => "Missing .SEC File: "@ + path,
        },
        ValidationErrorModel::InvalidSectionHeader { path, fault } => match fault {
            HeaderFaultModel::MissingName => {
                "Invalid SEC file format "@ + path + ": Missing section name"@
            },
            HeaderFaultModel::MissingCredits => {
                "Invalid SEC file format "@ + path + ": Missing credits"@
            },
            HeaderFaultModel::InvalidCredits { token } => {
                "Invalid number of credits in SEC file "@ + path + ": "@ + token
            },
        },
        ValidationErrorModel::MalformedStudentLine { path, line_number, raw_text } => {
            "Invalid student data in SEC file "@ + path + " line "@ + spec_digits(line_number)
                + ": "@ + raw_text
        },
    }
}

/// Render the message of a structural fault.
pub fn message(e: &ValidationError) -> (r: String)
    ensures
        r@ == spec_message(e@),
{
    match e {
        ValidationError::FileReadError { kind, path, cause } => match kind {
            FileKind::Run => "Error reading RUN file: ".to_owned().concat(cause.as_str()),
            FileKind::Grp => "Error reading GRP file ".to_owned().concat(path.as_str()).concat(
                ": ",
            ).concat(cause.as_str()),
            FileKind::Sec => "Error reading SEC file ".to_owned().concat(path.as_str()).concat(
                ": ",
            ).concat(cause.as_str()),
        },
        ValidationError::EmptyFile { kind, path } => match kind {
            FileKind::Run => "RUN file is empty".to_owned(),
            FileKind::Grp => "GRP file ".to_owned().concat(path.as_str()).concat(" is empty"),
            FileKind::Sec => "SEC file ".to_owned().concat(path.as_str()).concat(" is empty"),
        },
        ValidationError::NoParentDir { path: _ } => {
            "Error getting parent directory of RUN file".to_owned()
        },
        ValidationError::MissingReferencedFile { kind, path } => match kind {
            FileKind::Run => "Missing file: ".to_owned().concat(path.as_str()),
            FileKind::Grp => "Missing .GRP File: ".to_owned().concat(path.as_str()),
            FileKind::Sec => "Missing .SEC File: ".to_owned().concat(path.as_str()),
        },
        ValidationError::InvalidSectionHeader { path, fault } => match fault {
            crate::records::HeaderFault::MissingName => {
                "Invalid SEC file format ".to_owned().concat(path.as_str()).concat(
                    ": Missing section name",
                )
            },
            crate::records::HeaderFault::MissingCredits => {
                "Invalid SEC file format ".to_owned().concat(path.as_str()).concat(
                    ": Missing credits",
                )
            },
            crate::records::HeaderFault::InvalidCredits { token } => {
                "Invalid number of credits in SEC file ".to_owned().concat(path.as_str()).concat(
                    ": ",
                ).concat(token.as_str())
            },
        },
        ValidationError::MalformedStudentLine { path, line_number, raw_text } => {
            "Invalid student data in SEC file ".to_owned().concat(path.as_str()).concat(
                " line ",
            ).concat(fmt_usize(*line_number).as_str()).concat(": ").concat(raw_text.as_str())
        },
    }
}

/// The caller-facing outcome: valid with the tree, or invalid with the
/// first fault's message.
#[derive(Debug, Clone, PartialEq)]
pub struct ValidationResult {
    pub valid: bool,
    pub message: String,
    pub contents: Option<RunFile>,
}

/// Wrap the outcome of a validation run for the caller.
pub fn to_validation_result(r: Result<RunFile, ValidationError>) -> (res: ValidationResult)
    ensures
        res.valid <==> r is Ok,
        r matches Ok(t) ==> res.contents matches Some(c) && c == t && res.message@
            == "All files exist and are valid."@,
        r matches Err(e) ==> res.contents is None && res.message@ == spec_message(e@),
{
    match r {
        Ok(t) => ValidationResult {
            valid: true,
            message: "All files exist and are valid.".to_owned(),
            contents: Some(t),
        },
        Err(e) => {
            let msg = message(&e);
            ValidationResult { valid: false, message: msg, contents: None }
        },
    }
}

} // verus!
