//! The record types of the tree — run, group, section, student — with their
//! spec-level models, and the parsers for the three file kinds.  Each parser
//! is specified exactly against a spec-level parse function over the file's
//! characters.

use vstd::prelude::*;
use crate::text::{
    str_views, spec_lines, spec_split_ws, spec_split_record, spec_trim, split_lines, split_ws,
    split_record, trim_quotes_commas,
};
use crate::credits::{Credits, is_decimal_token, token_mantissa, token_scale, parse_credits};

verus! {

/// One student row of a section roster.
#[derive(Debug, Clone, PartialEq)]
pub struct Student {
    pub name: String,
    pub id: String,
    pub grade: String,
}

/// The model of a student: its three fields as character sequences.
pub struct StudentModel {
    pub name: Seq<char>,
    pub id: Seq<char>,
    pub grade: Seq<char>,
}

impl View for Student {
    type V = StudentModel;

    open spec fn view(&self) -> StudentModel {
        StudentModel { name: self.name@, id: self.id@, grade: self.grade@ }
    }
}

/// The models of every student in a sequence.
pub open spec fn student_views(q: Seq<Student>) -> Seq<StudentModel> {
    q.map_values(|s: Student| s@)
}

/// One section: its name, its credit count, and its roster in file order.
#[derive(Debug, Clone, PartialEq)]
pub struct Section {
    pub name: String,
    pub num_credits: Credits,
    pub students: Vec<Student>,
}

/// The model of a section; the credit count appears as its exact mantissa
/// and scale.
pub struct SectionModel {
    pub name: Seq<char>,
    pub mantissa: nat,
    pub scale: nat,
    pub students: Seq<StudentModel>,
}

impl View for Section {
    type V = SectionModel;

    open spec fn view(&self) -> SectionModel {
        SectionModel {
            name: self.name@,
            mantissa: self.num_credits.mantissa as nat,
            scale: self.num_credits.scale as nat,
            students: student_views(self.students@),
        }
    }
}

/// The models of every section in a sequence.
pub open spec fn section_views(q: Seq<Section>) -> Seq<SectionModel> {
    q.map_values(|s: Section| s@)
}

/// One group: its name and its sections in file order.
#[derive(Debug, Clone, PartialEq)]
pub struct Group {
    pub name: String,
    pub sections: Vec<Section>,
}

/// The model of a group.
pub struct GroupModel {
    pub name: Seq<char>,
    pub sections: Seq<SectionModel>,
}

impl View for Group {
    type V = GroupModel;

    open spec fn view(&self) -> GroupModel {
        GroupModel { name: self.name@, sections: section_views(self.sections@) }
    }
}

/// The models of every group in a sequence.
pub open spec fn group_views(q: Seq<Group>) -> Seq<GroupModel> {
    q.map_values(|g: Group| g@)
}

/// The whole run: its name and its groups in file order.
#[derive(Debug, Clone, PartialEq)]
pub struct RunFile {
    pub name: String,
    pub groups: Vec<Group>,
}

/// The model of a run.
pub struct RunModel {
    pub name: Seq<char>,
    pub groups: Seq<GroupModel>,
}

impl View for RunFile {
    type V = RunModel;

    open spec fn view(&self) -> RunModel {
        RunModel { name: self.name@, groups: group_views(self.groups@) }
    }
}

/// The header shared by RUN and GRP files: the first line names the run or
/// group, every later line references another file.
#[derive(Debug, Clone, PartialEq)]
pub struct Header {
    pub name: String,
    pub refs: Vec<String>,
}

/// The model of a header.
pub struct HeaderModel {
    pub name: Seq<char>,
    pub refs: Seq<Seq<char>>,
}

impl View for Header {
    type V = HeaderModel;

    open spec fn view(&self) -> HeaderModel {
        HeaderModel { name: self.name@, refs: str_views(self.refs@) }
    }
}

/// What went wrong inside a SEC file's header line.
#[derive(Debug, Clone, PartialEq)]
pub enum HeaderFault {
    /// The header line has no token at all.
    MissingName,
    /// The header line has a name but no credit token after it.
    MissingCredits,
    /// The credit token is not a well-formed decimal.
    InvalidCredits { token: String },
}

/// The model of a header fault.
pub enum HeaderFaultModel {
    MissingName,
    MissingCredits,
    InvalidCredits { token: Seq<char> },
}

impl View for HeaderFault {
    type V = HeaderFaultModel;

    open spec fn view(&self) -> HeaderFaultModel {
        match self {
            HeaderFault::MissingName => HeaderFaultModel::MissingName,
            HeaderFault::MissingCredits => HeaderFaultModel::MissingCredits,
            HeaderFault::InvalidCredits { token } => HeaderFaultModel::InvalidCredits {
                token: token@,
            },
        }
    }
}

/// What went wrong inside a SEC file.
#[derive(Debug, Clone, PartialEq)]
pub enum SectionError {
    /// The file has no lines at all.
    Empty,
    /// The header line is faulty.
    BadHeader { fault: HeaderFault },
    /// A student line did not split into exactly three fields.  The line
    /// number is 1-based within the SEC file, the header counting as line 1.
    BadStudentLine { line_number: usize, raw_text: String },
}

/// The model of a section error.
pub enum SectionErrorModel {
    Empty,
    BadHeader { fault: HeaderFaultModel },
    BadStudentLine { line_number: nat, raw_text: Seq<char> },
}

impl View for SectionError {
    type V = SectionErrorModel;

    open spec fn view(&self) -> SectionErrorModel {
        match self {
            SectionError::Empty => SectionErrorModel::Empty,
            SectionError::BadHeader { fault } => SectionErrorModel::BadHeader { fault: fault@ },
            SectionError::BadStudentLine { line_number, raw_text } => {
                SectionErrorModel::BadStudentLine {
                    line_number: line_number as nat,
                    raw_text: raw_text@,
                }
            },
        }
    }
}

/// A student line is well formed when it splits into exactly three fields.
pub open spec fn student_line_ok(line: Seq<char>) -> bool {
    spec_split_record(line).len() == 3
}

/// The student read from a well-formed line: each of the three fields with
/// leading and trailing quotes and commas removed.
pub open spec fn spec_student_of(line: Seq<char>) -> StudentModel {
    let parts = spec_split_record(line);
    StudentModel { name: spec_trim(parts[0]), id: spec_trim(parts[1]), grade: spec_trim(parts[2]) }
}

/// The students read from a run of lines whose first line is file line
/// `base`, or the file line number and text of the first malformed line.
pub open spec fn spec_parse_students(lines: Seq<Seq<char>>, base: nat) -> Result<
    Seq<StudentModel>,
    (nat, Seq<char>),
>
    decreases lines.len(),
{
    if lines.len() == 0 {
        Ok(Seq::empty())
    } else if !student_line_ok(lines[0]) {
        Err((base, lines[0]))
    } else {
        match spec_parse_students(lines.skip(1), base + 1) {
            Ok(rest) => Ok(seq![spec_student_of(lines[0])] + rest),
            Err(e) => Err(e),
        }
    }
}

/// The header read from a RUN or GRP file: its first line is the name, the
/// rest are references in file order; an empty file has no header.
pub open spec fn spec_parse_header(text: Seq<char>) -> Option<HeaderModel> {
    let ls = spec_lines(text);
    if ls.len() == 0 {
        None
    } else {
        Some(HeaderModel { name: ls[0], refs: ls.skip(1) })
    }
}

/// The section read from a SEC file, or its first structural fault: the
/// first line yields the name (first token) and the credit count (last
/// token, a decimal); every later line yields one student.
pub open spec fn spec_parse_section(text: Seq<char>) -> Result<SectionModel, SectionErrorModel> {
    let ls = spec_lines(text);
    if ls.len() == 0 {
        Err(SectionErrorModel::Empty)
    } else {
        let toks = spec_split_ws(ls[0]);
        if toks.len() == 0 {
            Err(SectionErrorModel::BadHeader { fault: HeaderFaultModel::MissingName })
        } else if toks.len() == 1 {
            Err(SectionErrorModel::BadHeader { fault: HeaderFaultModel::MissingCredits })
        } else if !(is_decimal_token(toks.last()) && token_mantissa(toks.last()) <= u64::MAX) {
            Err(
                SectionErrorModel::BadHeader {
                    fault: HeaderFaultModel::InvalidCredits { token: toks.last() },
                },
            )
        } else {
            match spec_parse_students(ls.skip(1), 2) {
                Ok(ss) => Ok(
                    SectionModel {
                        name: toks[0],
                        mantissa: token_mantissa(toks.last()),
                        scale: token_scale(toks.last()),
                        students: ss,
                    },
                ),
                Err((ln, raw)) => Err(
                    SectionErrorModel::BadStudentLine { line_number: ln, raw_text: raw },
                ),
            }
        }
    }
}

/// Parse one student line.
pub fn parse_student_line(line: &str) -> (r: Option<Student>)
    ensures
        r is Some <==> student_line_ok(line@),
        r matches Some(st) ==> st@ == spec_student_of(line@),
{
    let parts = split_record(line);
    if parts.len() != 3 {
        return None;
    }
    let name = trim_quotes_commas(parts[0].as_str());
    let id = trim_quotes_commas(parts[1].as_str());
    let grade = trim_quotes_commas(parts[2].as_str());
    Some(Student { name, id, grade })
}

/// Parse the header of a RUN or GRP file.
fn parse_header(text: &str) -> (r: Option<Header>)
    ensures
        r is Some <==> spec_parse_header(text@) is Some,
        r matches Some(h) ==> spec_parse_header(text@) == Some(h@),
{
    let ls = split_lines(text);
    if ls.len() == 0 {
        return None;
    }
    let name = ls[0].clone();
    let mut refs: Vec<String> = Vec::new();
    let mut i: usize = 1;
    proof {
        assert(str_views(refs@) =~= str_views(ls@).skip(1).take(0));
    }
    while i < ls.len()
        invariant
            1 <= i <= ls.len(),
            str_views(refs@) == str_views(ls@).skip(1).take(i - 1),
        decreases ls.len() - i,
    {
        let line = ls[i].clone();
        proof {
            assert(str_views(refs@.push(line)) =~= str_views(refs@).push(line@));
            assert(str_views(ls@).skip(1).take(i as int) =~= str_views(ls@).skip(1).take(i - 1).push(
                str_views(ls@)[i as int],
            ));
        }
        refs.push(line);
        i = i + 1;
    }
    proof {
        assert(str_views(ls@).skip(1).take(ls@.len() - 1) =~= str_views(ls@).skip(1));
    }
    Some(Header { name, refs })
}

/// Parse the text of a RUN file into its name and GRP references.
pub fn parse_run_header(text: &str) -> (r: Option<Header>)
    ensures
        r is Some <==> spec_parse_header(text@) is Some,
        r matches Some(h) ==> spec_parse_header(text@) == Some(h@),
{
    parse_header(text)
}

/// Parse the text of a GRP file into its name and SEC references.
pub fn parse_group_header(text: &str) -> (r: Option<Header>)
    ensures
        r is Some <==> spec_parse_header(text@) is Some,
        r matches Some(h) ==> spec_parse_header(text@) == Some(h@),
{
    parse_header(text)
}

/// Parse the text of a SEC file into a section, or its first fault.
pub fn parse_section(text: &str) -> (r: Result<Section, SectionError>)
    ensures
        r matches Ok(sec) ==> spec_parse_section(text@) == Ok::<SectionModel, SectionErrorModel>(
            sec@,
        ),
        r matches Err(e) ==> spec_parse_section(text@) == Err::<SectionModel, SectionErrorModel>(
            e@,
        ),
{
    let ls = split_lines(text);
    if ls.len() == 0 {
        return Err(SectionError::Empty);
    }
    let toks = split_ws(ls[0].as_str());
    if toks.len() == 0 {
        return Err(SectionError::BadHeader { fault: HeaderFault::MissingName });
    }
    if toks.len() == 1 {
        return Err(SectionError::BadHeader { fault: HeaderFault::MissingCredits });
    }
    let last_tok = &toks[toks.len() - 1];
    proof {
        assert(str_views(toks@)[toks@.len() - 1] == last_tok@);
        assert(str_views(toks@).last() == last_tok@);
    }
    let credits = match parse_credits(last_tok.as_str()) {
        Some(c) => c,
        None => {
            return Err(
                SectionError::BadHeader {
                    fault: HeaderFault::InvalidCredits { token: last_tok.clone() },
                },
            );
        },
    };
    let name = toks[0].clone();
    let ghost lines = str_views(ls@);
    let mut students: Vec<Student> = Vec::new();
    let mut i: usize = 1;
    proof {
        assert(lines.skip(1) =~= lines.skip(1));
        assert(student_views(students@) =~= Seq::<StudentModel>::empty());
        match spec_parse_students(lines.skip(1), 2) {
            Ok(rest) => {
                assert(student_views(students@) + rest =~= rest);
            },
            Err(_) => {},
        }
    }
    while i < ls.len()
        invariant
            1 <= i <= ls.len(),
            lines == str_views(ls@),
            lines == spec_lines(text@),
            lines.len() > 0,
            str_views(toks@) == spec_split_ws(lines[0]),
            toks@.len() >= 2,
            is_decimal_token(str_views(toks@).last()),
            token_mantissa(str_views(toks@).last()) <= u64::MAX,
            spec_parse_students(lines.skip(1), 2) == match spec_parse_students(
                lines.skip(i as int),
                (i + 1) as nat,
            ) {
                Ok(rest) => Ok::<Seq<StudentModel>, (nat, Seq<char>)>(
                    student_views(students@) + rest,
                ),
                Err(e) => Err::<Seq<StudentModel>, (nat, Seq<char>)>(e),
            },
        decreases ls.len() - i,
    {
        proof {
            assert(lines.skip(i as int)[0] == lines[i as int]);
            assert(lines.skip(i as int).skip(1) =~= lines.skip(i + 1));
        }
        match parse_student_line(ls[i].as_str()) {
            Some(st) => {
                proof {
                    assert(student_views(students@.push(st)) =~= student_views(students@).push(
                        st@,
                    ));
                    match spec_parse_students(lines.skip(i + 1), (i + 2) as nat) {
                        Ok(rest) => {
                            assert(student_views(students@) + (seq![st@] + rest) =~= (student_views(
                                students@,
                            ).push(st@)) + rest);
                        },
                        Err(_) => {},
                    }
                }
                students.push(st);
            },
            None => {
                return Err(
                    SectionError::BadStudentLine { line_number: i + 1, raw_text: ls[i].clone() },
                );
            },
        }
        i = i + 1;
    }
    proof {
        assert(lines.skip(ls@.len() as int) =~= Seq::<Seq<char>>::empty());
        match spec_parse_students(lines.skip(1), 2) {
            Ok(rest) => {
                assert(student_views(students@) + Seq::<StudentModel>::empty() =~= student_views(
                    students@,
                ));
            },
            Err(_) => {},
        }
    }
    Ok(Section { name, num_credits: credits, students })
}

} // verus!
