//! The tree builder: a state machine that descends RUN → GRP → SEC.  The
//! machine owns every decision; its host only performs the file reads.  Each
//! step consumes the outcome of one file request and either finishes — with
//! the assembled tree or the first structural fault — or hands the host the
//! next file to fetch.  A missing or faulty file ends the run at once: no
//! later reference is ever requested.

use vstd::prelude::*;
use crate::text::str_views;
use crate::records::{
    Group, GroupModel, HeaderFault, HeaderFaultModel, RunFile, RunModel, Section, SectionModel,
    SectionError, SectionErrorModel, section_views, group_views, spec_parse_header,
    spec_parse_section, parse_run_header, parse_group_header, parse_section,
};
use crate::paths::{spec_resolve, spec_parent, resolve, parent_dir};

verus! {

/// Which file kind a request or an error names.
#[derive(Debug, Clone, Copy, PartialEq, Eq, Structural)]
pub enum FileKind {
    Run,
    Grp,
    Sec,
}

/// The outcome of one file request, supplied by the host.
#[derive(Debug, Clone, PartialEq)]
pub enum FileEvent {
    /// No file exists at the requested path.
    Missing,
    /// The file could not be read; the cause in words.
    Unreadable { cause: String },
    /// The file's full text.
    Content { text: String },
}

/// The model of a file event.
pub enum FileEventModel {
    Missing,
    Unreadable { cause: Seq<char> },
    Content { text: Seq<char> },
}

impl View for FileEvent {
    type V = FileEventModel;

    open spec fn view(&self) -> FileEventModel {
        match self {
            FileEvent::Missing => FileEventModel::Missing,
            FileEvent::Unreadable { cause } => FileEventModel::Unreadable { cause: cause@ },
            FileEvent::Content { text } => FileEventModel::Content { text: text@ },
        }
    }
}

/// The first structural fault of a validation run.
#[derive(Debug, Clone, PartialEq)]
pub enum ValidationError {
    /// The file at `path` could not be read.
    FileReadError { kind: FileKind, path: String, cause: String },
    /// The file at `path` has no lines at all.
    EmptyFile { kind: FileKind, path: String },
    /// The RUN file's path has no parent directory to resolve references
    /// against.
    NoParentDir { path: String },
    /// A reference line named a file that does not exist.
    MissingReferencedFile { kind: FileKind, path: String },
    /// The SEC file at `path` has a faulty header line.
    InvalidSectionHeader { path: String, fault: HeaderFault },
    /// A student line of the SEC file at `path` did not split into exactly
    /// three fields.  The line number is 1-based, the header being line 1.
    MalformedStudentLine { path: String, line_number: usize, raw_text: String },
}

/// The model of a validation error.
pub enum ValidationErrorModel {
    FileReadError { kind: FileKind, path: Seq<char>, cause: Seq<char> },
    EmptyFile { kind: FileKind, path: Seq<char> },
    NoParentDir { path: Seq<char> },
    MissingReferencedFile { kind: FileKind, path: Seq<char> },
    InvalidSectionHeader { path: Seq<char>, fault: HeaderFaultModel },
    MalformedStudentLine { path: Seq<char>, line_number: nat, raw_text: Seq<char> },
}

impl View for ValidationError {
    type V = ValidationErrorModel;

    open spec fn view(&self) -> ValidationErrorModel {
        match self {
            ValidationError::FileReadError { kind, path, cause } => {
                ValidationErrorModel::FileReadError { kind: *kind, path: path@, cause: cause@ }
            },
            ValidationError::EmptyFile { kind, path } => {
                ValidationErrorModel::EmptyFile { kind: *kind, path: path@ }
            },
            ValidationError::NoParentDir { path } => {
                ValidationErrorModel::NoParentDir { path: path@ }
            },
            ValidationError::MissingReferencedFile { kind, path } => {
                ValidationErrorModel::MissingReferencedFile { kind: *kind, path: path@ }
            },
            ValidationError::InvalidSectionHeader { path, fault } => {
                ValidationErrorModel::InvalidSectionHeader { path: path@, fault: fault@ }
            },
            ValidationError::MalformedStudentLine { path, line_number, raw_text } => {
                ValidationErrorModel::MalformedStudentLine {
                    path: path@,
                    line_number: *line_number as nat,
                    raw_text: raw_text@,
                }
            },
        }
    }
}

/// A SEC-file fault tied to the path it was found at.
pub open spec fn sec_error_at(path: Seq<char>, se: SectionErrorModel) -> ValidationErrorModel {
    match se {
        SectionErrorModel::Empty => ValidationErrorModel::EmptyFile { kind: FileKind::Sec, path },
        SectionErrorModel::BadHeader { fault } => ValidationErrorModel::InvalidSectionHeader {
            path,
            fault,
        },
        SectionErrorModel::BadStudentLine { line_number, raw_text } => {
            ValidationErrorModel::MalformedStudentLine { path, line_number, raw_text }
        },
    }
}

/// The run-level progress: the directory every reference resolves against,
/// the run's name, its GRP references, and the groups built so far.
pub struct TreeState {
    pub run_dir: String,
    pub run_name: String,
    pub grp_refs: Vec<String>,
    pub g_idx: usize,
    pub groups: Vec<Group>,
}

/// The model of the run-level progress.
pub struct TreeStateModel {
    pub run_dir: Seq<char>,
    pub run_name: Seq<char>,
    pub grp_refs: Seq<Seq<char>>,
    pub g_idx: nat,
    pub groups: Seq<GroupModel>,
}

impl View for TreeState {
    type V = TreeStateModel;

    open spec fn view(&self) -> TreeStateModel {
        TreeStateModel {
            run_dir: self.run_dir@,
            run_name: self.run_name@,
            grp_refs: str_views(self.grp_refs@),
            g_idx: self.g_idx as nat,
            groups: group_views(self.groups@),
        }
    }
}

/// The group-level progress: the open group's name, its SEC references, and
/// the sections built so far.
pub struct GroupState {
    pub name: String,
    pub sec_refs: Vec<String>,
    pub s_idx: usize,
    pub sections: Vec<Section>,
}

/// The model of the group-level progress.
pub struct GroupStateModel {
    pub name: Seq<char>,
    pub sec_refs: Seq<Seq<char>>,
    pub s_idx: nat,
    pub sections: Seq<SectionModel>,
}

impl View for GroupState {
    type V = GroupStateModel;

    open spec fn view(&self) -> GroupStateModel {
        GroupStateModel {
            name: self.name@,
            sec_refs: str_views(self.sec_refs@),
            s_idx: self.s_idx as nat,
            sections: section_views(self.sections@),
        }
    }
}

/// The tree builder, between two file requests.
pub enum Builder {
    /// The RUN file itself has been requested.
    AwaitRun { run_path: String },
    /// The GRP file named by reference `g_idx` has been requested.
    AwaitGrp { ts: TreeState },
    /// The SEC file named by reference `s_idx` of the open group has been
    /// requested.
    AwaitSec { ts: TreeState, gs: GroupState },
}

/// The model of the builder.
pub enum BuilderModel {
    AwaitRun { run_path: Seq<char> },
    AwaitGrp { ts: TreeStateModel },
    AwaitSec { ts: TreeStateModel, gs: GroupStateModel },
}

impl View for Builder {
    type V = BuilderModel;

    open spec fn view(&self) -> BuilderModel {
        match self {
            Builder::AwaitRun { run_path } => BuilderModel::AwaitRun { run_path: run_path@ },
            Builder::AwaitGrp { ts } => BuilderModel::AwaitGrp { ts: ts@ },
            Builder::AwaitSec { ts, gs } => BuilderModel::AwaitSec { ts: ts@, gs: gs@ },
        }
    }
}

impl BuilderModel {
    /// The builder's indices count what stands built, and each open index
    /// names a real reference.
    pub open spec fn wf(self) -> bool {
        match self {
            BuilderModel::AwaitRun { .. } => true,
            BuilderModel::AwaitGrp { ts } => ts.g_idx < ts.grp_refs.len() && ts.groups.len()
                == ts.g_idx,
            BuilderModel::AwaitSec { ts, gs } => ts.g_idx < ts.grp_refs.len() && ts.groups.len()
                == ts.g_idx && gs.s_idx < gs.sec_refs.len() && gs.sections.len() == gs.s_idx,
        }
    }

    /// The request the builder is waiting on: a file kind and a path.
    pub open spec fn pending(self) -> (FileKind, Seq<char>) {
        match self {
            BuilderModel::AwaitRun { run_path } => (FileKind::Run, run_path),
            BuilderModel::AwaitGrp { ts } => (
                FileKind::Grp,
                spec_resolve(ts.run_dir, ts.grp_refs[ts.g_idx as int]),
            ),
            BuilderModel::AwaitSec { ts, gs } => (
                FileKind::Sec,
                spec_resolve(ts.run_dir, gs.sec_refs[gs.s_idx as int]),
            ),
        }
    }
}

/// What one step yields: the next request, or the finished outcome.
pub enum Step {
    /// Fetch the file of this kind at this path and step again with the
    /// outcome.
    Next { builder: Builder, kind: FileKind, path: String },
    /// The run is over: the assembled tree, or its first structural fault.
    Done { result: Result<RunFile, ValidationError> },
}

/// The model of a step.
pub enum StepModel {
    Next { builder: BuilderModel, kind: FileKind, path: Seq<char> },
    Done { result: Result<RunModel, ValidationErrorModel> },
}

impl View for Step {
    type V = StepModel;

    open spec fn view(&self) -> StepModel {
        match self {
            Step::Next { builder, kind, path } => StepModel::Next {
                builder: builder@,
                kind: *kind,
                path: path@,
            },
            Step::Done { result } => StepModel::Done {
                result: match result {
                    Ok(tree) => Ok(tree@),
                    Err(e) => Err(e@),
                },
            },
        }
    }
}

/// With every group up to `g_idx` built: finish the run if no GRP reference
/// is left, else request the next GRP file.
pub open spec fn spec_advance_groups(ts: TreeStateModel) -> StepModel {
    if ts.g_idx == ts.grp_refs.len() {
        StepModel::Done { result: Ok(RunModel { name: ts.run_name, groups: ts.groups }) }
    } else {
        StepModel::Next {
            builder: BuilderModel::AwaitGrp { ts },
            kind: FileKind::Grp,
            path: spec_resolve(ts.run_dir, ts.grp_refs[ts.g_idx as int]),
        }
    }
}

/// With every section up to `s_idx` built: close the group if no SEC
/// reference is left, else request the next SEC file.
pub open spec fn spec_advance_secs(ts: TreeStateModel, gs: GroupStateModel) -> StepModel {
    if gs.s_idx == gs.sec_refs.len() {
        spec_advance_groups(
            TreeStateModel {
                g_idx: (ts.g_idx + 1) as nat,
                groups: ts.groups.push(GroupModel { name: gs.name, sections: gs.sections }),
                ..ts
            },
        )
    } else {
        StepModel::Next {
            builder: BuilderModel::AwaitSec { ts, gs },
            kind: FileKind::Sec,
            path: spec_resolve(ts.run_dir, gs.sec_refs[gs.s_idx as int]),
        }
    }
}

/// The transition function of the builder: what one file outcome does to
/// the state, and what follows.  Every error case is terminal, and which
/// error arises is pinned for every state and event.
pub open spec fn spec_step(m: BuilderModel, ev: FileEventModel) -> StepModel {
    match m {
        BuilderModel::AwaitRun { run_path } => match ev {
            FileEventModel::Missing => StepModel::Done {
                result: Err(
                    ValidationErrorModel::FileReadError {
                        kind: FileKind::Run,
                        path: run_path,
                        cause: "file not found"@,
                    },
                ),
            },
            FileEventModel::Unreadable { cause } => StepModel::Done {
                result: Err(
                    ValidationErrorModel::FileReadError {
                        kind: FileKind::Run,
                        path: run_path,
                        cause,
                    },
                ),
            },
            FileEventModel::Content { text } => match spec_parse_header(text) {
                None => StepModel::Done {
                    result: Err(
                        ValidationErrorModel::EmptyFile { kind: FileKind::Run, path: run_path },
                    ),
                },
                Some(h) => match spec_parent(run_path) {
                    None => StepModel::Done {
                        result: Err(ValidationErrorModel::NoParentDir { path: run_path }),
                    },
                    Some(dir) => spec_advance_groups(
                        TreeStateModel {
                            run_dir: dir,
                            run_name: h.name,
                            grp_refs: h.refs,
                            g_idx: 0,
                            groups: Seq::empty(),
                        },
                    ),
                },
            },
        },
        BuilderModel::AwaitGrp { ts } => {
            let path = spec_resolve(ts.run_dir, ts.grp_refs[ts.g_idx as int]);
            match ev {
                FileEventModel::Missing => StepModel::Done {
                    result: Err(
                        ValidationErrorModel::MissingReferencedFile { kind: FileKind::Grp, path },
                    ),
                },
                FileEventModel::Unreadable { cause } => StepModel::Done {
                    result: Err(
                        ValidationErrorModel::FileReadError { kind: FileKind::Grp, path, cause },
                    ),
                },
                FileEventModel::Content { text } => match spec_parse_header(text) {
                    None => StepModel::Done {
                        result: Err(
                            ValidationErrorModel::EmptyFile { kind: FileKind::Grp, path },
                        ),
                    },
                    Some(h) => spec_advance_secs(
                        ts,
                        GroupStateModel {
                            name: h.name,
                            sec_refs: h.refs,
                            s_idx: 0,
                            sections: Seq::empty(),
                        },
                    ),
                },
            }
        },
        BuilderModel::AwaitSec { ts, gs } => {
            let path = spec_resolve(ts.run_dir, gs.sec_refs[gs.s_idx as int]);
            match ev {
                FileEventModel::Missing => StepModel::Done {
                    result: Err(
                        ValidationErrorModel::MissingReferencedFile { kind: FileKind::Sec, path },
                    ),
                },
                FileEventModel::Unreadable { cause } => StepModel::Done {
                    result: Err(
                        ValidationErrorModel::FileReadError { kind: FileKind::Sec, path, cause },
                    ),
                },
                FileEventModel::Content { text } => match spec_parse_section(text) {
                    Err(se) => StepModel::Done { result: Err(sec_error_at(path, se)) },
                    Ok(sec) => spec_advance_secs(
                        ts,
                        GroupStateModel {
                            s_idx: (gs.s_idx + 1) as nat,
                            sections: gs.sections.push(sec),
                            ..gs
                        },
                    ),
                },
            }
        },
    }
}

/// A step's builder, when it has one, is well formed.
pub open spec fn step_wf(r: StepModel) -> bool {
    match r {
        StepModel::Next { builder, .. } => builder.wf(),
        StepModel::Done { .. } => true,
    }
}

/// Finish the run or request the next GRP file.
fn advance_groups(ts: TreeState) -> (r: Step)
    requires
        ts@.groups.len() == ts@.g_idx,
        ts@.g_idx <= ts@.grp_refs.len(),
    ensures
        r@ == spec_advance_groups(ts@),
        step_wf(r@),
{
    if ts.g_idx == ts.grp_refs.len() {
        Step::Done { result: Ok(RunFile { name: ts.run_name, groups: ts.groups }) }
    } else {
        let path = resolve(ts.run_dir.as_str(), ts.grp_refs[ts.g_idx].as_str());
        proof {
            assert(str_views(ts.grp_refs@)[ts.g_idx as int] == ts.grp_refs@[ts.g_idx as int]@);
        }
        Step::Next { builder: Builder::AwaitGrp { ts }, kind: FileKind::Grp, path }
    }
}

/// Close the group or request the next SEC file.
fn advance_secs(ts: TreeState, gs: GroupState) -> (r: Step)
    requires
        ts@.groups.len() == ts@.g_idx,
        ts@.g_idx < ts@.grp_refs.len(),
        gs@.sections.len() == gs@.s_idx,
        gs@.s_idx <= gs@.sec_refs.len(),
    ensures
        r@ == spec_advance_secs(ts@, gs@),
        step_wf(r@),
{
    if gs.s_idx == gs.sec_refs.len() {
        let mut ts = ts;
        let group = Group { name: gs.name, sections: gs.sections };
        proof {
            assert(group_views(ts.groups@.push(group)) =~= group_views(ts.groups@).push(group@));
        }
        ts.groups.push(group);
        proof {
            assert(ts.grp_refs.len() == ts.grp_refs@.len());
        }
        ts.g_idx = ts.g_idx + 1;
        advance_groups(ts)
    } else {
        let path = resolve(ts.run_dir.as_str(), gs.sec_refs[gs.s_idx].as_str());
        proof {
            assert(str_views(gs.sec_refs@)[gs.s_idx as int] == gs.sec_refs@[gs.s_idx as int]@);
        }
        Step::Next { builder: Builder::AwaitSec { ts, gs }, kind: FileKind::Sec, path }
    }
}

impl Builder {
    /// Begin a validation run.  The host reads the RUN file at `run_path`
    /// and steps the builder with the outcome.
    pub fn new(run_path: String) -> (b: Builder)
        ensures
            b@ == (BuilderModel::AwaitRun { run_path: run_path@ }),
            b@.wf(),
    {
        Builder::AwaitRun { run_path }
    }

    /// Consume the outcome of the pending file request and move on: hand
    /// back the next request, or finish with the tree or the first fault.
    pub fn step(self, ev: FileEvent) -> (r: Step)
        requires
            self@.wf(),
        ensures
            r@ == spec_step(self@, ev@),
            step_wf(r@),
    {
        match self {
            Builder::AwaitRun { run_path } => match ev {
                FileEvent::Missing => Step::Done {
                    result: Err(
                        ValidationError::FileReadError {
                            kind: FileKind::Run,
                            path: run_path,
                            cause: "file not found".to_owned(),
                        },
                    ),
                },
                FileEvent::Unreadable { cause } => Step::Done {
                    result: Err(
                        ValidationError::FileReadError {
                            kind: FileKind::Run,
                            path: run_path,
                            cause,
                        },
                    ),
                },
                FileEvent::Content { text } => match parse_run_header(text.as_str()) {
                    None => Step::Done {
                        result: Err(
                            ValidationError::EmptyFile { kind: FileKind::Run, path: run_path },
                        ),
                    },
                    Some(h) => match parent_dir(run_path.as_str()) {
                        None => Step::Done {
                            result: Err(ValidationError::NoParentDir { path: run_path }),
                        },
                        Some(dir) => {
                            let groups: Vec<Group> = Vec::new();
                            proof {
                                assert(group_views(groups@) =~= Seq::<GroupModel>::empty());
                            }
                            advance_groups(
                                TreeState {
                                    run_dir: dir,
                                    run_name: h.name,
                                    grp_refs: h.refs,
                                    g_idx: 0,
                                    groups,
                                },
                            )
                        },
                    },
                },
            },
            Builder::AwaitGrp { ts } => {
                let path = resolve(ts.run_dir.as_str(), ts.grp_refs[ts.g_idx].as_str());
                proof {
                    assert(str_views(ts.grp_refs@)[ts.g_idx as int] == ts.grp_refs@[ts.g_idx
                        as int]@);
                }
                match ev {
                    FileEvent::Missing => Step::Done {
                        result: Err(
                            ValidationError::MissingReferencedFile { kind: FileKind::Grp, path },
                        ),
                    },
                    FileEvent::Unreadable { cause } => Step::Done {
                        result: Err(
                            ValidationError::FileReadError { kind: FileKind::Grp, path, cause },
                        ),
                    },
                    FileEvent::Content { text } => match parse_group_header(text.as_str()) {
                        None => Step::Done {
                            result: Err(
                                ValidationError::EmptyFile { kind: FileKind::Grp, path },
                            ),
                        },
                        Some(h) => {
                            let sections: Vec<Section> = Vec::new();
                            proof {
                                assert(section_views(sections@) =~= Seq::<SectionModel>::empty());
                            }
                            advance_secs(
                                ts,
                                GroupState { name: h.name, sec_refs: h.refs, s_idx: 0, sections },
                            )
                        },
                    },
                }
            },
            Builder::AwaitSec { ts, gs } => {
                let path = resolve(ts.run_dir.as_str(), gs.sec_refs[gs.s_idx].as_str());
                proof {
                    assert(str_views(gs.sec_refs@)[gs.s_idx as int] == gs.sec_refs@[gs.s_idx
                        as int]@);
                }
                match ev {
                    FileEvent::Missing => Step::Done {
                        result: Err(
                            ValidationError::MissingReferencedFile { kind: FileKind::Sec, path },
                        ),
                    },
                    FileEvent::Unreadable { cause } => Step::Done {
                        result: Err(
                            ValidationError::FileReadError { kind: FileKind::Sec, path, cause },
                        ),
                    },
                    FileEvent::Content { text } => match parse_section(text.as_str()) {
                        Err(se) => Step::Done { result: Err(validation_error_of(path, se)) },
                        Ok(sec) => {
                            let mut gs = gs;
                            proof {
                                assert(section_views(gs.sections@.push(sec)) =~= section_views(
                                    gs.sections@,
                                ).push(sec@));
                            }
                            gs.sections.push(sec);
                            proof {
                                assert(gs.sec_refs.len() == gs.sec_refs@.len());
                            }
                            gs.s_idx = gs.s_idx + 1;
                            advance_secs(ts, gs)
                        },
                    },
                }
            },
        }
    }
}

/// Tie a SEC-file fault to the path it was found at.
fn validation_error_of(path: String, se: SectionError) -> (r: ValidationError)
    ensures
        r@ == sec_error_at(path@, se@),
{
    match se {
        SectionError::Empty => ValidationError::EmptyFile { kind: FileKind::Sec, path },
        SectionError::BadHeader { fault } => ValidationError::InvalidSectionHeader { path, fault },
        SectionError::BadStudentLine { line_number, raw_text } => {
            ValidationError::MalformedStudentLine { path, line_number, raw_text }
        },
    }
}

} // verus!
