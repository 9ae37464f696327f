//! Laws of the validator.  A file system is modelled as a map from paths to
//! file outcomes; a whole validation run is the builder stepped with events
//! drawn from that map.  The laws state that a finished run computes exactly
//! the functional semantics `eval_run` of the file system — so validation is
//! deterministic, the tree mirrors reference order, and a missing file ends
//! the run at once.

use vstd::prelude::*;
use crate::records::{GroupModel, RunModel, SectionModel, spec_parse_header, spec_parse_section,
    spec_parse_students, spec_student_of};
use crate::builder::{
    BuilderModel, FileEventModel, FileKind, GroupStateModel, StepModel, TreeStateModel,
    ValidationErrorModel, sec_error_at, spec_step,
};
use crate::paths::{spec_parent, spec_resolve};

verus! {

/// A file system: what one request at each path would yield.
pub type FsModel = Map<Seq<char>, FileEventModel>;

/// The event answers the builder's pending request out of the file system.
pub open spec fn answers(fs: FsModel, m: BuilderModel, ev: FileEventModel) -> bool {
    fs.contains_key(m.pending().1) && ev == fs[m.pending().1]
}

/// The outcome of stepping the builder through the events, if it finishes
/// before they run out.
pub open spec fn run_outcome(m: BuilderModel, evs: Seq<FileEventModel>) -> Option<
    Result<RunModel, ValidationErrorModel>,
>
    decreases evs.len(),
{
    if evs.len() == 0 {
        None
    } else {
        match spec_step(m, evs[0]) {
            StepModel::Done { result } => Some(result),
            StepModel::Next { builder, .. } => run_outcome(builder, evs.skip(1)),
        }
    }
}

/// Every event of the sequence answers the then-pending request out of the
/// file system, as a host reading real files would answer it.
pub open spec fn consistent(m: BuilderModel, evs: Seq<FileEventModel>, fs: FsModel) -> bool
    decreases evs.len(),
{
    if evs.len() == 0 {
        true
    } else {
        answers(fs, m, evs[0]) && match spec_step(m, evs[0]) {
            StepModel::Done { .. } => true,
            StepModel::Next { builder, .. } => consistent(builder, evs.skip(1), fs),
        }
    }
}

/// The functional semantics of the descent, section level: finish the open
/// group's remaining SEC references, then the remaining GRP references.
/// Groups, sections and students are appended strictly in reference order,
/// and the first fault is the result.
pub open spec fn eval_secs(
    fs: FsModel,
    dir: Seq<char>,
    run_name: Seq<char>,
    groups_done: Seq<GroupModel>,
    grp_todo: Seq<Seq<char>>,
    group_name: Seq<char>,
    secs_done: Seq<SectionModel>,
    sec_todo: Seq<Seq<char>>,
) -> Result<RunModel, ValidationErrorModel>
    decreases grp_todo.len(), 1int, sec_todo.len(),
{
    if sec_todo.len() == 0 {
        eval_groups(
            fs,
            dir,
            run_name,
            groups_done.push(GroupModel { name: group_name, sections: secs_done }),
            grp_todo,
        )
    } else {
        let path = spec_resolve(dir, sec_todo[0]);
        match fs[path] {
            FileEventModel::Missing => Err(
                ValidationErrorModel::MissingReferencedFile { kind: FileKind::Sec, path },
            ),
            FileEventModel::Unreadable { cause } => Err(
                ValidationErrorModel::FileReadError { kind: FileKind::Sec, path, cause },
            ),
            FileEventModel::Content { text } => match spec_parse_section(text) {
                Err(se) => Err(sec_error_at(path, se)),
                Ok(sec) => eval_secs(
                    fs,
                    dir,
                    run_name,
                    groups_done,
                    grp_todo,
                    group_name,
                    secs_done.push(sec),
                    sec_todo.skip(1),
                ),
            },
        }
    }
}

/// The functional semantics of the descent, group level: resolve and parse
/// each remaining GRP reference in order, descending into its sections.
pub open spec fn eval_groups(
    fs: FsModel,
    dir: Seq<char>,
    run_name: Seq<char>,
    groups_done: Seq<GroupModel>,
    grp_todo: Seq<Seq<char>>,
) -> Result<RunModel, ValidationErrorModel>
    decreases grp_todo.len(), 0int, 0int,
{
    if grp_todo.len() == 0 {
        Ok(RunModel { name: run_name, groups: groups_done })
    } else {
        let path = spec_resolve(dir, grp_todo[0]);
        match fs[path] {
            FileEventModel::Missing => Err(
                ValidationErrorModel::MissingReferencedFile { kind: FileKind::Grp, path },
            ),
            FileEventModel::Unreadable { cause } => Err(
                ValidationErrorModel::FileReadError { kind: FileKind::Grp, path, cause },
            ),
            FileEventModel::Content { text } => match spec_parse_header(text) {
                None => Err(ValidationErrorModel::EmptyFile { kind: FileKind::Grp, path }),
                Some(h) => eval_secs(
                    fs,
                    dir,
                    run_name,
                    groups_done,
                    grp_todo.skip(1),
                    h.name,
                    Seq::empty(),
                    h.refs,
                ),
            },
        }
    }
}

/// The functional semantics of a whole run: what validating the RUN file at
/// `run_path` against the file system yields.
pub open spec fn eval_run(fs: FsModel, run_path: Seq<char>) -> Result<
    RunModel,
    ValidationErrorModel,
> {
    match fs[run_path] {
        FileEventModel::Missing => Err(
            ValidationErrorModel::FileReadError {
                kind: FileKind::Run,
                path: run_path,
                cause: "file not found"@,
            },
        ),
        FileEventModel::Unreadable { cause } => Err(
            ValidationErrorModel::FileReadError { kind: FileKind::Run, path: run_path, cause },
        ),
        FileEventModel::Content { text } => match spec_parse_header(text) {
            None => Err(ValidationErrorModel::EmptyFile { kind: FileKind::Run, path: run_path }),
            Some(h) => match spec_parent(run_path) {
                None => Err(ValidationErrorModel::NoParentDir { path: run_path }),
                Some(dir) => eval_groups(fs, dir, h.name, Seq::empty(), h.refs),
            },
        },
    }
}

/// What a run finishing from state `m` must yield under `fs`.
pub open spec fn eval_state(m: BuilderModel, fs: FsModel) -> Result<
    RunModel,
    ValidationErrorModel,
> {
    match m {
        BuilderModel::AwaitRun { run_path } => eval_run(fs, run_path),
        BuilderModel::AwaitGrp { ts } => eval_groups(
            fs,
            ts.run_dir,
            ts.run_name,
            ts.groups,
            ts.grp_refs.skip(ts.g_idx as int),
        ),
        BuilderModel::AwaitSec { ts, gs } => eval_secs(
            fs,
            ts.run_dir,
            ts.run_name,
            ts.groups,
            ts.grp_refs.skip(ts.g_idx as int + 1),
            gs.name,
            gs.sections,
            gs.sec_refs.skip(gs.s_idx as int),
        ),
    }
}

/// Advancing past built groups leaves the group-level semantics unchanged.
proof fn lemma_advance_groups_eval(ts: TreeStateModel, fs: FsModel)
    requires
        ts.g_idx <= ts.grp_refs.len(),
        ts.groups.len() == ts.g_idx,
    ensures
        match crate::builder::spec_advance_groups(ts) {
            StepModel::Done { result } => result == eval_groups(
                fs,
                ts.run_dir,
                ts.run_name,
                ts.groups,
                ts.grp_refs.skip(ts.g_idx as int),
            ),
            StepModel::Next { builder, .. } => builder.wf() && eval_state(builder, fs)
                == eval_groups(
                fs,
                ts.run_dir,
                ts.run_name,
                ts.groups,
                ts.grp_refs.skip(ts.g_idx as int),
            ),
        },
{
    if ts.g_idx == ts.grp_refs.len() {
        assert(ts.grp_refs.skip(ts.g_idx as int) =~= Seq::<Seq<char>>::empty());
    }
}

/// Advancing past built sections leaves the section-level semantics
/// unchanged.
proof fn lemma_advance_secs_eval(ts: TreeStateModel, gs: GroupStateModel, fs: FsModel)
    requires
        ts.g_idx < ts.grp_refs.len(),
        ts.groups.len() == ts.g_idx,
        gs.s_idx <= gs.sec_refs.len(),
        gs.sections.len() == gs.s_idx,
    ensures
        match crate::builder::spec_advance_secs(ts, gs) {
            StepModel::Done { result } => result == eval_secs(
                fs,
                ts.run_dir,
                ts.run_name,
                ts.groups,
                ts.grp_refs.skip(ts.g_idx as int + 1),
                gs.name,
                gs.sections,
                gs.sec_refs.skip(gs.s_idx as int),
            ),
            StepModel::Next { builder, .. } => builder.wf() && eval_state(builder, fs)
                == eval_secs(
                fs,
                ts.run_dir,
                ts.run_name,
                ts.groups,
                ts.grp_refs.skip(ts.g_idx as int + 1),
                gs.name,
                gs.sections,
                gs.sec_refs.skip(gs.s_idx as int),
            ),
        },
{
    if gs.s_idx == gs.sec_refs.len() {
        assert(gs.sec_refs.skip(gs.s_idx as int) =~= Seq::<Seq<char>>::empty());
        let ts2 = TreeStateModel {
            g_idx: (ts.g_idx + 1) as nat,
            groups: ts.groups.push(GroupModel { name: gs.name, sections: gs.sections }),
            ..ts
        };
        lemma_advance_groups_eval(ts2, fs);
        assert(ts2.grp_refs.skip(ts2.g_idx as int) =~= ts.grp_refs.skip(ts.g_idx as int + 1));
    }
}

/// One step neither gains nor loses anything against the functional
/// semantics: a finishing step yields `eval_state`, and any other step
/// moves to a state with the same `eval_state`.
proof fn lemma_step_preserves_eval(m: BuilderModel, ev: FileEventModel, fs: FsModel)
    requires
        m.wf(),
        answers(fs, m, ev),
    ensures
        match spec_step(m, ev) {
            StepModel::Done { result } => result == eval_state(m, fs),
            StepModel::Next { builder, .. } => builder.wf() && eval_state(builder, fs)
                == eval_state(m, fs),
        },
{
    match m {
        BuilderModel::AwaitRun { run_path } => {
            match ev {
                FileEventModel::Content { text } => {
                    match spec_parse_header(text) {
                        Some(h) => {
                            match spec_parent(run_path) {
                                Some(dir) => {
                                    let ts0 = TreeStateModel {
                                        run_dir: dir,
                                        run_name: h.name,
                                        grp_refs: h.refs,
                                        g_idx: 0,
                                        groups: Seq::empty(),
                                    };
                                    lemma_advance_groups_eval(ts0, fs);
                                    assert(ts0.grp_refs.skip(0) =~= h.refs);
                                },
                                None => {},
                            }
                        },
                        None => {},
                    }
                },
                _ => {},
            }
        },
        BuilderModel::AwaitGrp { ts } => {
            let todo = ts.grp_refs.skip(ts.g_idx as int);
            assert(todo[0] == ts.grp_refs[ts.g_idx as int]);
            match ev {
                FileEventModel::Content { text } => {
                    match spec_parse_header(text) {
                        Some(h) => {
                            let gs0 = GroupStateModel {
                                name: h.name,
                                sec_refs: h.refs,
                                s_idx: 0,
                                sections: Seq::empty(),
                            };
                            lemma_advance_secs_eval(ts, gs0, fs);
                            assert(todo.skip(1) =~= ts.grp_refs.skip(ts.g_idx as int + 1));
                            assert(gs0.sec_refs.skip(0) =~= h.refs);
                        },
                        None => {},
                    }
                },
                _ => {},
            }
        },
        BuilderModel::AwaitSec { ts, gs } => {
            let todo = gs.sec_refs.skip(gs.s_idx as int);
            assert(todo[0] == gs.sec_refs[gs.s_idx as int]);
            match ev {
                FileEventModel::Content { text } => {
                    match spec_parse_section(text) {
                        Ok(sec) => {
                            let gs2 = GroupStateModel {
                                s_idx: (gs.s_idx + 1) as nat,
                                sections: gs.sections.push(sec),
                                ..gs
                            };
                            lemma_advance_secs_eval(ts, gs2, fs);
                            assert(gs2.sec_refs.skip(gs2.s_idx as int) =~= todo.skip(1));
                        },
                        Err(_) => {},
                    }
                },
                _ => {},
            }
        },
    }
}

/// Law: a finished run computes the functional semantics of the file
/// system.  Whatever order the host was asked in, if every event answered
/// the pending request out of `fs` and the run finished, the outcome is
/// exactly `eval_state` — for a fresh builder, `eval_run` of the RUN path.
pub proof fn lemma_run_refines_eval(
    m: BuilderModel,
    evs: Seq<FileEventModel>,
    fs: FsModel,
)
    requires
        m.wf(),
        consistent(m, evs, fs),
        run_outcome(m, evs) is Some,
    ensures
        run_outcome(m, evs) == Some(eval_state(m, fs)),
    decreases evs.len(),
{
    lemma_step_preserves_eval(m, evs[0], fs);
    match spec_step(m, evs[0]) {
        StepModel::Done { .. } => {},
        StepModel::Next { builder, .. } => {
            lemma_run_refines_eval(builder, evs.skip(1), fs);
        },
    }
}

/// Law: validation is deterministic.  Two runs against the same file
/// system, from the same starting state, that both finish, finish with the
/// same outcome — re-running on unchanged files yields an equal tree or an
/// equal fault.
pub proof fn lemma_run_deterministic(
    m: BuilderModel,
    evs1: Seq<FileEventModel>,
    evs2: Seq<FileEventModel>,
    fs: FsModel,
)
    requires
        m.wf(),
        consistent(m, evs1, fs),
        consistent(m, evs2, fs),
        run_outcome(m, evs1) is Some,
        run_outcome(m, evs2) is Some,
    ensures
        run_outcome(m, evs1) == run_outcome(m, evs2),
{
    lemma_run_refines_eval(m, evs1, fs);
    lemma_run_refines_eval(m, evs2, fs);
}

/// Law: a missing referenced file ends the run at once.  The outcome names
/// exactly the resolved path of the pending reference, and the builder
/// issues no further request — no later reference in the same or any later
/// file is ever processed.
pub proof fn lemma_missing_reference_short_circuits(m: BuilderModel, ev: FileEventModel)
    requires
        m.wf(),
        !(m is AwaitRun),
        ev is Missing,
    ensures
        spec_step(m, ev) == (StepModel::Done {
            result: Err::<RunModel, ValidationErrorModel>(
                ValidationErrorModel::MissingReferencedFile {
                    kind: m.pending().0,
                    path: m.pending().1,
                },
            ),
        }),
{
}

/// Law: an empty file — RUN, GRP or SEC alike — ends the run at once with
/// an empty-file fault naming that file.  No empty file ever yields a tree
/// or subtree with zero children.
pub proof fn lemma_empty_file_is_a_fault(m: BuilderModel, ev: FileEventModel)
    requires
        m.wf(),
        ev matches FileEventModel::Content { text } && crate::text::spec_lines(text).len() == 0,
    ensures
        spec_step(m, ev) == (StepModel::Done {
            result: Err::<RunModel, ValidationErrorModel>(
                ValidationErrorModel::EmptyFile { kind: m.pending().0, path: m.pending().1 },
            ),
        }),
{
}

/// The header of the GRP file a reference names, when the file is present
/// and parses.
pub open spec fn group_header_of(fs: FsModel, dir: Seq<char>, r: Seq<char>) -> Option<
    crate::records::HeaderModel,
> {
    match fs[spec_resolve(dir, r)] {
        FileEventModel::Content { text } => spec_parse_header(text),
        _ => None,
    }
}

/// The section a SEC reference names, when the file is present and parses.
pub open spec fn section_record_of(fs: FsModel, dir: Seq<char>, r: Seq<char>) -> Option<
    SectionModel,
> {
    match fs[spec_resolve(dir, r)] {
        FileEventModel::Content { text } => match spec_parse_section(text) {
            Ok(s) => Some(s),
            Err(_) => None,
        },
        _ => None,
    }
}

/// The group stands for the GRP reference: named by the file's header, with
/// one section per SEC reference, in reference order.
pub open spec fn group_matches_reference(
    fs: FsModel,
    dir: Seq<char>,
    r: Seq<char>,
    g: GroupModel,
) -> bool {
    group_header_of(fs, dir, r) matches Some(h) && g.name == h.name && g.sections.len()
        == h.refs.len() && (forall|j: int|
        0 <= j < h.refs.len() ==> section_record_of(fs, dir, #[trigger] h.refs[j]) == Some(
            g.sections[j],
        ))
}

/// Section-level half of the order proof: a successful descent appends the
/// open group's remaining sections, then the remaining groups, in order.
proof fn lemma_eval_secs_order(
    fs: FsModel,
    dir: Seq<char>,
    run_name: Seq<char>,
    groups_done: Seq<GroupModel>,
    grp_todo: Seq<Seq<char>>,
    group_name: Seq<char>,
    secs_done: Seq<SectionModel>,
    sec_todo: Seq<Seq<char>>,
)
    requires
        eval_secs(fs, dir, run_name, groups_done, grp_todo, group_name, secs_done, sec_todo)
            is Ok,
    ensures
        eval_secs(fs, dir, run_name, groups_done, grp_todo, group_name, secs_done, sec_todo)
            matches Ok(run) && run.name == run_name && run.groups.len() == groups_done.len() + 1
            + grp_todo.len() && (forall|k: int|
            0 <= k < groups_done.len() ==> run.groups[k] == groups_done[k]) && run.groups[
            groups_done.len() as int
        ].name == group_name && run.groups[groups_done.len() as int].sections.len()
            == secs_done.len() + sec_todo.len() && (forall|j: int|
            0 <= j < secs_done.len() ==> run.groups[groups_done.len() as int].sections[j]
                == secs_done[j]) && (forall|j: int|
            secs_done.len() <= j < secs_done.len() + sec_todo.len()
                ==> section_record_of(fs, dir, #[trigger] sec_todo[j - secs_done.len()]) == Some(
                run.groups[groups_done.len() as int].sections[j],
            )) && (forall|k: int|
            groups_done.len() < k < run.groups.len() ==> group_matches_reference(
                fs,
                dir,
                #[trigger] grp_todo[k - groups_done.len() - 1],
                run.groups[k],
            )),
    decreases grp_todo.len(), 1int, sec_todo.len(),
{
    let run = eval_secs(
        fs,
        dir,
        run_name,
        groups_done,
        grp_todo,
        group_name,
        secs_done,
        sec_todo,
    )->Ok_0;
    if sec_todo.len() == 0 {
        let done2 = groups_done.push(GroupModel { name: group_name, sections: secs_done });
        lemma_eval_groups_order(fs, dir, run_name, done2, grp_todo);
        assert(run.groups[groups_done.len() as int] == done2[groups_done.len() as int]);
        assert forall|k: int| 0 <= k < groups_done.len() implies run.groups[k] == groups_done[k] by {
            assert(run.groups[k] == done2[k]);
        }
        assert forall|j: int| 0 <= j < secs_done.len() implies run.groups[
            groups_done.len() as int
        ].sections[j] == secs_done[j] by {
            assert(run.groups[groups_done.len() as int].sections == secs_done);
        }
        assert forall|k: int|
            groups_done.len() < k < run.groups.len() implies group_matches_reference(
            fs,
            dir,
            #[trigger] grp_todo[k - groups_done.len() - 1],
            run.groups[k],
        ) by {
            assert(group_matches_reference(
                fs,
                dir,
                grp_todo[k - done2.len()],
                run.groups[k],
            ));
        }
    } else {
        let path = spec_resolve(dir, sec_todo[0]);
        match fs[path] {
            FileEventModel::Content { text } => {
                match spec_parse_section(text) {
                    Ok(sec) => {
                        lemma_eval_secs_order(
                            fs,
                            dir,
                            run_name,
                            groups_done,
                            grp_todo,
                            group_name,
                            secs_done.push(sec),
                            sec_todo.skip(1),
                        );
                        let secs = run.groups[groups_done.len() as int].sections;
                        assert forall|j: int| 0 <= j < secs_done.len() implies secs[j]
                            == secs_done[j] by {
                            assert(secs[j] == secs_done.push(sec)[j]);
                        }
                        assert forall|j: int|
                            secs_done.len() <= j < secs_done.len() + sec_todo.len()
                                implies section_record_of(
                            fs,
                            dir,
                            #[trigger] sec_todo[j - secs_done.len()],
                        ) == Some(secs[j]) by {
                            if j == secs_done.len() {
                                assert(secs[j] == secs_done.push(sec)[j]);
                                assert(secs[j] == sec);
                            } else {
                                assert(section_record_of(
                                    fs,
                                    dir,
                                    sec_todo.skip(1)[j - secs_done.push(sec).len()],
                                ) == Some(secs[j]));
                                assert(sec_todo.skip(1)[j - secs_done.len() - 1] == sec_todo[j
                                    - secs_done.len()]);
                            }
                        }
                    },
                    Err(_) => {},
                }
            },
            _ => {},
        }
    }
}

/// Group-level half of the order proof: a successful descent appends one
/// group per remaining GRP reference, in order.
proof fn lemma_eval_groups_order(
    fs: FsModel,
    dir: Seq<char>,
    run_name: Seq<char>,
    groups_done: Seq<GroupModel>,
    grp_todo: Seq<Seq<char>>,
)
    requires
        eval_groups(fs, dir, run_name, groups_done, grp_todo) is Ok,
    ensures
        eval_groups(fs, dir, run_name, groups_done, grp_todo) matches Ok(run) && run.name
            == run_name && run.groups.len() == groups_done.len() + grp_todo.len() && (forall|
            k: int,
        |
            0 <= k < groups_done.len() ==> run.groups[k] == groups_done[k]) && (forall|k: int|
            groups_done.len() <= k < run.groups.len() ==> group_matches_reference(
                fs,
                dir,
                #[trigger] grp_todo[k - groups_done.len()],
                run.groups[k],
            )),
    decreases grp_todo.len(), 0int, 0int,
{
    let run = eval_groups(fs, dir, run_name, groups_done, grp_todo)->Ok_0;
    if grp_todo.len() == 0 {
    } else {
        let path = spec_resolve(dir, grp_todo[0]);
        match fs[path] {
            FileEventModel::Content { text } => {
                match spec_parse_header(text) {
                    Some(h) => {
                        lemma_eval_secs_order(
                            fs,
                            dir,
                            run_name,
                            groups_done,
                            grp_todo.skip(1),
                            h.name,
                            Seq::empty(),
                            h.refs,
                        );
                        assert forall|k: int|
                            groups_done.len() <= k < run.groups.len()
                                implies group_matches_reference(
                            fs,
                            dir,
                            #[trigger] grp_todo[k - groups_done.len()],
                            run.groups[k],
                        ) by {
                            if k == groups_done.len() {
                                assert(run.groups[k].name == h.name);
                                assert(run.groups[k].sections.len() == h.refs.len());
                                assert forall|j: int| 0 <= j < h.refs.len()
                                    implies section_record_of(fs, dir, #[trigger] h.refs[j])
                                    == Some(run.groups[k].sections[j]) by {
                                    assert(section_record_of(fs, dir, h.refs[j - 0]) == Some(
                                        run.groups[groups_done.len() as int].sections[j],
                                    ));
                                }
                            } else {
                                assert(group_matches_reference(
                                    fs,
                                    dir,
                                    grp_todo.skip(1)[k - groups_done.len() - 1],
                                    run.groups[k],
                                ));
                                assert(grp_todo.skip(1)[k - groups_done.len() - 1] == grp_todo[k
                                    - groups_done.len()]);
                            }
                        }
                    },
                    None => {},
                }
            },
            _ => {},
        }
    }
}

/// Law: a valid tree mirrors reference order exactly.  The run's groups
/// stand one per GRP reference line, in line order; each group's sections
/// stand one per SEC reference line, in line order; and each section's
/// students stand one per student line, in line order (the roster half is
/// `lemma_students_in_line_order`).
pub proof fn lemma_tree_mirrors_reference_order(fs: FsModel, run_path: Seq<char>)
    requires
        eval_run(fs, run_path) is Ok,
    ensures
        eval_run(fs, run_path) matches Ok(run) && fs[run_path] matches FileEventModel::Content {
            text,
        } && spec_parse_header(text) matches Some(h) && spec_parent(run_path) matches Some(dir)
            && run.name == h.name && run.groups.len() == h.refs.len() && (forall|k: int|
            0 <= k < h.refs.len() ==> group_matches_reference(
                fs,
                dir,
                #[trigger] h.refs[k],
                run.groups[k],
            )),
{
    match fs[run_path] {
        FileEventModel::Content { text } => {
            match spec_parse_header(text) {
                Some(h) => {
                    match spec_parent(run_path) {
                        Some(dir) => {
                            let done: Seq<GroupModel> = Seq::empty();
                            lemma_eval_groups_order(fs, dir, h.name, done, h.refs);
                            let run = eval_run(fs, run_path)->Ok_0;
                            assert forall|k: int|
                                0 <= k < h.refs.len() implies group_matches_reference(
                                fs,
                                dir,
                                #[trigger] h.refs[k],
                                run.groups[k],
                            ) by {
                                assert(group_matches_reference(
                                    fs,
                                    dir,
                                    h.refs[k - done.len()],
                                    run.groups[k],
                                ));
                            }
                        },
                        None => {},
                    }
                },
                None => {},
            }
        },
        _ => {},
    }
}

/// Law: students stand in the order of their lines.  A roster that parses
/// has exactly one student per line, and the student at each position is
/// read from the line at the same position.
pub proof fn lemma_students_in_line_order(lines: Seq<Seq<char>>, base: nat)
    requires
        spec_parse_students(lines, base) is Ok,
    ensures
        spec_parse_students(lines, base) matches Ok(ss) && ss.len() == lines.len() && (forall|
            k: int,
        |
            0 <= k < lines.len() ==> ss[k] == spec_student_of(lines[k])),
    decreases lines.len(),
{
    if lines.len() == 0 {
    } else {
        lemma_students_in_line_order(lines.skip(1), base + 1);
        let ss = spec_parse_students(lines, base)->Ok_0;
        let rest = spec_parse_students(lines.skip(1), base + 1)->Ok_0;
        assert(forall|k: int| 0 <= k < lines.skip(1).len() ==> lines.skip(1)[k] == lines[k + 1]);
        assert(forall|k: int| 1 <= k < lines.len() ==> ss[k] == rest[k - 1]);
    }
}

} // verus!
