//! The ordered filesystem steps of the removal and upgrade transactions, with
//! the failure policy of each step. The caller performs the steps in order.
use vstd::prelude::*;
use vstd::string::*;
use crate::manifest::paths_view;
use crate::listing::{render_lines, render_manifest};
use crate::registry::{join3, desc_ext, list_ext, Layout};

verus! {

/// What a step does to the path it names.
#[derive(Debug, Clone, Copy, PartialEq, Eq, Structural)]
pub enum StepKind {
    /// Delete the path if it is a regular file or a symlink; skip it otherwise.
    RemoveFile,
    /// Delete the path if it is a directory with nothing left in it.
    RemoveDirIfEmpty,
    /// Delete one half of a registry record.
    DeleteRecord,
}

/// What the caller does when a step fails.
#[derive(Debug, Clone, Copy, PartialEq, Eq, Structural)]
pub enum OnFailure {
    /// Report a warning and go on with the next step.
    Warn,
    /// Go on with the next step silently.
    Ignore,
    /// Stop the transaction and report the failure.
    Abort,
}

/// One step of a transaction.
#[derive(Debug)]
pub struct Step {
    pub kind: StepKind,
    pub path: String,
    pub on_failure: OnFailure,
}

/// The mathematical form of a step.
pub type StepView = (StepKind, Seq<char>, OnFailure);

impl View for Step {
    type V = StepView;

    open spec fn view(&self) -> StepView {
        (self.kind, self.path@, self.on_failure)
    }
}

/// The views of a sequence of steps.
pub open spec fn steps_view(v: Seq<Step>) -> Seq<StepView> {
    v.map_values(|s: Step| s@)
}

fn make_step(kind: StepKind, path: String, on_failure: OnFailure) -> (r: Step)
    ensures
        r@ == (kind, path@, on_failure),
{
    Step { kind, path, on_failure }
}

/// The two steps that delete the registry record of `name`: manifest half
/// first, description half second; a failure of either is fatal.
pub open spec fn deregister_spec(l: Layout, name: Seq<char>) -> Seq<StepView> {
    seq![
        (StepKind::DeleteRecord, join3(l.list_dir@, name, list_ext()), OnFailure::Abort),
        (StepKind::DeleteRecord, join3(l.desc_dir@, name, desc_ext()), OnFailure::Abort),
    ]
}

/// The steps that delete the registry record of `name`.
pub fn deregister_steps(l: &Layout, name: &str) -> (r: Vec<Step>)
    ensures
        steps_view(r@) == deregister_spec(*l, name@),
{
    let mut r: Vec<Step> = Vec::new();
    r.push(make_step(StepKind::DeleteRecord, l.list_path(name), OnFailure::Abort));
    r.push(make_step(StepKind::DeleteRecord, l.desc_path(name), OnFailure::Abort));
    assert(steps_view(r@) =~= deregister_spec(*l, name@));
    r
}

/// Removal of the package `name` with manifest `m`: a forward pass that
/// deletes files (failures are warnings), a reverse pass that deletes
/// directories left empty (failures are ignored), then the registry record
/// (failures are fatal).
pub open spec fn removal_spec(l: Layout, name: Seq<char>, m: Seq<Seq<char>>) -> Seq<StepView> {
    Seq::new(m.len(), |i: int| (StepKind::RemoveFile, l.root@ + m[i], OnFailure::Warn))
        + Seq::new(m.len(), |i: int| (StepKind::RemoveDirIfEmpty, l.root@ + m[m.len() - 1 - i], OnFailure::Ignore))
        + deregister_spec(l, name)
}

/// The steps that remove the installed package `name`, whose manifest is `m`.
pub fn removal_plan(l: &Layout, name: &str, m: &Vec<String>) -> (r: Vec<Step>)
    ensures
        steps_view(r@) == removal_spec(*l, name@, paths_view(m@)),
{
    let ghost mv = paths_view(m@);
    let ghost files = Seq::new(mv.len(), |i: int| (StepKind::RemoveFile, l.root@ + mv[i], OnFailure::Warn));
    let ghost dirs = Seq::new(mv.len(), |i: int| (StepKind::RemoveDirIfEmpty, l.root@ + mv[mv.len() - 1 - i], OnFailure::Ignore));
    let mut r: Vec<Step> = Vec::new();
    let mut i: usize = 0;
    while i < m.len()
        invariant
            i <= m@.len(),
            mv == paths_view(m@),
            files == Seq::new(mv.len(), |i: int| (StepKind::RemoveFile, l.root@ + mv[i], OnFailure::Warn)),
            steps_view(r@) =~= files.take(i as int),
        decreases m@.len() - i,
    {
        let ghost before = r@;
        r.push(make_step(StepKind::RemoveFile, l.target_path(m[i].as_str()), OnFailure::Warn));
        assert(steps_view(r@) =~= steps_view(before).push(r@[i as int]@));
        assert(files.take(i as int + 1) =~= files.take(i as int).push(files[i as int]));
        i = i + 1;
    }
    let mut j: usize = m.len();
    while j > 0
        invariant
            j <= m@.len(),
            mv == paths_view(m@),
            files.len() == mv.len(),
            dirs == Seq::new(mv.len(), |i: int| (StepKind::RemoveDirIfEmpty, l.root@ + mv[mv.len() - 1 - i], OnFailure::Ignore)),
            steps_view(r@) =~= files + dirs.take(mv.len() - j),
        decreases j,
    {
        j = j - 1;
        let ghost before = r@;
        r.push(make_step(StepKind::RemoveDirIfEmpty, l.target_path(m[j].as_str()), OnFailure::Ignore));
        assert(steps_view(r@) =~= steps_view(before).push(r@[r@.len() - 1]@));
        assert(dirs.take(mv.len() - j) =~= dirs.take(mv.len() - j - 1).push(dirs[mv.len() - j - 1]));
    }
    let ghost before = r@;
    let mut tail = deregister_steps(l, name);
    r.append(&mut tail);
    assert(steps_view(r@) =~= steps_view(before) + deregister_spec(*l, name@));
    assert(dirs.take(mv.len() as int) =~= dirs);
    r
}

/// Deletion of the obsolete paths `obsolete` during an upgrade: each path
/// that is a file or a symlink is deleted, and a failure stops the upgrade.
pub open spec fn prune_spec(l: Layout, obsolete: Seq<Seq<char>>) -> Seq<StepView> {
    obsolete.map_values(|p: Seq<char>| (StepKind::RemoveFile, l.root@ + p, OnFailure::Abort))
}

/// The steps that delete an upgrade's obsolete paths.
pub fn prune_plan(l: &Layout, obsolete: &Vec<String>) -> (r: Vec<Step>)
    ensures
        steps_view(r@) == prune_spec(*l, paths_view(obsolete@)),
{
    let mut r: Vec<Step> = Vec::new();
    let mut i: usize = 0;
    while i < obsolete.len()
        invariant
            i <= obsolete@.len(),
            steps_view(r@) =~= prune_spec(*l, paths_view(obsolete@.take(i as int))),
        decreases obsolete@.len() - i,
    {
        let ghost before = r@;
        r.push(make_step(StepKind::RemoveFile, l.target_path(obsolete[i].as_str()), OnFailure::Abort));
        assert(steps_view(r@) =~= steps_view(before).push(r@[i as int]@));
        assert(paths_view(obsolete@.take(i as int + 1)) =~= paths_view(obsolete@.take(i as int)).push(obsolete@[i as int]@));
        i = i + 1;
    }
    assert(obsolete@.take(obsolete@.len() as int) =~= obsolete@);
    r
}

/// Deletion of the directories an upgrade's pruning touched: each is
/// deleted only if nothing is left in it, and a failure is ignored.
pub open spec fn empty_dirs_spec(dirs: Seq<Seq<char>>) -> Seq<StepView> {
    dirs.map_values(|d: Seq<char>| (StepKind::RemoveDirIfEmpty, d, OnFailure::Ignore))
}

/// The steps that delete the touched directories `dirs` (full paths) that
/// are left empty.
pub fn empty_dir_plan(dirs: &Vec<String>) -> (r: Vec<Step>)
    ensures
        steps_view(r@) == empty_dirs_spec(paths_view(dirs@)),
{
    let mut r: Vec<Step> = Vec::new();
    let mut i: usize = 0;
    while i < dirs.len()
        invariant
            i <= dirs@.len(),
            steps_view(r@) =~= empty_dirs_spec(paths_view(dirs@.take(i as int))),
        decreases dirs@.len() - i,
    {
        let ghost before = r@;
        r.push(make_step(StepKind::RemoveDirIfEmpty, dirs[i].clone(), OnFailure::Ignore));
        assert(steps_view(r@) =~= steps_view(before).push(r@[i as int]@));
        assert(paths_view(dirs@.take(i as int + 1)) =~= paths_view(dirs@.take(i as int)).push(dirs@[i as int]@));
        i = i + 1;
    }
    assert(dirs@.take(dirs@.len() as int) =~= dirs@);
    r
}

/// A registry record file to write: its path and its full text.
#[derive(Debug)]
pub struct RecordWrite {
    pub path: String,
    pub content: String,
}

/// The two record files that register the package `name` with description
/// text `desc_text` and manifest `m`: manifest half first.
pub open spec fn record_spec(l: Layout, name: Seq<char>, desc_text: Seq<char>, m: Seq<Seq<char>>) -> Seq<(Seq<char>, Seq<char>)> {
    seq![
        (join3(l.list_dir@, name, list_ext()), render_lines(m)),
        (join3(l.desc_dir@, name, desc_ext()), desc_text),
    ]
}

/// The views of a sequence of record writes.
pub open spec fn writes_view(v: Seq<RecordWrite>) -> Seq<(Seq<char>, Seq<char>)> {
    v.map_values(|w: RecordWrite| (w.path@, w.content@))
}

/// The record files that register an installed package.
pub fn record_writes(l: &Layout, name: &str, desc_text: &str, m: &Vec<String>) -> (r: Vec<RecordWrite>)
    ensures
        writes_view(r@) == record_spec(*l, name@, desc_text@, paths_view(m@)),
{
    let mut r: Vec<RecordWrite> = Vec::new();
    r.push(RecordWrite { path: l.list_path(name), content: render_manifest(m) });
    r.push(RecordWrite { path: l.desc_path(name), content: String::from_str(desc_text) });
    assert(writes_view(r@) =~= record_spec(*l, name@, desc_text@, paths_view(m@)));
    r
}

/// The registry's files, by path, after the writes `w` in order.
pub open spec fn apply_writes(files: Map<Seq<char>, Seq<char>>, w: Seq<(Seq<char>, Seq<char>)>) -> Map<Seq<char>, Seq<char>>
    decreases w.len(),
{
    if w.len() == 0 {
        files
    } else {
        apply_writes(files, w.drop_last()).insert(w.last().0, w.last().1)
    }
}

/// The registry's files, by path, after the record deletions among `steps`.
pub open spec fn apply_record_deletions(files: Map<Seq<char>, Seq<char>>, steps: Seq<StepView>) -> Map<Seq<char>, Seq<char>>
    decreases steps.len(),
{
    if steps.len() == 0 {
        files
    } else if steps.last().0 == StepKind::DeleteRecord {
        apply_record_deletions(files, steps.drop_last()).remove(steps.last().1)
    } else {
        apply_record_deletions(files, steps.drop_last())
    }
}

} // verus!
