//! How a file is replaced so that it is never seen half written, and how
//! a file that cannot be read is recovered from its backup.
//!
//! Both protocols are written as machines: a machine names the next step
//! on the files, the caller performs it and reports how it went. The
//! files themselves are modelled as three optional texts, and the laws
//! at the end of this module say what a run of a machine does to them.

use crate::error::StoreError;
use vstd::prelude::*;

verus! {

/// `serde_json` reads the text as a JSON value.
pub uninterp spec fn valid_json(text: Seq<char>) -> bool;

/// Parses a text with `serde_json::from_str` as a `serde_json::Value`
/// and tells whether that went well. Trusted: the answer is a function
/// of the text alone, named `valid_json`.
#[verifier::external_body]
pub(crate) fn parses_as_json(text: &str) -> (r: bool)
    ensures
        r == valid_json(text@),
{
    serde_json::from_str::<serde_json::Value>(text).is_ok()
}

/// Where a write stands: the step that was asked for last.
#[derive(Clone, Copy, Debug, PartialEq, Eq, Structural)]
pub enum WriteStage {
    Writing,
    Reading,
    Probing,
    Copying,
    Renaming,
    Cleaning(StoreError),
    Succeeded,
    Failed(StoreError),
}

/// The next step of a write.
#[derive(Clone, Copy, Debug, PartialEq, Eq, Structural)]
pub enum WriteAction {
    /// Write the new content to the temporary file.
    WriteTemp,
    /// Read the temporary file back.
    ReadTemp,
    /// Find out whether the target exists.
    ProbeTarget,
    /// Copy the target over the backup.
    CopyTargetToBackup,
    /// Rename the temporary file onto the target: the commit.
    RenameTempToTarget,
    /// Remove the temporary file, whether or not that works.
    RemoveTemp,
    /// The write is done and the target holds the new content.
    Succeeded,
    /// The write is given up and the target is as it was.
    Failed(StoreError),
}

/// How the step that was asked for last went.
#[derive(Debug, PartialEq, Eq)]
pub enum WriteEvent {
    Wrote(bool),
    ReadBack(Option<String>),
    Exists(bool),
    Copied(bool),
    Renamed(bool),
    Removed,
}

/// The model of a `WriteEvent`.
pub enum WriteEventModel {
    Wrote(bool),
    ReadBack(Option<Seq<char>>),
    Exists(bool),
    Copied(bool),
    Renamed(bool),
    Removed,
}

impl View for WriteEvent {
    type V = WriteEventModel;

    open spec fn view(&self) -> WriteEventModel {
        match *self {
            WriteEvent::Wrote(ok) => WriteEventModel::Wrote(ok),
            WriteEvent::ReadBack(text) => WriteEventModel::ReadBack(text.deep_view()),
            WriteEvent::Exists(there) => WriteEventModel::Exists(there),
            WriteEvent::Copied(ok) => WriteEventModel::Copied(ok),
            WriteEvent::Renamed(ok) => WriteEventModel::Renamed(ok),
            WriteEvent::Removed => WriteEventModel::Removed,
        }
    }
}

/// The step that leads away from a failure: the temporary file is
/// removed, and the write then fails with the error.
pub open spec fn give_up(e: StoreError) -> (WriteStage, WriteAction) {
    (WriteStage::Cleaning(e), WriteAction::RemoveTemp)
}

/// The protocol of a write. The content goes to a temporary file, is
/// read back and must be a JSON value; a target that exists is copied
/// over the backup; the temporary file is renamed onto the target. A
/// step that fails, or a report that does not answer the step asked for,
/// leads to the removal of the temporary file and to a failure.
pub open spec fn next_write(stage: WriteStage, event: WriteEventModel) -> (
    WriteStage,
    WriteAction,
) {
    match stage {
        WriteStage::Writing => match event {
            WriteEventModel::Wrote(true) => (WriteStage::Reading, WriteAction::ReadTemp),
            _ => give_up(StoreError::Io),
        },
        WriteStage::Reading => match event {
            WriteEventModel::ReadBack(Some(text)) => if valid_json(text) {
                (WriteStage::Probing, WriteAction::ProbeTarget)
            } else {
                give_up(StoreError::Validation)
            },
            _ => give_up(StoreError::Io),
        },
        WriteStage::Probing => match event {
            WriteEventModel::Exists(true) => (
                WriteStage::Copying,
                WriteAction::CopyTargetToBackup,
            ),
            WriteEventModel::Exists(false) => (
                WriteStage::Renaming,
                WriteAction::RenameTempToTarget,
            ),
            _ => give_up(StoreError::Io),
        },
        WriteStage::Copying => match event {
            WriteEventModel::Copied(true) => (
                WriteStage::Renaming,
                WriteAction::RenameTempToTarget,
            ),
            _ => give_up(StoreError::Io),
        },
        WriteStage::Renaming => match event {
            WriteEventModel::Renamed(true) => (WriteStage::Succeeded, WriteAction::Succeeded),
            _ => give_up(StoreError::Io),
        },
        WriteStage::Cleaning(e) => (WriteStage::Failed(e), WriteAction::Failed(e)),
        WriteStage::Succeeded => (WriteStage::Succeeded, WriteAction::Succeeded),
        WriteStage::Failed(e) => (WriteStage::Failed(e), WriteAction::Failed(e)),
    }
}

/// A write in progress.
#[derive(Debug, PartialEq, Eq)]
pub struct AtomicWrite {
    pub stage: WriteStage,
}

impl AtomicWrite {
    /// Starts a write: the first step is to write the temporary file.
    pub fn begin() -> (r: (AtomicWrite, WriteAction))
        ensures
            r.0.stage == WriteStage::Writing,
            r.1 == WriteAction::WriteTemp,
    {
        (AtomicWrite { stage: WriteStage::Writing }, WriteAction::WriteTemp)
    }

    /// Takes the report on the step asked for last and names the next.
    pub fn advance(&mut self, event: WriteEvent) -> (r: WriteAction)
        ensures
            (final(self).stage, r) == next_write(old(self).stage, event@),
    {
        let (stage, action) = match self.stage {
            WriteStage::Writing => match event {
                WriteEvent::Wrote(true) => (WriteStage::Reading, WriteAction::ReadTemp),
                _ => (WriteStage::Cleaning(StoreError::Io), WriteAction::RemoveTemp),
            },
            WriteStage::Reading => match event {
                WriteEvent::ReadBack(Some(text)) => if parses_as_json(text.as_str()) {
                    (WriteStage::Probing, WriteAction::ProbeTarget)
                } else {
                    (WriteStage::Cleaning(StoreError::Validation), WriteAction::RemoveTemp)
                },
                _ => (WriteStage::Cleaning(StoreError::Io), WriteAction::RemoveTemp),
            },
            WriteStage::Probing => match event {
                WriteEvent::Exists(true) => (WriteStage::Copying, WriteAction::CopyTargetToBackup),
                WriteEvent::Exists(false) => (
                    WriteStage::Renaming,
                    WriteAction::RenameTempToTarget,
                ),
                _ => (WriteStage::Cleaning(StoreError::Io), WriteAction::RemoveTemp),
            },
            WriteStage::Copying => match event {
                WriteEvent::Copied(true) => (WriteStage::Renaming, WriteAction::RenameTempToTarget),
                _ => (WriteStage::Cleaning(StoreError::Io), WriteAction::RemoveTemp),
            },
            WriteStage::Renaming => match event {
                WriteEvent::Renamed(true) => (WriteStage::Succeeded, WriteAction::Succeeded),
                _ => (WriteStage::Cleaning(StoreError::Io), WriteAction::RemoveTemp),
            },
            WriteStage::Cleaning(e) => (WriteStage::Failed(e), WriteAction::Failed(e)),
            WriteStage::Succeeded => (WriteStage::Succeeded, WriteAction::Succeeded),
            WriteStage::Failed(e) => (WriteStage::Failed(e), WriteAction::Failed(e)),
        };
        self.stage = stage;
        action
    }
}

/// The files that a write touches: the target, its backup and the
/// temporary file, each with its content where it exists.
pub struct Files {
    pub target: Option<Seq<char>>,
    pub backup: Option<Seq<char>>,
    pub temp: Option<Seq<char>>,
}

/// What a step does to the files, given the report on it. A step that
/// is reported as failed is taken to leave the files as they were. The
/// removal of the temporary file carries no outcome in its report: the
/// model takes it to have worked, which the file system does not owe.
pub open spec fn after_write(
    files: Files,
    action: WriteAction,
    event: WriteEventModel,
    data: Seq<char>,
) -> Files {
    match action {
        WriteAction::WriteTemp => if event == WriteEventModel::Wrote(true) {
            Files { temp: Some(data), ..files }
        } else {
            files
        },
        WriteAction::CopyTargetToBackup => if event == WriteEventModel::Copied(true) {
            Files { backup: files.target, ..files }
        } else {
            files
        },
        WriteAction::RenameTempToTarget => if event == WriteEventModel::Renamed(true) {
            Files { target: files.temp, temp: None, ..files }
        } else {
            files
        },
        WriteAction::RemoveTemp => Files { temp: None, ..files },
        _ => files,
    }
}

/// The report tells the truth about the files: what is read back is
/// what the temporary file holds, and the target is said to exist where
/// it does.
pub open spec fn truthful(files: Files, action: WriteAction, event: WriteEventModel) -> bool {
    match action {
        WriteAction::ReadTemp => match event {
            WriteEventModel::ReadBack(Some(text)) => files.temp == Some(text),
            _ => true,
        },
        WriteAction::ProbeTarget => match event {
            WriteEventModel::Exists(there) => there == files.target.is_some(),
            _ => true,
        },
        _ => true,
    }
}

/// Where a write of `data` stands after a sequence of reports, and what
/// the files hold then.
pub struct WriteRun {
    pub stage: WriteStage,
    pub action: WriteAction,
    pub files: Files,
    pub truthful: bool,
}

/// Runs the protocol of a write of `data` on `files` against a sequence
/// of reports.
pub open spec fn run_write(files: Files, data: Seq<char>, events: Seq<WriteEventModel>) -> WriteRun
    decreases events.len(),
{
    if events.len() == 0 {
        WriteRun {
            stage: WriteStage::Writing,
            action: WriteAction::WriteTemp,
            files,
            truthful: true,
        }
    } else {
        let before = run_write(files, data, events.drop_last());
        let step = next_write(before.stage, events.last());
        WriteRun {
            stage: step.0,
            action: step.1,
            files: after_write(before.files, before.action, events.last(), data),
            truthful: before.truthful && truthful(before.files, before.action, events.last()),
        }
    }
}

/// What holds at every point of a truthful run.
spec fn write_invariant(files: Files, data: Seq<char>, run: WriteRun) -> bool {
    &&& run.stage != WriteStage::Succeeded ==> run.files.target == files.target
    &&& run.stage == WriteStage::Succeeded <==> run.action == WriteAction::Succeeded
    &&& run.action == WriteAction::RenameTempToTarget <==> run.stage == WriteStage::Renaming
    &&& run.action == WriteAction::CopyTargetToBackup <==> run.stage == WriteStage::Copying
    &&& run.action == WriteAction::WriteTemp <==> run.stage == WriteStage::Writing
    &&& run.action == WriteAction::ReadTemp <==> run.stage == WriteStage::Reading
    &&& run.action == WriteAction::ProbeTarget <==> run.stage == WriteStage::Probing
    &&& run.action == WriteAction::RemoveTemp <==> run.stage is Cleaning
    &&& run.stage is Failed ==> run.files.temp is None
    &&& run.truthful ==> {
        &&& run.stage == WriteStage::Reading ==> run.files.temp == Some(data)
        &&& run.stage == WriteStage::Probing || run.stage == WriteStage::Copying || run.stage
            == WriteStage::Renaming ==> run.files.temp == Some(data) && valid_json(data)
        &&& run.stage == WriteStage::Copying ==> files.target is Some
        &&& run.stage == WriteStage::Writing || run.stage == WriteStage::Reading || run.stage
            == WriteStage::Probing || run.stage == WriteStage::Copying ==> run.files.backup
            == files.backup
        &&& run.stage == WriteStage::Renaming || run.stage == WriteStage::Succeeded
            ==> run.files.backup == if files.target is Some {
            files.target
        } else {
            files.backup
        }
        &&& run.stage == WriteStage::Succeeded ==> run.files.target == Some(data) && valid_json(
            data,
        ) && run.files.temp is None
    }
}

proof fn lemma_write_invariant(files: Files, data: Seq<char>, events: Seq<WriteEventModel>)
    ensures
        write_invariant(files, data, run_write(files, data, events)),
    decreases events.len(),
{
    if events.len() > 0 {
        lemma_write_invariant(files, data, events.drop_last());
    }
}

/// A write is atomic: however far it got and whatever was reported,
/// until it has succeeded the target holds what it held before. A write
/// that is interrupted or that fails leaves the target untouched. A
/// write that has failed has asked for its temporary file to be removed:
/// that the file is then gone holds of the model, which takes every
/// removal to have worked, and of the file system only where the removal
/// did work.
pub proof fn lemma_write_atomic(files: Files, data: Seq<char>, events: Seq<WriteEventModel>)
    ensures
        run_write(files, data, events).stage != WriteStage::Succeeded ==> run_write(
            files,
            data,
            events,
        ).files.target == files.target,
        run_write(files, data, events).stage is Failed ==> run_write(
            files,
            data,
            events,
        ).files.temp is None,
{
    lemma_write_invariant(files, data, events);
}

/// A write that has succeeded on truthful reports has put the new
/// content, which is a JSON value, in the target, has left no temporary
/// file, and has put in the backup what the target held before; where
/// there was no target the backup is as it was.
pub proof fn lemma_write_commits(files: Files, data: Seq<char>, events: Seq<WriteEventModel>)
    requires
        run_write(files, data, events).stage == WriteStage::Succeeded,
        run_write(files, data, events).truthful,
    ensures
        run_write(files, data, events).files.target == Some(data),
        valid_json(data),
        run_write(files, data, events).files.temp is None,
        files.target is Some ==> run_write(files, data, events).files.backup == files.target,
        files.target is None ==> run_write(files, data, events).files.backup == files.backup,
{
    lemma_write_invariant(files, data, events);
}

/// After two writes that succeeded, one after the other, the backup
/// holds what the first of them wrote: the backup is always one
/// generation behind the target.
pub proof fn lemma_backup_is_previous(
    files: Files,
    first: Seq<char>,
    first_events: Seq<WriteEventModel>,
    second: Seq<char>,
    second_events: Seq<WriteEventModel>,
)
    requires
        run_write(files, first, first_events).stage == WriteStage::Succeeded,
        run_write(files, first, first_events).truthful,
        run_write(
            run_write(files, first, first_events).files,
            second,
            second_events,
        ).stage == WriteStage::Succeeded,
        run_write(run_write(files, first, first_events).files, second, second_events).truthful,
    ensures
        run_write(
            run_write(files, first, first_events).files,
            second,
            second_events,
        ).files.backup == Some(first),
        run_write(
            run_write(files, first, first_events).files,
            second,
            second_events,
        ).files.target == Some(second),
{
    lemma_write_commits(files, first, first_events);
    lemma_write_commits(run_write(files, first, first_events).files, second, second_events);
}

/// Where a load stands: the step that was asked for last.
#[derive(Clone, Copy, Debug, PartialEq, Eq, Structural)]
pub enum LoadStage {
    ProbingPrimary,
    LoadingPrimary,
    ProbingBackup,
    LoadingBackup,
    Repairing,
    Done(LoadAction),
}

/// The next step of a load, or its end.
#[derive(Clone, Copy, Debug, PartialEq, Eq, Structural)]
pub enum LoadAction {
    /// Find out whether the primary file exists.
    ProbePrimary,
    /// Read the primary file and take it apart.
    LoadPrimary,
    /// Find out whether the backup exists.
    ProbeBackup,
    /// Read the backup and take it apart.
    LoadBackup,
    /// Copy the backup over the primary file.
    CopyBackupToPrimary,
    /// The end: what the primary file held is the value.
    UsePrimary,
    /// The end: what the backup held is the value.
    UseBackup,
    /// The end: the value is the one of a fresh installation.
    UseDefault,
    /// The end: the load failed.
    Fail(StoreError),
}

/// How the step that was asked for last went.
#[derive(Clone, Copy, Debug, PartialEq, Eq, Structural)]
pub enum LoadEvent {
    Exists(bool),
    Loaded(bool),
    Copied(bool),
}

/// The end of a load.
pub open spec fn done(action: LoadAction) -> (LoadStage, LoadAction) {
    (LoadStage::Done(action), action)
}

/// The protocol of a load. A primary file that does not exist gives the
/// value of a fresh installation. One that cannot be read or taken apart
/// sends the load to the backup: a backup that is there and usable is
/// copied over the primary file and gives the value; where none is, the
/// value is the one of a fresh installation. A report that does not
/// answer the step asked for fails the load.
pub open spec fn next_load(stage: LoadStage, event: LoadEvent) -> (LoadStage, LoadAction) {
    match stage {
        LoadStage::ProbingPrimary => match event {
            LoadEvent::Exists(true) => (LoadStage::LoadingPrimary, LoadAction::LoadPrimary),
            LoadEvent::Exists(false) => done(LoadAction::UseDefault),
            _ => done(LoadAction::Fail(StoreError::Io)),
        },
        LoadStage::LoadingPrimary => match event {
            LoadEvent::Loaded(true) => done(LoadAction::UsePrimary),
            LoadEvent::Loaded(false) => (LoadStage::ProbingBackup, LoadAction::ProbeBackup),
            _ => done(LoadAction::Fail(StoreError::Io)),
        },
        LoadStage::ProbingBackup => match event {
            LoadEvent::Exists(true) => (LoadStage::LoadingBackup, LoadAction::LoadBackup),
            LoadEvent::Exists(false) => done(LoadAction::UseDefault),
            _ => done(LoadAction::Fail(StoreError::Io)),
        },
        LoadStage::LoadingBackup => match event {
            LoadEvent::Loaded(true) => (LoadStage::Repairing, LoadAction::CopyBackupToPrimary),
            LoadEvent::Loaded(false) => done(LoadAction::UseDefault),
            _ => done(LoadAction::Fail(StoreError::Io)),
        },
        LoadStage::Repairing => match event {
            LoadEvent::Copied(true) => done(LoadAction::UseBackup),
            _ => done(LoadAction::Fail(StoreError::Io)),
        },
        LoadStage::Done(action) => done(action),
    }
}

/// A load in progress.
#[derive(Debug, PartialEq, Eq)]
pub struct Recovery {
    pub stage: LoadStage,
}

impl Recovery {
    /// Starts a load: the first step is to look for the primary file.
    pub fn begin() -> (r: (Recovery, LoadAction))
        ensures
            r.0.stage == LoadStage::ProbingPrimary,
            r.1 == LoadAction::ProbePrimary,
    {
        (Recovery { stage: LoadStage::ProbingPrimary }, LoadAction::ProbePrimary)
    }

    /// Takes the report on the step asked for last and names the next.
    pub fn advance(&mut self, event: LoadEvent) -> (r: LoadAction)
        ensures
            (final(self).stage, r) == next_load(old(self).stage, event),
    {
        let action = match self.stage {
            LoadStage::ProbingPrimary => match event {
                LoadEvent::Exists(true) => LoadAction::LoadPrimary,
                LoadEvent::Exists(false) => LoadAction::UseDefault,
                _ => LoadAction::Fail(StoreError::Io),
            },
            LoadStage::LoadingPrimary => match event {
                LoadEvent::Loaded(true) => LoadAction::UsePrimary,
                LoadEvent::Loaded(false) => LoadAction::ProbeBackup,
                _ => LoadAction::Fail(StoreError::Io),
            },
            LoadStage::ProbingBackup => match event {
                LoadEvent::Exists(true) => LoadAction::LoadBackup,
                LoadEvent::Exists(false) => LoadAction::UseDefault,
                _ => LoadAction::Fail(StoreError::Io),
            },
            LoadStage::LoadingBackup => match event {
                LoadEvent::Loaded(true) => LoadAction::CopyBackupToPrimary,
                LoadEvent::Loaded(false) => LoadAction::UseDefault,
                _ => LoadAction::Fail(StoreError::Io),
            },
            LoadStage::Repairing => match event {
                LoadEvent::Copied(true) => LoadAction::UseBackup,
                _ => LoadAction::Fail(StoreError::Io),
            },
            LoadStage::Done(action) => {
                return action;
            },
        };
        self.stage = match action {
            LoadAction::LoadPrimary => LoadStage::LoadingPrimary,
            LoadAction::ProbeBackup => LoadStage::ProbingBackup,
            LoadAction::LoadBackup => LoadStage::LoadingBackup,
            LoadAction::CopyBackupToPrimary => LoadStage::Repairing,
            _ => LoadStage::Done(action),
        };
        action
    }
}

/// What a step of a load does to the files, given the report on it.
pub open spec fn after_load(files: Files, action: LoadAction, event: LoadEvent) -> Files {
    if action == LoadAction::CopyBackupToPrimary && event == LoadEvent::Copied(true) {
        Files { target: files.backup, ..files }
    } else {
        files
    }
}

/// The report tells the truth about the files: a file is said to exist
/// where it does, and to be loaded where it exists and is usable.
pub open spec fn truthful_load(
    files: Files,
    usable: spec_fn(Seq<char>) -> bool,
    action: LoadAction,
    event: LoadEvent,
) -> bool {
    match action {
        LoadAction::ProbePrimary => event == LoadEvent::Exists(files.target is Some),
        LoadAction::LoadPrimary => event == LoadEvent::Loaded(
            files.target is Some && usable(files.target.unwrap()),
        ),
        LoadAction::ProbeBackup => event == LoadEvent::Exists(files.backup is Some),
        LoadAction::LoadBackup => event == LoadEvent::Loaded(
            files.backup is Some && usable(files.backup.unwrap()),
        ),
        LoadAction::CopyBackupToPrimary => event is Copied,
        _ => true,
    }
}

/// Where a load stands after a sequence of reports, and what the files
/// hold then.
pub struct LoadRun {
    pub stage: LoadStage,
    pub action: LoadAction,
    pub files: Files,
    pub truthful: bool,
}

/// Runs the protocol of a load on `files` against a sequence of reports.
pub open spec fn run_load(
    files: Files,
    usable: spec_fn(Seq<char>) -> bool,
    events: Seq<LoadEvent>,
) -> LoadRun
    decreases events.len(),
{
    if events.len() == 0 {
        LoadRun {
            stage: LoadStage::ProbingPrimary,
            action: LoadAction::ProbePrimary,
            files,
            truthful: true,
        }
    } else {
        let before = run_load(files, usable, events.drop_last());
        let step = next_load(before.stage, events.last());
        LoadRun {
            stage: step.0,
            action: step.1,
            files: after_load(before.files, before.action, events.last()),
            truthful: before.truthful && truthful_load(
                before.files,
                usable,
                before.action,
                events.last(),
            ),
        }
    }
}

/// What holds at every point of a truthful load.
spec fn load_invariant(files: Files, usable: spec_fn(Seq<char>) -> bool, run: LoadRun) -> bool {
    let primary_good = files.target is Some && usable(files.target.unwrap());
    let backup_good = files.backup is Some && usable(files.backup.unwrap());
    &&& run.files.backup == files.backup
    &&& run.stage == LoadStage::ProbingPrimary <==> run.action == LoadAction::ProbePrimary
    &&& run.stage == LoadStage::LoadingPrimary <==> run.action == LoadAction::LoadPrimary
    &&& run.stage == LoadStage::ProbingBackup <==> run.action == LoadAction::ProbeBackup
    &&& run.stage == LoadStage::LoadingBackup <==> run.action == LoadAction::LoadBackup
    &&& run.stage == LoadStage::Repairing <==> run.action == LoadAction::CopyBackupToPrimary
    &&& run.stage is Done ==> run.stage == LoadStage::Done(run.action)
    &&& run.action != LoadAction::UseBackup ==> run.files.target == files.target
    &&& run.truthful ==> {
        &&& run.stage == LoadStage::LoadingPrimary ==> files.target is Some
        &&& run.stage == LoadStage::ProbingBackup || run.stage == LoadStage::LoadingBackup
            || run.stage == LoadStage::Repairing ==> files.target is Some && !primary_good
        &&& run.stage == LoadStage::LoadingBackup ==> files.backup is Some
        &&& run.stage == LoadStage::Repairing ==> backup_good
        &&& run.action == LoadAction::UsePrimary ==> primary_good
        &&& run.action == LoadAction::UseBackup ==> !primary_good && backup_good
            && run.files.target == files.backup
        &&& run.action == LoadAction::UseDefault ==> files.target is None || (!primary_good
            && !backup_good)
        &&& run.action is Fail ==> !primary_good && backup_good
    }
}

proof fn lemma_load_invariant(
    files: Files,
    usable: spec_fn(Seq<char>) -> bool,
    events: Seq<LoadEvent>,
)
    ensures
        load_invariant(files, usable, run_load(files, usable, events)),
    decreases events.len(),
{
    if events.len() > 0 {
        lemma_load_invariant(files, usable, events.drop_last());
    }
}

/// A load on truthful reports ends as the files demand. It takes the
/// primary file only where that is usable. It takes the backup only
/// where the primary file is there but not usable and the backup is
/// usable, and has then repaired the primary file to hold what the
/// backup holds. It falls back to a fresh value only where there is no
/// primary file, or neither file is usable. It fails only where the
/// repair of the primary file from a usable backup failed. The backup
/// is never changed.
pub proof fn lemma_recovery(
    files: Files,
    usable: spec_fn(Seq<char>) -> bool,
    events: Seq<LoadEvent>,
)
    requires
        run_load(files, usable, events).truthful,
    ensures
        ({
            let run = run_load(files, usable, events);
            let primary_good = files.target is Some && usable(files.target.unwrap());
            let backup_good = files.backup is Some && usable(files.backup.unwrap());
            &&& run.files.backup == files.backup
            &&& run.action == LoadAction::UsePrimary ==> primary_good && run.files.target
                == files.target
            &&& run.action == LoadAction::UseBackup ==> files.target is Some && !primary_good
                && backup_good && run.files.target == files.backup
            &&& run.action == LoadAction::UseDefault ==> (files.target is None || (!primary_good
                && !backup_good)) && run.files.target == files.target
            &&& run.action is Fail ==> !primary_good && backup_good && run.files.target
                == files.target
        }),
{
    lemma_load_invariant(files, usable, events);
    let run = run_load(files, usable, events);
    if run.action == LoadAction::UseBackup {
        lemma_use_backup_needs_primary(files, usable, events);
    }
}

proof fn lemma_use_backup_needs_primary(
    files: Files,
    usable: spec_fn(Seq<char>) -> bool,
    events: Seq<LoadEvent>,
)
    requires
        run_load(files, usable, events).truthful,
        run_load(files, usable, events).action == LoadAction::UseBackup,
    ensures
        files.target is Some,
    decreases events.len(),
{
    if events.len() > 0 {
        lemma_load_invariant(files, usable, events.drop_last());
        let before = run_load(files, usable, events.drop_last());
        if before.action == LoadAction::UseBackup {
            lemma_use_backup_needs_primary(files, usable, events.drop_last());
        }
    }
}

/// A primary file that is spoilt beside a usable backup is recovered:
/// the five reports of such a load end in the backup being taken, and
/// the primary file holds what the backup holds.
pub proof fn lemma_recovers_from_backup(
    files: Files,
    usable: spec_fn(Seq<char>) -> bool,
)
    requires
        files.target is Some,
        !usable(files.target.unwrap()),
        files.backup is Some,
        usable(files.backup.unwrap()),
    ensures
        ({
            let events = seq![
                LoadEvent::Exists(true),
                LoadEvent::Loaded(false),
                LoadEvent::Exists(true),
                LoadEvent::Loaded(true),
                LoadEvent::Copied(true),
            ];
            let run = run_load(files, usable, events);
            &&& run.truthful
            &&& run.action == LoadAction::UseBackup
            &&& run.files.target == files.backup
            &&& run.files.backup == files.backup
        }),
{
    let events = seq![
        LoadEvent::Exists(true),
        LoadEvent::Loaded(false),
        LoadEvent::Exists(true),
        LoadEvent::Loaded(true),
        LoadEvent::Copied(true),
    ];
    let e4 = events.drop_last();
    let e3 = e4.drop_last();
    let e2 = e3.drop_last();
    let e1 = e2.drop_last();
    let e0 = e1.drop_last();
    reveal_with_fuel(run_load, 7);
    assert(e0.len() == 0);
    let r1 = run_load(files, usable, e1);
    assert(r1.action == LoadAction::LoadPrimary && r1.truthful && r1.files == files);
    let r2 = run_load(files, usable, e2);
    assert(r2.action == LoadAction::ProbeBackup && r2.truthful && r2.files == files);
    let r3 = run_load(files, usable, e3);
    assert(r3.action == LoadAction::LoadBackup && r3.truthful && r3.files == files);
    let r4 = run_load(files, usable, e4);
    assert(r4.action == LoadAction::CopyBackupToPrimary && r4.truthful && r4.files == files);
}

} // verus!
