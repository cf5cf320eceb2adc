use account_store::error::StoreError;
use account_store::persist::{
    AtomicWrite, LoadAction, LoadEvent, LoadStage, Recovery, WriteAction, WriteEvent,
    WriteStage,
};

fn run_write(events: Vec<WriteEvent>) -> (Vec<WriteAction>, WriteStage) {
    let (mut write, first) = AtomicWrite::begin();
    let mut actions = vec![first];
    for event in events {
        actions.push(write.advance(event));
    }
    (actions, write.stage)
}

fn run_load(events: Vec<LoadEvent>) -> (Vec<LoadAction>, LoadStage) {
    let (mut load, first) = Recovery::begin();
    let mut actions = vec![first];
    for event in events {
        actions.push(load.advance(event));
    }
    (actions, load.stage)
}

fn read_back(text: &str) -> WriteAction {
    let mut write = AtomicWrite { stage: WriteStage::Reading };
    write.advance(WriteEvent::ReadBack(Some(text.to_string())))
}

#[test]
fn json_texts_are_told_from_others() {
    assert_eq!(read_back("{\"accounts\": []}"), WriteAction::ProbeTarget);
    assert_eq!(read_back("[1, 2, 3]"), WriteAction::ProbeTarget);
    assert_eq!(read_back(" null "), WriteAction::ProbeTarget);
    assert_eq!(read_back(""), WriteAction::RemoveTemp);
    assert_eq!(read_back("{\"accounts\": ["), WriteAction::RemoveTemp);
    assert_eq!(read_back("{} trailing"), WriteAction::RemoveTemp);
    assert_eq!(read_back("accounts"), WriteAction::RemoveTemp);
}

#[test]
fn write_over_an_existing_target_backs_it_up_first() {
    let (actions, stage) = run_write(vec![
        WriteEvent::Wrote(true),
        WriteEvent::ReadBack(Some("{}".to_string())),
        WriteEvent::Exists(true),
        WriteEvent::Copied(true),
        WriteEvent::Renamed(true),
    ]);
    assert_eq!(
        actions,
        vec![
            WriteAction::WriteTemp,
            WriteAction::ReadTemp,
            WriteAction::ProbeTarget,
            WriteAction::CopyTargetToBackup,
            WriteAction::RenameTempToTarget,
            WriteAction::Succeeded,
        ]
    );
    assert_eq!(stage, WriteStage::Succeeded);
}

#[test]
fn first_write_makes_no_backup() {
    let (actions, stage) = run_write(vec![
        WriteEvent::Wrote(true),
        WriteEvent::ReadBack(Some("[]".to_string())),
        WriteEvent::Exists(false),
        WriteEvent::Renamed(true),
    ]);
    assert_eq!(
        actions,
        vec![
            WriteAction::WriteTemp,
            WriteAction::ReadTemp,
            WriteAction::ProbeTarget,
            WriteAction::RenameTempToTarget,
            WriteAction::Succeeded,
        ]
    );
    assert_eq!(stage, WriteStage::Succeeded);
}

#[test]
fn spoilt_temporary_file_is_never_committed() {
    let (actions, stage) = run_write(vec![
        WriteEvent::Wrote(true),
        WriteEvent::ReadBack(Some("{\"cut".to_string())),
        WriteEvent::Removed,
    ]);
    assert_eq!(
        actions,
        vec![
            WriteAction::WriteTemp,
            WriteAction::ReadTemp,
            WriteAction::RemoveTemp,
            WriteAction::Failed(StoreError::Validation),
        ]
    );
    assert_eq!(stage, WriteStage::Failed(StoreError::Validation));
}

#[test]
fn every_failed_step_removes_the_temporary_file() {
    let good = || WriteEvent::ReadBack(Some("{}".to_string()));
    let runs: Vec<Vec<WriteEvent>> = vec![
        vec![WriteEvent::Wrote(false)],
        vec![WriteEvent::Wrote(true), WriteEvent::ReadBack(None)],
        vec![WriteEvent::Wrote(true), good(), WriteEvent::Exists(true), WriteEvent::Copied(false)],
        vec![WriteEvent::Wrote(true), good(), WriteEvent::Exists(false), WriteEvent::Renamed(false)],
        vec![
            WriteEvent::Wrote(true),
            good(),
            WriteEvent::Exists(true),
            WriteEvent::Copied(true),
            WriteEvent::Renamed(false),
        ],
        vec![WriteEvent::Wrote(true), WriteEvent::Renamed(true)],
    ];
    for events in runs {
        let (mut actions, stage) = run_write(events);
        assert_eq!(actions.pop(), Some(WriteAction::RemoveTemp));
        assert!(!actions.contains(&WriteAction::Succeeded));
        assert_eq!(stage, WriteStage::Cleaning(StoreError::Io));
        let mut write = AtomicWrite { stage };
        assert_eq!(write.advance(WriteEvent::Removed), WriteAction::Failed(StoreError::Io));
        assert_eq!(write.advance(WriteEvent::Renamed(true)), WriteAction::Failed(StoreError::Io));
    }
}

#[test]
fn finished_write_stays_finished() {
    let mut write = AtomicWrite { stage: WriteStage::Succeeded };
    assert_eq!(write.advance(WriteEvent::Wrote(false)), WriteAction::Succeeded);
    assert_eq!(write.stage, WriteStage::Succeeded);
}

#[test]
fn load_of_a_sound_primary_uses_it() {
    let (actions, stage) = run_load(vec![LoadEvent::Exists(true), LoadEvent::Loaded(true)]);
    assert_eq!(actions, vec![LoadAction::ProbePrimary, LoadAction::LoadPrimary, LoadAction::UsePrimary]);
    assert_eq!(stage, LoadStage::Done(LoadAction::UsePrimary));
}

#[test]
fn load_without_a_primary_starts_fresh() {
    let (actions, _) = run_load(vec![LoadEvent::Exists(false)]);
    assert_eq!(actions, vec![LoadAction::ProbePrimary, LoadAction::UseDefault]);
}

#[test]
fn load_recovers_a_spoilt_primary_from_its_backup() {
    let (actions, stage) = run_load(vec![
        LoadEvent::Exists(true),
        LoadEvent::Loaded(false),
        LoadEvent::Exists(true),
        LoadEvent::Loaded(true),
        LoadEvent::Copied(true),
    ]);
    assert_eq!(
        actions,
        vec![
            LoadAction::ProbePrimary,
            LoadAction::LoadPrimary,
            LoadAction::ProbeBackup,
            LoadAction::LoadBackup,
            LoadAction::CopyBackupToPrimary,
            LoadAction::UseBackup,
        ]
    );
    assert_eq!(stage, LoadStage::Done(LoadAction::UseBackup));
}

#[test]
fn load_without_a_usable_backup_starts_fresh() {
    let (actions, _) = run_load(vec![
        LoadEvent::Exists(true),
        LoadEvent::Loaded(false),
        LoadEvent::Exists(false),
    ]);
    assert_eq!(actions.last(), Some(&LoadAction::UseDefault));
    let (actions, _) = run_load(vec![
        LoadEvent::Exists(true),
        LoadEvent::Loaded(false),
        LoadEvent::Exists(true),
        LoadEvent::Loaded(false),
    ]);
    assert_eq!(actions.last(), Some(&LoadAction::UseDefault));
}

#[test]
fn load_fails_where_the_repair_fails() {
    let (actions, stage) = run_load(vec![
        LoadEvent::Exists(true),
        LoadEvent::Loaded(false),
        LoadEvent::Exists(true),
        LoadEvent::Loaded(true),
        LoadEvent::Copied(false),
        LoadEvent::Copied(true),
    ]);
    assert_eq!(actions[5], LoadAction::Fail(StoreError::Io));
    assert_eq!(actions[6], LoadAction::Fail(StoreError::Io));
    assert_eq!(stage, LoadStage::Done(LoadAction::Fail(StoreError::Io)));
}

#[test]
fn load_fails_on_a_report_that_answers_nothing() {
    let (actions, _) = run_load(vec![LoadEvent::Loaded(true)]);
    assert_eq!(actions.last(), Some(&LoadAction::Fail(StoreError::Io)));
    let (actions, _) = run_load(vec![LoadEvent::Exists(true), LoadEvent::Copied(true)]);
    assert_eq!(actions.last(), Some(&LoadAction::Fail(StoreError::Io)));
}
