//! Operations of the store on the settings and on the operation log.

use crate::config::{ConfigModel, Settings, SettingsModel};
use crate::log::{append_log, appended, recent, recent_logs, LogModel, OperationLog};
use crate::store::{DataStore, Persist};
use vstd::prelude::*;

verus! {

impl DataStore {
    /// A copy of the settings.
    pub fn get_settings(&self) -> (r: Settings)
        ensures
            r@ == self@.config.settings,
    {
        self.config.settings.clone()
    }

    /// Replaces the settings as a whole and asks for the aggregate to be
    /// written.
    pub fn update_settings(&mut self, settings: Settings) -> (r: Persist)
        ensures
            final(self)@.config == (ConfigModel { settings: settings@, ..old(self)@.config }),
            final(self)@.logs == old(self)@.logs,
            r == Persist::Config,
            old(self)@.config.wf() ==> final(self)@.config.wf(),
    {
        self.config.settings = settings;
        Persist::Config
    }

    /// Appends an entry to the log, evicts the oldest entries beyond the
    /// limit, and asks for the log to be written.
    pub fn add_log(&mut self, log: OperationLog) -> (r: Persist)
        ensures
            final(self)@.logs == appended(old(self)@.logs, log@),
            final(self)@.config == old(self)@.config,
            r == Persist::Logs,
    {
        append_log(&mut self.logs, log);
        Persist::Logs
    }

    /// The newest `limit` entries of the log in the order in which they
    /// were written, or all of them where no limit is given.
    pub fn get_logs(&self, limit: Option<usize>) -> (r: Vec<OperationLog>)
        ensures
            r.deep_view() == recent(self@.logs, limit),
    {
        recent_logs(&self.logs, limit)
    }

    /// Empties the log and asks for it to be written.
    pub fn clear_logs(&mut self) -> (r: Persist)
        ensures
            final(self)@.logs == Seq::<LogModel>::empty(),
            final(self)@.config == old(self)@.config,
            r == Persist::Logs,
    {
        self.logs.clear();
        assert(self.logs.deep_view() =~= Seq::<LogModel>::empty());
        Persist::Logs
    }
}

/// The place at which the test mode goes on: the last card prefix it
/// has visited.
pub fn get_test_mode_progress(store: &DataStore) -> (r: Option<String>)
    ensures
        r.deep_view() == store@.config.settings.test_mode_last_bin,
{
    store.config.settings.test_mode_last_bin.clone()
}

/// Makes the test mode start from the beginning, and asks for the
/// aggregate to be written.
pub fn reset_test_mode_progress(store: &mut DataStore) -> (r: Persist)
    ensures
        final(store)@.config == (ConfigModel {
            settings: SettingsModel {
                test_mode_last_bin: None,
                ..old(store)@.config.settings
            },
            ..old(store)@.config
        }),
        final(store)@.logs == old(store)@.logs,
        r == Persist::Config,
{
    let mut settings = store.get_settings();
    settings.test_mode_last_bin = None;
    store.update_settings(settings)
}

} // verus!
