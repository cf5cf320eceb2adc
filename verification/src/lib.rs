//! A local account store and the supervisor of its network clients.
//!
//! The store keeps accounts, groups, tags and settings in memory, answers
//! queries on them and says after every change what has to be written to
//! disk. A bounded operation log lives beside it. Nothing in this crate
//! touches a file or a socket: the caller holds the state behind its
//! lock, performs the steps that the crate names and reports how they
//! went.
//!
//! - [`account`], [`config`], [`log`]: the records and their models.
//! - [`store`], [`editing`], [`groups`], [`tags`], [`batch`],
//!   [`records`], [`sorting`], [`query`], [`patch`], [`commands`]: the
//!   operations of the store.
//! - [`backup`]: snapshots, import and export.
//! - [`persist`]: the protocol by which a file is replaced without ever
//!   being seen half written, and the recovery of a spoilt file.
//! - [`supervisor`]: when a pooled network client is rebuilt.
//! - [`passwords`]: what the operations do to the stored passwords.
//! - [`order`], [`seqs`], [`text`], [`ident`], [`clock`]: sort keys and
//!   stable order, facts on sequences, texts, ids and times.

pub mod account;
pub mod backup;
pub mod batch;
pub mod clock;
pub mod commands;
pub mod config;
pub mod editing;
pub mod error;
pub mod groups;
pub mod ident;
pub mod log;
pub mod order;
pub mod passwords;
pub mod patch;
pub mod persist;
pub mod query;
pub mod records;
pub mod seqs;
pub mod sorting;
pub mod store;
pub mod supervisor;
pub mod tags;
pub mod text;
