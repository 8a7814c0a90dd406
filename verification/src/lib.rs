//! Core library of a resilient, incremental e-mail backup tool: account
//! configuration, CSV bulk import, archive layout, credential sealing,
//! mbox export, retention, scheduling and service descriptors.

pub mod autostart;
pub mod config;
pub mod crypto;
pub mod csv_import;
pub mod db;
pub mod error;
pub mod folder_sync;
pub mod event_log;
pub mod imap;
pub mod keyring;
pub mod mbox;
pub mod paths;
pub mod registration;
pub mod retention;
pub mod scheduler;
pub mod server;
pub mod service;
pub mod storage;
pub mod text;
pub mod time;
