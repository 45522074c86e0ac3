//! Verified core of a desktop monitor for Ubuntu servers: it reads the text
//! that standard Linux commands print over SSH, decides which commands may
//! run, and keeps the monitor's state through user actions and the reports
//! of its background worker.

pub mod format;
pub mod laws;
pub mod model;
pub mod parse;
pub mod service;
pub mod session;
pub mod snapshot;
pub mod text;
