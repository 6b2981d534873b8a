//! Adapter between high-level service intents and a host service manager.
//!
//! The adapter turns intents (install, start, enable, list) into the exact
//! invocations of the manager's control program and into the text of unit
//! files. Nothing here runs a process or touches a file: every operation
//! returns a value that says what is to be done, and the caller does it.
//!
//! * `systemd` holds the adapter itself: its mode, its services directory and
//!   one builder for each intent.
//! * `command` and `action` hold what the builders return: invocations of the
//!   control program and changes to the file system, neither carried out.
//! * `unit`, `text`, `unit_file` and `parse` hold the unit definition, the
//!   text of its unit file, and the way from one to the other and back;
//!   `round_trip` proves that the way back ends where the way out began.
//! * `listing`, `query` and `report` hold the listing of the services, the
//!   invocations that ask the service manager, and the reading of what it
//!   reports; `commands` holds what the front end prints.
//! * `numeral` and `strings` hold what the others need of numbers and
//!   strings.

pub mod action;
pub mod command;
pub mod commands;
pub mod listing;
pub mod numeral;
pub mod parse;
pub mod query;
pub mod report;
pub mod round_trip;
pub mod strings;
pub mod systemd;
pub mod text;
pub mod unit;
pub mod unit_file;
