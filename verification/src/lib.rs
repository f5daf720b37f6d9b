//! The engine of a picture frame: scenes as graphs of operations, the two
//! ways of running them, and the operations themselves, with the rules
//! of the runtime around them.
//!
//! A scene is run as a chain of nodes ([`scenes`]) or rendered to a picture
//! along its wires ([`dataflow`]). Both call on the operations of
//! [`apps`], among them the reading of calendars ([`ical`]) and the
//! writing of agendas ([`agenda`]).

use vstd::prelude::*;

pub mod agenda;
pub mod apps;
pub mod calendar;
pub mod canvas;
pub mod clock;
pub mod codec;
pub mod config;
pub mod dataflow;
pub mod discovery;
pub mod e2e;
pub mod e2e_cli;
pub mod ical;
pub mod interfaces;
pub mod json;
pub mod logging;
pub mod manifests;
pub mod metrics;
pub mod models;
pub mod parity;
pub mod runtime;
pub mod scenes;
pub mod server;
pub mod text;
pub mod xml;

verus! {

} // verus!
