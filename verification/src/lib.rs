//! Verified core of a local feedback protocol that lets an agent drive a Bevy application.
use vstd::prelude::*;

pub mod actions;
pub mod advance;
pub mod agreement;
pub mod answers;
pub mod arguments;
pub mod bounds;
pub mod captures;
pub mod client;
pub mod commands;
pub mod conditions;
pub mod config;
pub mod control;
pub mod diagnostics;
pub mod discovery;
pub mod doctor;
pub mod documents;
pub mod evaluate;
pub mod evidence;
pub mod exchange;
pub mod framing;
pub mod images;
pub mod json;
pub mod lines;
pub mod names;
pub mod projection;
pub mod reals;
pub mod registry;
pub mod requests;
pub mod responses;
pub mod runner;
pub mod span;
pub mod summary;
pub mod targets;
pub mod text;
pub mod timing;
pub mod transcript;
pub mod wire;

verus! {

} // verus!
