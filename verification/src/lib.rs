//! Brightness scheduling for displays: brightness curves over the course of a day,
//! per-display overrides, and the decisions of the scheduling loop.
use vstd::prelude::*;

pub mod apply;
pub mod config;
pub mod curve;
pub mod daylight;
pub mod editor;
pub mod monitor;
pub mod remote;
pub mod schedule;
pub mod text;

verus! {
} // verus!
