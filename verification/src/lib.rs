//! The logic of MH Monitoring, a performance overlay for games.

use vstd::prelude::*;

pub mod alike;
pub mod backend;
pub mod blocks;
pub mod chart;
pub mod cli;
pub mod collect;
pub mod controls;
pub mod diag;
pub mod etw;
pub mod format;
pub mod games;
pub mod grid;
pub mod hud;
pub mod installer;
pub mod items;
pub mod json;
pub mod keys;
pub mod limits;
pub mod measure;
pub mod modes;
pub mod names;
pub mod number;
pub mod overlay;
pub mod pages;
pub mod paths;
pub mod placement;
pub mod preview;
pub mod probe;
pub mod procs;
pub mod ranking;
pub mod readings;
pub mod remote;
pub mod resources;
pub mod same;
pub mod saved;
pub mod schema;
pub mod service;
pub mod settings;
pub mod settings_file;
pub mod settings_window;
pub mod setup_window;
pub mod snapshot;
pub mod stats;
pub mod strip;
pub mod sys;
pub mod table;
pub mod tasks;
pub mod text;
pub mod theme;
pub mod units;

verus! {

} // verus!
