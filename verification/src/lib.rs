//! The rules of the Basalt game launcher, verified.
use vstd::prelude::*;

pub mod autoconfig;
pub mod catalog;
pub mod cli;
pub mod discovery;
pub mod emulation;
pub mod emulation_target;
pub mod emulator_systems;
pub mod error;
pub mod games;
pub mod json;
pub mod playlist_laws;
pub mod playlists;
pub mod registry;
pub mod runners;
pub mod runtime;
pub mod scripts;
pub mod settings;
pub mod status;
pub mod sync;
pub mod text;
pub mod types;
pub mod update;
pub mod usage;

