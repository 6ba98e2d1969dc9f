//! The nukeplant viewer: fly de_nuke as a power plant.
//!
//! A baked scene is a pool of vertices, a pool of indices, and thousands of
//! instances that place slices of them. This crate holds everything about the
//! viewer that can be decided without a window, a device or a clock:
//!
//! | | |
//! |---|---|
//! | [`category`] | what each instance is, and how it is drawn |
//! | [`identify`], [`links`] | what each prop most likely represents in a real plant |
//! | [`pick`] | what a click lands on |
//! | [`labels`] | which names are drawn over the scene, and which are dropped |
//! | [`draw`], [`readback`] | the draw lists, and the pixels of a captured frame |
//! | [`export`], [`file`], [`reopen`] | cutting a small scene out of a big one, and its file |
//! | [`touch`] | fingers, turned into camera motion |
//! | [`controls`], [`session`] | keys, buttons, and the state of a run |
//! | [`panel`], [`webinput`] | what the panel says, does and claims |
//! | [`options`], [`gzip`] | starting up |
//!
//! Single-precision numbers are carried as their bits ([`single`]): the crate
//! orders them, and leaves arithmetic on them to its callers.
use vstd::prelude::*;

pub mod category;
pub mod controls;
pub mod draw;
pub mod export;
pub mod file;
pub mod gzip;
pub mod identify;
pub mod identify_table;
pub mod labels;
pub mod links;
pub mod options;
pub mod panel;
pub mod pattern;
pub mod pick;
pub mod readback;
pub mod reopen;
pub mod scene;
pub mod session;
pub mod single;
pub mod text;
pub mod touch;
pub mod webinput;

pub use controls::{apply_view_key, is_release, Input, KeyEffect, ViewKey};
pub use identify::identify_instance;
pub use labels::build_labels;

verus! {

} // verus!
