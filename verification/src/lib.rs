//! Verified core of the KitsuneEngine browser: DOM model, selector element
//! queries, CSS value parsing, HIL confirmation logic, IPC routing policy,
//! navigation history, privacy rules and sandbox profiles.
use vstd::prelude::*;

pub mod text;
pub mod dom;
pub mod selector;
pub mod clock;
pub mod ipc;
pub mod broker;
pub mod navigation;
pub mod tab;
pub mod sandbox;
pub mod config;
pub mod render;
pub mod net;
pub mod hil;
pub mod css;
pub mod page;
pub mod fetch;
pub mod images;
pub mod script;
pub mod cookies;
pub mod html;
pub mod engine;
pub mod shaping;
pub mod page_load;

verus! {

} // verus!
