//! Core logic of a desktop assistant that opens an AI overlay when the user
//! shakes the mouse: shake detection, entity and content classification of
//! selected text, provider routing decisions, and session history bookkeeping.

pub mod config;
pub mod context;
pub mod entity;
pub mod history;
pub mod models;
pub mod overlay;
pub mod providers;
pub mod shake_detector;
pub mod stream;
pub mod text;

use vstd::prelude::*;

verus! {

/// Shared application state registered with the desktop shell.
pub struct AppState {}

} // verus!
