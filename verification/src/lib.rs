//! Verified core logic of a hold-to-talk dictation tool.
use vstd::prelude::*;

pub mod text;
pub mod prompting;
pub mod hotkey;
pub mod injection;
pub mod refinement;
pub mod engine;
pub mod cloud;
pub mod dictionary;
pub mod history;
pub mod settings;
pub mod stt;
pub mod system;
pub mod worker;
pub mod ui;
pub mod startup;

verus! {
} // verus!
