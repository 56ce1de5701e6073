use vstd::prelude::*;

pub mod api;
pub mod browser;
pub mod client;
pub mod commands;
pub mod edit;
pub mod editor;
pub mod events;
pub mod policy_file;
pub mod protect;
pub mod reload;
pub mod se;
pub mod sign;
pub mod snapshot;
pub mod state;
pub mod text;
pub mod ui_static;

verus! {

} // verus!
