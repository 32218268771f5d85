use vstd::prelude::*;

pub mod bridge;
pub mod chatter;
pub mod clock;
pub mod config;
pub mod context;
pub mod corrector;
pub mod engine;
pub mod event;
pub mod input;
pub mod layout;
pub mod inject;
pub mod pipeline;
pub mod session;
pub mod settings;
pub mod snippets;
pub mod status_view;
pub mod supervision;
pub mod testing;
pub mod text;
pub mod time;
pub mod tray;
pub mod typing;

verus! {

} // verus!
