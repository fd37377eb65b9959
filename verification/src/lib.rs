//! A hub for terminal sessions: one session is on the screen, and a sidebar lists all of them with
//! their workspaces, from which they can be switched, folded, made, renamed and closed.
//!
//! The library decides and never acts. [`state::HubState`] takes what happened (input from the
//! terminal, messages from session servers, answers from the host) and lists the effects that the
//! program around it performs, in their order. Where it cannot go on before the program has done
//! something that may fail, it stops with a [`steps::HubStep`] and is then told how that went.
//! What each operation does is stated over [`state::HubView`], as a function from one state of the
//! hub to the next; [`invariants`] holds what no operation can break, and the modules of laws say
//! what the operations are for: what the screen shows ([`screen_laws`], [`sidebar_laws`],
//! [`frame_laws`]), where input goes ([`input_laws`], [`dialog_laws`]), what is heard and done in
//! turn ([`event_laws`], [`step_laws`], [`start_laws`]), and that views leave nothing out
//! ([`view_laws`]).

pub mod compose;
pub mod connections;
pub mod dialog_laws;
pub mod dialogs;
pub mod effects;
pub mod event_laws;
pub mod events;
pub mod frame;
pub mod frame_laws;
pub mod input;
pub mod input_laws;
pub mod invariants;
pub mod lifecycle;
pub mod names;
pub mod protocol;
pub mod rows;
pub mod screen_laws;
pub mod sessions;
pub mod sidebar_laws;
pub mod start_laws;
pub mod state;
pub mod step_laws;
pub mod steps;
pub mod terminal;
pub mod text;
pub mod view_laws;
