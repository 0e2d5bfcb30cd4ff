//! A callback-based event loop: the registration, timer and dispatch logic.
use vstd::prelude::*;

pub mod sources;
pub mod sys;

pub use sources::PostAction;
pub use sys::{Interest, Mode, Readiness, Token, TokenFactory};
pub mod list;
pub mod loop_logic;

pub use loop_logic::RegistrationToken;
