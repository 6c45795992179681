//! Rules of a token factory: what it charges, whom it obeys, what it records,
//! and which calls on token contracts it asks for.

pub mod action;
pub mod calls;
pub mod creation;
pub mod error;
pub mod factory;
pub mod fees;
pub mod guarantees;
pub mod laws;
pub mod setup;
pub mod split;
pub mod state;
pub mod token;
pub mod token_list;
