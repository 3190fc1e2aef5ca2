pub mod action;
pub mod cell;
pub mod state;
pub mod environment;
