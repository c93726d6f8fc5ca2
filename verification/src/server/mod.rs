pub mod action;
pub mod args;
pub mod facts;
pub mod handle;
pub mod model;
pub mod processor;
pub mod time;
pub mod laws;
