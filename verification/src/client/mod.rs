pub mod args;
pub mod laws;
pub mod session;
