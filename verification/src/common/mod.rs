pub mod addr;
pub mod connection;
pub mod event;
pub mod text;
