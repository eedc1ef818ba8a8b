pub mod connection;
pub mod controller;
pub mod panel;
pub mod protocol;
pub mod random;
pub mod json;
pub mod listener;
pub mod status;
pub mod store;
pub mod text;
