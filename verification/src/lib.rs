pub mod text;
pub mod numfmt;
pub mod error;
pub mod types;
pub mod protocol;
pub mod network;
pub mod database;
pub mod engine;
pub mod ui;
pub mod cli;
