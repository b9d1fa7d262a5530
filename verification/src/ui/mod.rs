//! The state of the desktop front end and the text helpers of its views.
pub mod app_state;
pub mod views;
