//! The verified core of MergeFox, a desktop Git client.

pub mod actions;
pub mod assoc;
pub mod calendar;
pub mod config;
pub mod git;
pub mod path_order;
pub mod path_set;
pub mod paths;
pub mod providers;
pub mod secrets;
mod shared;
pub mod store_laws;
pub mod text;
pub mod text_laws;
pub mod text_set;
pub mod ui;
