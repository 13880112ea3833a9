//! The crawl: which pages are visited, what is read on them and how a login goes.

pub mod audit;
pub mod browser;
pub mod collectors;
pub mod config;
pub mod cookies;
pub mod element;
pub mod frontier;
pub mod login;
pub mod script;
pub mod state;
