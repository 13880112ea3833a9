//! The verified core of webprobe: rules, parsers and state machines of a web
//! crawler and load tester. Everything that talks to a browser, a socket, a
//! terminal or a file lives outside of this crate.

pub mod auth;
pub mod cdp;
pub mod console;
pub mod crawler;
pub mod double;
pub mod issues;
pub mod json;
pub mod laws;
pub mod load;
pub mod order;
pub mod page;
pub mod profiles;
pub mod report;
pub mod results;
pub mod settings;
pub mod text;
pub mod web;
