//! The verified core of a terminal explorer for telemetry databases.
//!
//! The library holds everything the explorer decides or computes: the application state and its
//! transitions, key handling, query-language helpers, text layout and formatting. Reading the
//! terminal, painting it and asking a database are the application's part.
#![allow(unused_imports)]

pub mod app;
pub mod backend;
pub mod chart;
pub mod cli;
pub mod completion;
pub mod detail_text;
pub mod fetch;
pub mod format;
pub mod geometry;
pub mod input;
pub mod keys;
pub mod laws;
pub mod mascot;
pub mod model;
pub mod promql;
pub mod runtime;
pub mod style;
pub mod syntax;
pub mod tasks;
pub mod terminal;
pub mod text;
pub mod textfield;
pub mod time;
pub mod ui;
pub mod unicode;
pub mod vocabulary;
pub mod waterfall;
pub mod width;
