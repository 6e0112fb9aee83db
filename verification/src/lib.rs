//! Quality-gate core: metric schemas, collector analyses and the quality verdict that
//! compares a metrics summary against a baseline.

pub mod text;
pub mod util;
pub mod context;
pub mod json;
pub mod number;
pub mod schema;
pub mod config;
pub mod gate;
pub mod baseline;
pub mod collector;
pub mod cli;
pub mod collectors;
pub mod display;
