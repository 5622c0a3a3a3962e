//! Space-usage statistics of a relational database file and the state of an
//! interactive dashboard that presents them.

pub mod format;
pub mod text;
pub mod stats;
pub mod view;
pub mod chart;
pub mod details;
pub mod laws;
pub mod queries;
