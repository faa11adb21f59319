//! Runs SQL statements against several databases of one server and reports,
//! per database, what each statement produced; the decisions of that run,
//! the coercion of column values to text and the CSV export are verified here.

pub mod coerce;
pub mod ewkb;
pub mod export;
pub mod model;
pub mod orchestrator;
pub mod runner;
pub mod statements;
pub mod text;
