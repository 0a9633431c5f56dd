//! A conformance validator for Beacon query APIs: resolves an entity model into
//! endpoints, decides which schema each response is held to, folds the many
//! record checks of an endpoint into one verdict, and gathers the verdicts into
//! a report.
pub mod location;
pub mod text;
pub mod error;
pub mod json;
pub mod interface;
pub mod report;
pub mod endpoint;
pub mod model;
pub mod output;
pub mod beacon;
pub mod run;
