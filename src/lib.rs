//! A keyword launcher's record store: executables registered under unique
//! keywords, and named configurations that group keywords in launch order.

pub mod model;
pub mod store;
pub mod laws;
