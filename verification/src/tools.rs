//! Tool implementations: the search and page-extraction pipelines.

pub mod fetch;
pub mod search;
