//! A bounded-scope web crawler core: a politeness-aware URL frontier, a
//! visited/discovery store, same-origin scope filtering, and the worker-step
//! logic that ties them together. Fetching pages and extracting links are
//! left to outside collaborators; this crate holds the verified crawl logic.

pub mod data_store;
pub mod link;
pub mod task;
pub mod url_frontier;
