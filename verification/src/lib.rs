//! Crawl scheduling core of a personal search engine: the task queue and its
//! admission rules, the dispatch loop's decisions, the runtime state shared by
//! the API and the crawler, and the host side of the plugin sandbox.

pub mod api;
pub mod config;
pub mod crawler;
pub mod error;
pub mod models;
pub mod normalize;
pub mod paths;
pub mod plugin;
pub mod request;
pub mod response;
pub mod state;
pub mod text;
