//! Verified core of a terminal manager for runit services.
pub mod app;
pub mod listing;
pub mod runit;
pub mod scan;
pub mod service;
pub mod table;
pub mod text;
