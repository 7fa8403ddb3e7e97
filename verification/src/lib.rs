//! Roster of Discord members and the badges their roles earn them.
pub mod api;
pub mod collector;
pub mod config;
pub mod domain;
pub mod json;
pub mod protocol;
pub mod scraper;
pub mod storage;
pub mod text;
pub mod websocket;
