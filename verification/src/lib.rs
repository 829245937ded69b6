//! Situation-monitor core: the data model, the feed and search state
//! machine, text helpers and layout arithmetic behind the terminal UI.

pub mod model;
pub mod text;
pub mod mts_client;
pub mod data;
pub mod order;
pub mod app;
pub mod ui;
pub mod market_ticker;
pub mod panels;
pub mod feed_view;
