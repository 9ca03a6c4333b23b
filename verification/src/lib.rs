pub mod text;
pub mod pattern;
pub mod fuzzy;
pub mod model;
pub mod ui;
pub mod config;
pub mod storage;
pub mod fetcher;
pub mod app;
pub mod opml;
pub mod theme;
pub mod reader;
pub mod hits;
pub mod sample_data;
