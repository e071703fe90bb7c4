pub mod text;
pub mod config;
pub mod feed;
pub mod canonical;
pub mod subscription;
pub mod service;
pub mod opml;
pub mod screen;
pub mod app;
pub mod keys;
pub mod refresh;
pub mod render;
pub mod listing;
pub mod cli;
pub mod page;
