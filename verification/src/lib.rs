pub mod app;
pub mod keys;
pub mod models;
pub mod storage;
pub mod text;
pub mod ui;
