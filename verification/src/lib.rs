pub mod db;
pub mod export;
pub mod laws;
pub mod model;
pub mod opml;
pub mod order;
pub mod scan;
pub mod screen;
pub mod sync;
pub mod text;
pub mod time;
pub mod tui;
pub mod validation;
