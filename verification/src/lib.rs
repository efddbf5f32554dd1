pub mod models;
pub mod text;
pub mod util;
pub mod tally;
pub mod app;
pub mod cleaner;
pub mod scanner;
pub mod order;
pub mod panel;
pub mod laws;
