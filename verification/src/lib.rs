//! `gremp` searches a text for the lines that contain a pattern, either
//! exactly or up to case, and reports each matching line together with its
//! 1-based line number.

pub mod config;
pub mod laws;
pub mod lines;
pub mod output;
pub mod search;
pub mod substring;

pub use config::Config;
pub use config::ConfigError;
pub use lines::lines_of;
pub use output::decimal_string;
pub use output::run;
pub use search::search;
pub use search::search_case_insensitive;
pub use substring::contains_substr;
