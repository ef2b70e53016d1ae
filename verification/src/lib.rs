//! Extraction of exported TypeScript declarations and their doc comments,
//! and rendering of the extracted model as markdown pages.

pub mod config;
pub mod jsdoc;
pub mod markdown;
pub mod package;
pub mod paths;
pub mod scanner;
pub mod text;
pub mod types;
pub mod validate;
