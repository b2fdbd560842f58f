pub mod adapter;
pub mod clock;
pub mod config;
pub mod hash;
pub mod library;
pub mod lines;
pub mod manifest_text;
pub mod manifests;
pub mod pantry;
pub mod paths;
pub mod resolve;
pub mod run;
pub mod text;
pub mod tokens;
pub mod tui;
