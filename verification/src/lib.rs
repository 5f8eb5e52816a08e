//! Rata: the model behind a terminal HTTP client driven by OpenAPI documents.
pub mod method;
pub mod text;
pub mod path_match;
pub mod project;
pub mod paths;
pub mod editing;
pub mod layout;
pub mod template;
pub mod numfmt;
pub mod json;
pub mod panels;
pub mod tui;
pub mod tabs;
pub mod flow;
pub mod keys;
pub mod mouse;
pub mod request;
pub mod cli;
pub mod discovery;
pub mod guards;
pub mod look;
pub mod view;
pub mod refs;
pub mod document;
