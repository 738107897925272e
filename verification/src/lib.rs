//! Core logic of a terminal log viewer: the log entry model, the view state
//! machine driven by keys, search and highlighting, rendering of entries into
//! coloured parts, status texts and the bounded line reader.

pub mod text;
pub mod model;
pub mod view;
pub mod keys;
pub mod colors;
pub mod numbers;
pub mod render;
pub mod layout;
pub mod status;
pub mod values;
pub mod reader;
pub mod clipboard;
pub mod session;
