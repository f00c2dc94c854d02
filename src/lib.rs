//! Formatting of newline-delimited JSON log records into readable text.
//!
//! The library holds the severity levels, the record model, the layout of a
//! record as text, and the per-line decision of what to print.
pub mod level;
pub mod paint;
pub mod text;
pub mod record;
pub mod sources;
