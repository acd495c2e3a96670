//! What the script engine and the document reader share: positions,
//! tokens, colors, and the records for the log.

pub mod area;
pub mod color;
pub mod logging;
pub mod position;
pub mod range;
pub mod text;
pub mod theme;
pub mod token;
pub mod utils;
