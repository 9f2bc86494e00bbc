//! A structured logging pipeline.
//!
//! A [`Logger`] filters leveled messages against a minimum severity, snapshots
//! its contextual extras into a [`LogRecord`], renders the record with a
//! [`formatter::Formatter`] and hands the text to a [`sink::Sink`].

pub mod extras;
pub mod formatter;
pub mod level;
pub mod logger;
pub mod record;
pub mod sink;
pub mod text;
pub mod timestamp;

pub use crate::level::Level;
pub use crate::logger::Logger;
pub use crate::record::LogRecord;
