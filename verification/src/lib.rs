//! Streaming renderer for structured documents.
//!
//! The crate translates an ordered stream of document events (block and
//! inline markers, leaf text) into an ordered list of visual commands
//! (styled text runs, rules, tables, images, clickable regions), keeping the
//! nested inline-style and block-context state that the stream implies.

pub mod style;
pub mod event;
pub mod command;
pub mod textutil;
pub mod highlight;
pub mod images;
pub mod machine;
pub mod laws;
pub mod platform;
