//! Window descriptions read from an XML document, and the bookkeeping of the
//! windows that are open while they are drawn.

pub mod config;
pub mod document;
pub mod outline;
pub mod settings;
pub mod text;
pub mod texture;
pub mod windows;
