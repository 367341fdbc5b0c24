//! Core of the Slipstream Markdown editor: rendering Markdown events to HTML
//! with source-line annotations, percent-encoding of local image paths,
//! MIME guessing, and the shared document state.

pub mod text;
pub mod percent;
pub mod lines;
pub mod paths;
pub mod events;
pub mod render;
pub mod document;
pub mod window;
