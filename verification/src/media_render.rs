//! Screenshots that are rendered from HTML templates.

pub mod percent;
pub mod pixels;
pub mod frame;
pub mod screen;
pub mod compose;
pub mod assets;
pub mod metadata;
pub mod template;
pub mod placeholder;
pub mod preview;
pub mod inputs;
pub mod chrome;
pub mod data;
pub mod laws;
