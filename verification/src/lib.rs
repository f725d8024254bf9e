//! wiky: Wikipedia in the terminal, with hex-color themes, emoji decorations
//! and Markdown-style rendering of article text.

pub mod browse;
pub mod client;
pub mod commands;
pub mod config;
pub mod error;
pub mod markup;
pub mod render;
pub mod text;
pub mod theme;

pub use error::WikiError;
pub use config::Config;
pub use render::Renderer;
pub use theme::Theme;
