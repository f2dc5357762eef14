//! Documentation extractor for Dust source files.
//!
//! The library scans a source string line by line, collects `//!`, `///`,
//! `/*! */` and `/** */` comments, attaches item comments to the next
//! recognised top-level declaration, and renders the result as Markdown
//! or HTML.

mod html;
mod laws;
mod render;
mod scan;
mod text;

pub use html::markdown_to_html;
pub use render::generate_markdown;
pub use scan::parse_str;
pub use scan::DocItem;
pub use scan::DocModule;
