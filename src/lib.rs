//! Article compilation pipeline of a static site generator: front-matter
//! validation, image references, footnote tracking, the Markdown event
//! transformer, syntax highlighting, the document composer and the archive page.

pub mod text;
pub mod vec_util;
pub mod date;
pub mod frontmatter;
pub mod names;
pub mod config;
pub mod html;
pub mod classes;
pub mod page;
pub mod fonts;
pub mod archive;
pub mod image;
pub mod footnotes;
pub mod highlight;
pub mod transform;

pub use archive::ArchiveBuilder;
pub use config::Fragment;
pub use frontmatter::Frontmatter;
pub use highlight::SyntaxHighlighter;
pub use image::{validate_image_src, ActiveImageState, Dimensions, OUTPUT_IMAGE_EXTENSION};
pub use page::{Font, PageBuilder, PageKind};
pub use transform::RenderMode;
