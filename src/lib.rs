//! Turns documents that embed math markup into self-contained HTML: each
//! formula element is cut out of the document, rendered elsewhere, and its
//! rendered image is merged back where the element stood.

pub mod buffer;
pub mod config;
pub mod engine;
pub mod fonts;
pub mod names;
pub mod paths;
pub mod pipeline;
pub mod render;
pub mod report;
pub mod scan;
pub mod text;

pub use buffer::DocumentBuffer;
pub use config::create_font_config;
pub use fonts::{FontConfig, FontSource};
pub use names::{read_font_names, FontNames};
pub use paths::needs_inplace_modification;
pub use render::{FormulaRenderResult, RenderFormat, RenderResult};
pub use report::{extract_detailed_error, format_formula_error};
