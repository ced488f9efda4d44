//! Escape-time rendering of the Mandelbrot set, split into verified pieces:
//! parsing of textual pairs, the escape-time iteration, and the renderer's
//! buffer bookkeeping and parallel, order-preserving fill.

pub mod escape;
pub mod parse;
pub mod render;

pub use escape::escape_time;
pub use escape::EscapeStep;
pub use escape::Gaussian;
pub use parse::parse_pair;
pub use parse::parse_usize;
pub use parse::split_at_sep;
pub use parse::FromText;
pub use render::index_to_pixel;
pub use render::pixel_count;
pub use render::pixel_shade;
pub use render::render;
