//! Layout and geometry core of an SVG rendering pipeline.
//!
//! The crate decides *what* gets drawn and *where*: which authoring tool
//! produced a document, which pixel layers the compositor allocates and in
//! which order effects run on them, and how path data is split into
//! subpaths. Painting pixels and floating-point curve math are left to the
//! caller, who executes the plans produced here.

mod text;

pub mod generator;
pub mod options;
pub mod screen;
pub mod render;
pub mod path;
