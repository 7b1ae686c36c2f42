//! Slide-graph compilation for annotated slide decks.
//!
//! A project is an ordered list of slide images carrying clickable hotspots
//! and text overlays. This crate classifies the slides for navigation and
//! renders the project either as one interactive HTML document or as the page
//! plan of a paginated PDF. Every function here carries a contract that Verus
//! proves; the few calls into other crates sit behind small trusted wrappers
//! whose doc comments say what is believed of them.

pub mod text;
pub mod escape;
pub mod number;
pub mod color;
pub mod model;
pub mod classify;
pub mod validate;
pub mod html;
pub mod codec;
pub mod document;
pub mod error;
pub mod compile_html;
pub mod pdf;
pub mod compile_pdf;
pub mod paths;
pub mod ingest;
pub mod runs;
pub mod scan;
pub mod marks;
pub mod sections;
pub mod openings;
