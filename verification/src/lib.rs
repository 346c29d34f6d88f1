//! Document preparation for a typesetting compiler.
//!
//! A memo arrives as JSON. It is validated against the schema of the
//! official memorandum and given its defaults ([`form_validation`],
//! [`conformance`]); its body, markup or a rich-text document, is turned
//! into markup ([`form_processor`], [`delta_parser`]); and while the
//! compiler runs, its requests for fonts, images and package files are
//! answered from a registry of embedded assets ([`assets`],
//! [`typst_wrapper`]). JSON text is read and written by `serde_json`
//! ([`json`]); everything else is this crate's own, with contracts that
//! Verus checks.

pub mod text;
pub mod json;
pub mod delta_parser;
pub mod form_validation;
pub mod conformance;
pub mod form_processor;
pub mod assets;
pub mod typst_wrapper;

pub use delta_parser::{DeltaParser, ParserError};
pub use typst_wrapper::{OutputFormat, RenderConfig, TypstWrapperError};
