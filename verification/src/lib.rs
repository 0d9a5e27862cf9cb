//! A small template engine.
//!
//! A template is text with placeholders of the form `{{key}}`. Parsing splits
//! it once into static segments and keys; rendering puts a value into each
//! slot, looked up by key in a flat mapping or taken by position. A structured
//! value is flattened into such a mapping, each scalar under its dotted path.
//!
//! Every function comes with a contract over sequences of characters, and the
//! module `laws` proves what parsing and rendering do together.

pub mod decimal;
pub mod flat_map;
pub mod flatten;
pub mod json;
pub mod laws;
pub mod markers;
pub mod template;
mod text;
pub mod whitespace;

pub use flatten::flatten_json;
pub use json::JsonValue;
pub use template::ZipTemplate;
