//! Tolerant conversion between flat key-value text and a single-level map of
//! strings.
//!
//! [`str_to_json`] reads a text as JSON and keeps the top level of an object
//! ([`json_to_map`]); where that fails, or yields no key, it reads the text
//! again as `key:value` segments separated by commas
//! ([`str_interface_to_json`]). [`str_to_json_node`] is a reading of its own
//! for text made of double-quoted tokens. [`json_package`], [`map_to_json`]
//! and [`list_to_json`] write.
//!
//! Every contract is stated over the characters of the texts and over
//! [`value::JsonModel`], the tree that a [`JsonValue`] stands for. What
//! `serde_json` and `e9571_lib1` compute is taken on trust in [`boundary`] and
//! nowhere else.

pub mod boundary;
pub mod flat_map;
pub mod permissive;
pub mod quoted;
pub mod render;
pub mod strict;
pub mod text;
pub mod tolerant;
pub mod value;

pub use crate::flat_map::FlatMap;
pub use crate::permissive::str_interface_to_json;
pub use crate::quoted::read_quoted_pairs;
pub use crate::quoted::str_to_json_node;
pub use crate::quoted::QuotedReading;
pub use crate::render::json_package;
pub use crate::render::list_to_json;
pub use crate::render::map_to_json;
pub use crate::strict::json_to_map;
pub use crate::strict::ParseError;
pub use crate::tolerant::str_to_json;
pub use crate::value::classify;
pub use crate::value::typeof_json;
pub use crate::value::JsonNumber;
pub use crate::value::JsonValue;
pub use crate::value::ValueKind;
