//! Validated tile-map areas and the compact encodings of their per-tile grids.
//!
//! The crate has two halves.
//!
//! The codecs pack grids into bytes and back. `kinds` interns the kinds of
//! terrain and wall cells into a table of at most 255 entries and one byte
//! per cell; `points` writes the tiles of a layer as four-byte records;
//! `document` puts both into their stored form, base64 text, through
//! `base64_text`.
//!
//! The area model turns an authored `AreaBuilder` into an `Area`. `area`
//! holds the types, `registry` the read-only tables that names are resolved
//! against, `linker` the rules that tie triggers to encounters by location
//! and tell which transitions fit, and `assembly` the construction itself.
//!
//! Both halves find names in tables as `lookup` says.

pub mod area;
pub mod assembly;
pub mod base64_text;
pub mod document;
pub mod error;
pub mod geometry;
pub mod kinds;
pub mod linker;
pub mod lookup;
pub mod points;
pub mod registry;
