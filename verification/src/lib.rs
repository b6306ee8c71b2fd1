//! Core of a media track inspection and remux pipeline, together with the
//! metadata normalization helpers that surround it: probing report
//! normalization, mix planning and staged muxer command construction, byte
//! size formatting, language display-name mapping, and tag/infobox filtering.

pub mod bangumi;
pub mod bytesize;
pub mod dates;
pub mod decimal;
pub mod filters;
pub mod json;
pub mod language;
pub mod mix;
pub mod paths;
pub mod probe;
pub mod remux;
pub mod text;
pub mod tools;
pub mod torrent;
pub mod translate;
