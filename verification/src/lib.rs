//! In-place case folding and ASCII transliteration of the German umlauts
//! ä, ö, ü, Ä, Ö, Ü and of ß in UTF-8 byte buffers.
pub mod inplace;
pub mod laws;
pub mod model;
pub mod prelude;
pub mod search;
pub mod table;
pub mod text;
pub mod validity;

pub use crate::inplace::UmlautsInplaceExt;
