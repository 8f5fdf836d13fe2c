//! The traits of this crate, to be imported together.
pub use crate::inplace::UmlautsInplaceExt;
