//! Assembly of the header directives that open a generated translation unit,
//! and the naming and stride table of the foreign-callable sequence shims.

pub mod escape;
pub mod headers;
pub mod vec_shims;

pub use headers::{Facility, Include, IncludeKind, Includes, IncludesView};
pub use vec_shims::{symbol, symbols, ElementType, ShimOp};
