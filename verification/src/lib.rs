//! Layout conversion between two dense N-dimensional array representations:
//! a row-major, channel-interleaved "matrix" (image data) and a strided
//! "tensor" (numeric data). Conversions copy values or, where safe,
//! reinterpret one buffer under the other's layout without copying.

pub mod buffers;
pub mod convention;
pub mod engine;
pub mod error;
pub mod kinds;
pub mod laws;
pub mod layout;
pub mod permute;
pub mod view;

pub use error::Error;
pub use kinds::ElementKind;
