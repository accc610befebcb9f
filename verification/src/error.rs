use vstd::prelude::*;

verus! {

/// Every failure of the conversion layer. No operation retries internally and
/// no partial result is ever handed out: a failing call constructs nothing.
#[derive(Debug, Clone, PartialEq, Eq)]
pub enum Error {
    /// The element-kind / channel-count combination is absent from the type
    /// table. `code` is the matrix-side type code that was offered or, when a
    /// tensor-side request failed, the single-channel code of its kind;
    /// `channels` is the requested channel count (zero when the request
    /// carried a packed code rather than a separate count).
    UnsupportedEncoding { code: i32, channels: usize },
    /// A zero-copy reinterpretation was requested on a buffer that is not
    /// row-major contiguous.
    NonContiguousBuffer,
    /// A shape convention was applied to a tensor whose rank is not 2 or 3.
    UnsupportedShape { shape: Vec<usize> },
    /// A convention-carrying wrapper was constructed around a tensor whose
    /// rank is outside the supported range.
    UnsupportedRank { rank: usize },
    /// The declared layout asks for more bytes than the buffer holds, or for
    /// an extent that no allocation on this machine could hold.
    BufferTooSmall,
}

} // verus!
