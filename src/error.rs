use vstd::prelude::*;

verus! {

/// Why a container could not be decoded.
#[derive(Debug, Clone, Copy, PartialEq, Eq, Structural)]
pub enum DecodeError {
    /// The file is shorter than its fixed header.
    TruncatedHeader,
    /// The frame-offset table runs past the end of the file, or the file
    /// holds fewer frames than its sample count calls for.
    TruncatedIndex,
    /// A channel sub-header or its delta stream runs past the end of the file,
    /// or a bit read runs past the end of its buffer.
    BufferExhausted,
    /// A channel declares a delta width above 32 bits.
    UnsupportedBitWidth,
    /// The channel layout cannot be reconstructed: no channels at all, or a
    /// mid/side frame in a file that does not have exactly two channels.
    UnsupportedLayout,
}

} // verus!
