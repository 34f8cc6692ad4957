//! Frame flags.
use vstd::prelude::*;

verus! {

/// The flags a frame can carry. Only one flag exists: the payload is compressed.
#[derive(Clone, Copy, Debug, PartialEq, Eq)]
pub enum Flags {
    Uncompressed,
    Compressed,
}

impl Flags {
    /// The bit pattern of a flag.
    pub open spec fn spec_bits(self) -> u8 {
        match self {
            Flags::Uncompressed => 0,
            Flags::Compressed => 1,
        }
    }

    /// The bit pattern of a flag, as it is written into a frame.
    pub fn bits(self) -> (res: u8)
        ensures
            res == self.spec_bits(),
    {
        match self {
            Flags::Uncompressed => 0,
            Flags::Compressed => 1,
        }
    }
}

/// Whether the compressed bit is set in a frame's flags.
pub open spec fn spec_is_compressed(flags: u8) -> bool {
    flags & 1 == 1
}

/// Whether the compressed bit is set in a frame's flags.
pub fn is_compressed(flags: u8) -> (res: bool)
    ensures
        res == spec_is_compressed(flags),
{
    let as_u8 = Flags::Compressed.bits();
    flags & as_u8 == as_u8
}

/// Creates the flags byte for a frame. Only the compressed flag exists.
pub fn make_flags(compressed: bool) -> (res: u8)
    ensures
        res == (if compressed { Flags::Compressed } else { Flags::Uncompressed }).spec_bits(),
        spec_is_compressed(res) == compressed,
{
    let flag = if compressed {
        Flags::Compressed
    } else {
        Flags::Uncompressed
    };
    let res = flag.bits();
    assert(0u8 & 1u8 == 0u8 && 1u8 & 1u8 == 1u8) by (bit_vector);
    res
}

} // verus!
