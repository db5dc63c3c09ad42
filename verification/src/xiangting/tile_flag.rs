use bitvec::array::BitArray;
use bitvec::order::Lsb0;
use vstd::prelude::*;

verus! {

/// One flag per tile kind, kept as the bits of a `BitArray` of bitvec.
#[verifier::external_body]
pub struct TileFlag {
    bits: BitArray<[u64; 1], Lsb0>,
}

/// Flags that a `TileFlag` holds.
pub const TILE_FLAG_BITS: usize = 64;

/// The indexes whose flag is raised.
pub uninterp spec fn tile_flag_bits(flags: TileFlag) -> Set<int>;

/// `BitArray::ZERO` of bitvec: the array whose bits are all 0, so that no
/// flag is raised.
#[verifier::external_body]
pub(crate) fn tile_flag_zero() -> (flags: TileFlag)
    ensures
        tile_flag_bits(flags) == Set::<int>::empty(),
{
    TileFlag { bits: BitArray::ZERO }
}

/// `BitSlice::set` of bitvec, with the value `true`: writes 1 into the bit
/// at `index` and leaves the other bits as they are. It panics for an index
/// beyond the array, which the precondition excludes.
#[verifier::external_body]
pub(crate) fn tile_flag_raise(flags: &mut TileFlag, index: usize)
    requires
        index < TILE_FLAG_BITS,
    ensures
        tile_flag_bits(*final(flags)) == tile_flag_bits(*old(flags)).insert(index as int),
{
    flags.bits.set(index, true);
}

/// Indexing a `BitSlice` of bitvec: reads the bit at `index`. It panics for
/// an index beyond the array, which the precondition excludes.
#[verifier::external_body]
pub(crate) fn tile_flag_read(flags: &TileFlag, index: usize) -> (raised: bool)
    requires
        index < TILE_FLAG_BITS,
    ensures
        raised == tile_flag_bits(*flags).contains(index as int),
{
    flags.bits[index]
}

impl TileFlag {
    /// Whether the flag of the tile kind `index` is raised.
    pub fn is_raised(&self, index: usize) -> (raised: bool)
        ensures
            raised == (index < TILE_FLAG_BITS && tile_flag_bits(*self).contains(index as int)),
    {
        index < TILE_FLAG_BITS && tile_flag_read(self, index)
    }
}

} // verus!
