//! Trusted boundary to the RAM-backed block driver of `axdriver_block`.
//!
//! The RAM disk is the one driver instance of this configuration that is a
//! plain in-memory computation, so the library calls it directly.  Its byte
//! contents are named by `ram_view`; everything the contracts here state is
//! read off the driver's source.

use vstd::prelude::*;
use axdriver_block::BlockDriverOps;
use axdriver_block::ramdisk::RamDisk;

verus! {

#[verifier::external_type_specification]
#[verifier::external_body]
pub struct ExRamDisk(RamDisk);

/// The bytes a RAM disk holds, in order.
pub uninterp spec fn ram_view(disk: RamDisk) -> Seq<u8>;

/// `n` rounded up to the 512-byte block size of the RAM disk.
pub open spec fn spec_align_up_512(n: int) -> int {
    ((n + 511) / 512) * 512
}

/// Relies on `RamDisk::new`: allocates a heap-backed RAM disk of the size
/// hint aligned up to the 512-byte block size, filled with zeroes.  The
/// aligned size must stay within an allocation layout's limit of half the
/// address space, or the driver's layout construction panics.
#[verifier::external_body]
pub(crate) fn ramdisk_new(size_hint: usize) -> (r: RamDisk)
    requires
        size_hint + 511 <= usize::MAX / 2,
    ensures
        ram_view(r) == Seq::new(spec_align_up_512(size_hint as int) as nat, |i: int| 0u8),
{
    RamDisk::new(size_hint)
}

/// Relies on `BlockDriverOps::num_blocks` for `RamDisk`: the byte length of
/// the disk divided by the 512-byte block size.
#[verifier::external_body]
pub(crate) fn ramdisk_num_blocks(disk: &RamDisk) -> (r: u64)
    ensures
        r as int == ram_view(*disk).len() as int / 512,
{
    disk.num_blocks()
}

/// Relies on `BlockDriverOps::read_block` for `RamDisk`: when the buffer
/// length is a whole number of 512-byte blocks and the request lies inside
/// the disk, it fills the buffer from the disk bytes starting at
/// `block_id * 512` and succeeds; otherwise it reports an invalid parameter
/// and leaves the buffer unchanged.  The disk bytes are never changed.
#[verifier::external_body]
pub(crate) fn ramdisk_read_block(disk: &mut RamDisk, block_id: u64, buf: &mut Vec<u8>) -> (r:
    bool)
    ensures
        ram_view(*final(disk)) == ram_view(*old(disk)),
        r <==> (old(buf)@.len() % 512 == 0 && block_id as int * 512 + old(buf)@.len() <= ram_view(
            *old(disk),
        ).len()),
        r ==> final(buf)@ == ram_view(*old(disk)).subrange(
            block_id as int * 512,
            block_id as int * 512 + old(buf)@.len(),
        ),
        !r ==> final(buf)@ == old(buf)@,
{
    disk.read_block(block_id, buf.as_mut_slice()).is_ok()
}

} // verus!
