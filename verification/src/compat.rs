//! Definitions of the Linux kernel interface that not every C library has.

use vstd::prelude::*;

verus! {

/// Ask for the file type.
pub const STATX_TYPE: u32 = 0x0001;

/// Ask for the permissions.
pub const STATX_MODE: u32 = 0x0002;

/// Ask for everything that `stat` gives.
pub const STATX_BASIC_STATS: u32 = 0x07ff;

/// Ask for everything.
pub const STATX_ALL: u32 = 0x0fff;

/// A point in time, in a [`statx`].
#[allow(non_camel_case_types)]
#[derive(Clone, Copy, Debug)]
pub struct statx_timestamp {
    pub tv_sec: i64,
    pub tv_nsec: u32,
    pub __reserved: i32,
}

/// The metadata of a file.
#[allow(non_camel_case_types)]
#[derive(Clone, Copy, Debug)]
pub struct statx {
    pub stx_mask: u32,
    pub stx_blksize: u32,
    pub stx_attributes: u64,
    pub stx_nlink: u32,
    pub stx_uid: u32,
    pub stx_gid: u32,
    pub stx_mode: u16,
    pub __spare0: [u16; 1],
    pub stx_ino: u64,
    pub stx_size: u64,
    pub stx_blocks: u64,
    pub stx_attributes_mask: u64,
    pub stx_atime: statx_timestamp,
    pub stx_btime: statx_timestamp,
    pub stx_ctime: statx_timestamp,
    pub stx_mtime: statx_timestamp,
    pub stx_rdev_major: u32,
    pub stx_rdev_minor: u32,
    pub stx_dev_major: u32,
    pub stx_dev_minor: u32,
    pub stx_mnt_id: u64,
    pub stx_dio_mem_align: u32,
    pub stx_dio_offset_align: u32,
    pub __spare3: [u64; 12],
}

impl Default for statx_timestamp {
    fn default() -> (r: statx_timestamp)
        ensures
            r == (statx_timestamp { tv_sec: 0, tv_nsec: 0, __reserved: 0 }),
    {
        statx_timestamp { tv_sec: 0, tv_nsec: 0, __reserved: 0 }
    }
}

impl statx {
    /// Every field is zero.
    pub open spec fn is_zero(self) -> bool {
        let epoch = statx_timestamp { tv_sec: 0, tv_nsec: 0, __reserved: 0 };
        &&& self.stx_mask == 0
        &&& self.stx_blksize == 0
        &&& self.stx_attributes == 0
        &&& self.stx_nlink == 0
        &&& self.stx_uid == 0
        &&& self.stx_gid == 0
        &&& self.stx_mode == 0
        &&& self.stx_ino == 0
        &&& self.stx_size == 0
        &&& self.stx_blocks == 0
        &&& self.stx_attributes_mask == 0
        &&& self.stx_atime == epoch
        &&& self.stx_btime == epoch
        &&& self.stx_ctime == epoch
        &&& self.stx_mtime == epoch
        &&& self.stx_rdev_major == 0
        &&& self.stx_rdev_minor == 0
        &&& self.stx_dev_major == 0
        &&& self.stx_dev_minor == 0
        &&& self.stx_mnt_id == 0
        &&& self.stx_dio_mem_align == 0
        &&& self.stx_dio_offset_align == 0
        &&& self.__spare0@ =~= seq![0u16]
        &&& self.__spare3@ =~= Seq::new(12, |i: int| 0u64)
    }
}

/// The masks ask for single bits or for everything below them: the type and the
/// permissions have a bit of their own, and are among what `stat` gives, which is part of
/// everything.
pub proof fn law_statx_masks(asked: u32)
    ensures
        asked & STATX_ALL == asked % 0x1000,
        asked & STATX_BASIC_STATS == asked % 0x800,
        asked & STATX_TYPE == asked % 2,
        asked & STATX_MODE == 2 * (asked / 2 % 2),
{
    assert(asked & 0x0fff == asked % 0x1000) by (bit_vector);
    assert(asked & 0x07ff == asked % 0x800) by (bit_vector);
    assert(asked & 0x0001 == asked % 2) by (bit_vector);
    assert(asked & 0x0002 == 2 * (asked / 2 % 2)) by (bit_vector);
}

/// Metadata that nothing has been written to holds no bit anywhere.
pub proof fn law_empty_metadata(metadata: statx, i: int)
    requires
        metadata.is_zero(),
        0 <= i < 12,
    ensures
        metadata.stx_mask + metadata.stx_blksize + metadata.stx_attributes + metadata.stx_nlink
            + metadata.stx_uid + metadata.stx_gid + metadata.stx_mode + metadata.__spare0@[0]
            + metadata.stx_ino + metadata.stx_size + metadata.stx_blocks
            + metadata.stx_attributes_mask + metadata.stx_rdev_major + metadata.stx_rdev_minor
            + metadata.stx_dev_major + metadata.stx_dev_minor + metadata.stx_mnt_id
            + metadata.stx_dio_mem_align + metadata.stx_dio_offset_align + metadata.__spare3@[i]
            == 0,
        metadata.stx_atime == metadata.stx_btime,
        metadata.stx_btime == metadata.stx_ctime,
        metadata.stx_ctime == metadata.stx_mtime,
        metadata.stx_mtime.tv_sec == 0,
        metadata.stx_mtime.tv_nsec == 0,
        metadata.stx_mtime.__reserved == 0,
{
    assert(metadata.__spare0@ =~= seq![0u16]);
    assert(metadata.__spare3@ =~= Seq::new(12, |i: int| 0u64));
}

impl Default for statx {
    /// Metadata that nothing has been written to.
    fn default() -> (r: statx)
        ensures
            r.is_zero(),
    {
        let epoch = statx_timestamp { tv_sec: 0, tv_nsec: 0, __reserved: 0 };
        statx {
            stx_mask: 0,
            stx_blksize: 0,
            stx_attributes: 0,
            stx_nlink: 0,
            stx_uid: 0,
            stx_gid: 0,
            stx_mode: 0,
            __spare0: [0u16],
            stx_ino: 0,
            stx_size: 0,
            stx_blocks: 0,
            stx_attributes_mask: 0,
            stx_atime: epoch,
            stx_btime: epoch,
            stx_ctime: epoch,
            stx_mtime: epoch,
            stx_rdev_major: 0,
            stx_rdev_minor: 0,
            stx_dev_major: 0,
            stx_dev_minor: 0,
            stx_mnt_id: 0,
            stx_dio_mem_align: 0,
            stx_dio_offset_align: 0,
            __spare3: [0u64; 12],
        }
    }
}

} // verus!
