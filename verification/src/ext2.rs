//! The on-disk records of an ext2 file system: the superblock, block group
//! descriptors and inodes, read from their little-endian bytes.
use vstd::prelude::*;
use crate::acpi::{le_u16, le_u32, read_u16, read_u32};

verus! {

/// Compatible features.
#[derive(Debug, Clone, Copy, PartialEq, Eq, Structural)]
pub enum CompatibleFeatures {
    Ext2FeatureCompatDirPrealloc,
    Ext2FeatureCompatImagicInodes,
    Ext3FeatureCompatHasJournal,
    Ext2FeatureCompatExtAttr,
    Ext2FeatureCompatResizeIno,
    Ext2FeatureCompatDirIndex,
}

impl CompatibleFeatures {
    /// The feature's bit in the superblock's compatible feature set.
    pub fn bits(&self) -> (r: u32)
        ensures
            r == match *self {
                CompatibleFeatures::Ext2FeatureCompatDirPrealloc => 0x0001u32,
                CompatibleFeatures::Ext2FeatureCompatImagicInodes => 0x0002,
                CompatibleFeatures::Ext3FeatureCompatHasJournal => 0x0004,
                CompatibleFeatures::Ext2FeatureCompatExtAttr => 0x0008,
                CompatibleFeatures::Ext2FeatureCompatResizeIno => 0x0010,
                CompatibleFeatures::Ext2FeatureCompatDirIndex => 0x0020,
            },
    {
        match self {
            CompatibleFeatures::Ext2FeatureCompatDirPrealloc => 0x0001,
            CompatibleFeatures::Ext2FeatureCompatImagicInodes => 0x0002,
            CompatibleFeatures::Ext3FeatureCompatHasJournal => 0x0004,
            CompatibleFeatures::Ext2FeatureCompatExtAttr => 0x0008,
            CompatibleFeatures::Ext2FeatureCompatResizeIno => 0x0010,
            CompatibleFeatures::Ext2FeatureCompatDirIndex => 0x0020,
        }
    }
}

/// Incompatible features.
#[derive(Debug, Clone, Copy, PartialEq, Eq, Structural)]
pub enum IncompatibleFeatures {
    Ext2FeatureIncompatCompression,
    Ext2FeatureIncompatFiletype,
    Ext3FeatureIncompatRecover,
    Ext3FeatureIncompatJournalDev,
    Ext2FeatureIncompatMetaBg,
}

impl IncompatibleFeatures {
    /// The feature's bit in the superblock's incompatible feature set.
    pub fn bits(&self) -> (r: u32)
        ensures
            r == match *self {
                IncompatibleFeatures::Ext2FeatureIncompatCompression => 0x0001u32,
                IncompatibleFeatures::Ext2FeatureIncompatFiletype => 0x0002,
                IncompatibleFeatures::Ext3FeatureIncompatRecover => 0x0004,
                IncompatibleFeatures::Ext3FeatureIncompatJournalDev => 0x0008,
                IncompatibleFeatures::Ext2FeatureIncompatMetaBg => 0x0010,
            },
    {
        match self {
            IncompatibleFeatures::Ext2FeatureIncompatCompression => 0x0001,
            IncompatibleFeatures::Ext2FeatureIncompatFiletype => 0x0002,
            IncompatibleFeatures::Ext3FeatureIncompatRecover => 0x0004,
            IncompatibleFeatures::Ext3FeatureIncompatJournalDev => 0x0008,
            IncompatibleFeatures::Ext2FeatureIncompatMetaBg => 0x0010,
        }
    }
}

/// Read-only compatible features.
#[derive(Debug, Clone, Copy, PartialEq, Eq, Structural)]
pub enum CompatibleReadOnlyFeatures {
    Ext2FeatureRoCompatSparseSuper,
    Ext2FeatureRoCompatLargeFile,
    Ext2FeatureRoCompatBtreeDir,
}

impl CompatibleReadOnlyFeatures {
    /// The feature's bit in the superblock's read-only compatible feature set.
    pub fn bits(&self) -> (r: u32)
        ensures
            r == match *self {
                CompatibleReadOnlyFeatures::Ext2FeatureRoCompatSparseSuper => 0x0001u32,
                CompatibleReadOnlyFeatures::Ext2FeatureRoCompatLargeFile => 0x0002,
                CompatibleReadOnlyFeatures::Ext2FeatureRoCompatBtreeDir => 0x0004,
            },
    {
        match self {
            CompatibleReadOnlyFeatures::Ext2FeatureRoCompatSparseSuper => 0x0001,
            CompatibleReadOnlyFeatures::Ext2FeatureRoCompatLargeFile => 0x0002,
            CompatibleReadOnlyFeatures::Ext2FeatureRoCompatBtreeDir => 0x0004,
        }
    }
}

/// Compression algorithms.
#[derive(Debug, Clone, Copy, PartialEq, Eq, Structural)]
pub enum AlgorithmBitmap {
    Ext2Lzv1Alg,
    Ext2Lzrw3aAlg,
    Ext2GzipAlg,
    Ext2Bzip2Alg,
    Ext2LzoAlg,
}

impl AlgorithmBitmap {
    /// The algorithm's bit in the superblock's algorithm bitmap.
    pub fn bits(&self) -> (r: u32)
        ensures
            r == match *self {
                AlgorithmBitmap::Ext2Lzv1Alg => 0x0001u32,
                AlgorithmBitmap::Ext2Lzrw3aAlg => 0x0002,
                AlgorithmBitmap::Ext2GzipAlg => 0x0004,
                AlgorithmBitmap::Ext2Bzip2Alg => 0x0008,
                AlgorithmBitmap::Ext2LzoAlg => 0x0010,
            },
    {
        match self {
            AlgorithmBitmap::Ext2Lzv1Alg => 0x0001,
            AlgorithmBitmap::Ext2Lzrw3aAlg => 0x0002,
            AlgorithmBitmap::Ext2GzipAlg => 0x0004,
            AlgorithmBitmap::Ext2Bzip2Alg => 0x0008,
            AlgorithmBitmap::Ext2LzoAlg => 0x0010,
        }
    }
}

/// The magic number of an ext2 superblock.
pub const EXT2_SUPER_MAGIC: u16 = 0xEF53;
/// File system state: cleanly unmounted.
pub const EXT2_GOOD_FS: u16 = 1;
/// File system state: errors detected.
pub const EXT2_ERROR_FS: u16 = 2;
/// Size in bytes of the superblock.
pub const EXT2_SUPERBLOCK_SIZE: usize = 1024;

/// The `N` bytes at `off`.
fn read_array<const N: usize>(b: &[u8], off: usize) -> (r: [u8; N])
    requires
        off + N <= b@.len(),
    ensures
        r@ == b@.subrange(off as int, off + N),
{
    let mut out = [0u8; N];
    let mut i: usize = 0;
    while i < N
        invariant
            off + N <= b@.len(),
            b@.len() == b.len(),
            i <= N,
            out@.len() == N,
            forall|j: int| 0 <= j < i ==> out@[j] == b@[off + j],
        decreases N - i,
    {
        out[i] = b[off + i];
        i = i + 1;
    }
    assert(out@ =~= b@.subrange(off as int, off + N));
    out
}

/// The superblock of an ext2 file system.
#[derive(Debug, Clone, Copy)]
pub struct Ext2Superblock {
    pub inode_count: u32,
    pub block_count: u32,
    pub reserved_block_count: u32,
    pub free_block_count: u32,
    pub free_inode_count: u32,
    pub first_data_block: u32,
    pub log_block_size: u32,
    pub log_frag_size: u32,
    pub blocks_per_group: u32,
    pub frags_per_group: u32,
    pub inodes_per_group: u32,
    pub last_mount_time: u32,
    pub last_write_time: u32,
    pub mounts_since_check: u16,
    pub max_mounts: u16,
    pub magic: u16,
    pub state: u16,
    pub errors: u16,
    pub minor_rev: u16,
    pub last_check: u32,
    pub check_interval: u32,
    pub creator_os: u32,
    pub rev_level: u32,
    pub default_resuid: u16,
    pub default_resgid: u16,
    pub first_inode: u32,
    pub inode_size: u16,
    pub block_group_nr: u16,
    pub feature_compatible: u32,
    pub feature_incompatible: u32,
    pub feature_read_only_compatible: u32,
    /// The 128-bit identifier, as its 16 bytes in disk order.
    pub uuid: [u8; 16],
    pub volume_name: [u8; 16],
    pub last_mounted: [u8; 64],
    pub algorithm_bitmap: u32,
    pub preallocated_blocks: u8,
    pub preallocated_directory_blocks: u8,
    pub journal_uuid: [u8; 16],
    pub journal_inum: u32,
    pub journal_dev: u32,
    pub last_orphan: u32,
    pub hash_seed: [u32; 4],
    pub def_hash_version: u8,
    pub default_mount_options: u32,
    pub first_meta_bg: u32,
}

/// Whether `s` is the superblock laid out in the first 1024 bytes of `b`.
pub open spec fn is_superblock_of(s: Ext2Superblock, b: Seq<u8>) -> bool {
    &&& b.len() >= 1024
    &&& s.inode_count == le_u32(b, 0)
    &&& s.block_count == le_u32(b, 4)
    &&& s.reserved_block_count == le_u32(b, 8)
    &&& s.free_block_count == le_u32(b, 12)
    &&& s.free_inode_count == le_u32(b, 16)
    &&& s.first_data_block == le_u32(b, 20)
    &&& s.log_block_size == le_u32(b, 24)
    &&& s.log_frag_size == le_u32(b, 28)
    &&& s.blocks_per_group == le_u32(b, 32)
    &&& s.frags_per_group == le_u32(b, 36)
    &&& s.inodes_per_group == le_u32(b, 40)
    &&& s.last_mount_time == le_u32(b, 44)
    &&& s.last_write_time == le_u32(b, 48)
    &&& s.mounts_since_check == le_u16(b, 52)
    &&& s.max_mounts == le_u16(b, 54)
    &&& s.magic == le_u16(b, 56)
    &&& s.state == le_u16(b, 58)
    &&& s.errors == le_u16(b, 60)
    &&& s.minor_rev == le_u16(b, 62)
    &&& s.last_check == le_u32(b, 64)
    &&& s.check_interval == le_u32(b, 68)
    &&& s.creator_os == le_u32(b, 72)
    &&& s.rev_level == le_u32(b, 76)
    &&& s.default_resuid == le_u16(b, 80)
    &&& s.default_resgid == le_u16(b, 82)
    &&& s.first_inode == le_u32(b, 84)
    &&& s.inode_size == le_u16(b, 88)
    &&& s.block_group_nr == le_u16(b, 90)
    &&& s.feature_compatible == le_u32(b, 92)
    &&& s.feature_incompatible == le_u32(b, 96)
    &&& s.feature_read_only_compatible == le_u32(b, 100)
    &&& s.uuid@ == b.subrange(104, 120)
    &&& s.volume_name@ == b.subrange(120, 136)
    &&& s.last_mounted@ == b.subrange(136, 200)
    &&& s.algorithm_bitmap == le_u32(b, 200)
    &&& s.preallocated_blocks == b[204]
    &&& s.preallocated_directory_blocks == b[205]
    &&& s.journal_uuid@ == b.subrange(208, 224)
    &&& s.journal_inum == le_u32(b, 224)
    &&& s.journal_dev == le_u32(b, 228)
    &&& s.last_orphan == le_u32(b, 232)
    &&& s.hash_seed@ == seq![le_u32(b, 236), le_u32(b, 240), le_u32(b, 244), le_u32(b, 248)]
    &&& s.def_hash_version == b[252]
    &&& s.default_mount_options == le_u32(b, 256)
    &&& s.first_meta_bg == le_u32(b, 260)
}

impl Ext2Superblock {
    /// Reads a superblock from its 1024 bytes; `None` when fewer are given.
    pub fn from_bytes(b: &[u8]) -> (r: Option<Ext2Superblock>)
        ensures
            r is None <==> b@.len() < 1024,
            r matches Some(s) ==> is_superblock_of(s, b@),
    {
        if b.len() < EXT2_SUPERBLOCK_SIZE {
            return None;
        }
        let hash_seed: [u32; 4] = [read_u32(b, 236), read_u32(b, 240), read_u32(b, 244), read_u32(b, 248)];
        let s = Ext2Superblock {
            inode_count: read_u32(b, 0),
            block_count: read_u32(b, 4),
            reserved_block_count: read_u32(b, 8),
            free_block_count: read_u32(b, 12),
            free_inode_count: read_u32(b, 16),
            first_data_block: read_u32(b, 20),
            log_block_size: read_u32(b, 24),
            log_frag_size: read_u32(b, 28),
            blocks_per_group: read_u32(b, 32),
            frags_per_group: read_u32(b, 36),
            inodes_per_group: read_u32(b, 40),
            last_mount_time: read_u32(b, 44),
            last_write_time: read_u32(b, 48),
            mounts_since_check: read_u16(b, 52),
            max_mounts: read_u16(b, 54),
            magic: read_u16(b, 56),
            state: read_u16(b, 58),
            errors: read_u16(b, 60),
            minor_rev: read_u16(b, 62),
            last_check: read_u32(b, 64),
            check_interval: read_u32(b, 68),
            creator_os: read_u32(b, 72),
            rev_level: read_u32(b, 76),
            default_resuid: read_u16(b, 80),
            default_resgid: read_u16(b, 82),
            first_inode: read_u32(b, 84),
            inode_size: read_u16(b, 88),
            block_group_nr: read_u16(b, 90),
            feature_compatible: read_u32(b, 92),
            feature_incompatible: read_u32(b, 96),
            feature_read_only_compatible: read_u32(b, 100),
            uuid: read_array::<16>(b, 104),
            volume_name: read_array::<16>(b, 120),
            last_mounted: read_array::<64>(b, 136),
            algorithm_bitmap: read_u32(b, 200),
            preallocated_blocks: b[204],
            preallocated_directory_blocks: b[205],
            journal_uuid: read_array::<16>(b, 208),
            journal_inum: read_u32(b, 224),
            journal_dev: read_u32(b, 228),
            last_orphan: read_u32(b, 232),
            hash_seed,
            def_hash_version: b[252],
            default_mount_options: read_u32(b, 256),
            first_meta_bg: read_u32(b, 260),
        };
        assert(s.hash_seed@ =~= seq![le_u32(b@, 236), le_u32(b@, 240), le_u32(b@, 244), le_u32(b@, 248)]);
        Some(s)
    }

    /// Checks that this is a superblock this kernel reads: the ext2 magic
    /// number, and a revision of at most 1.
    pub fn validate(&self) -> (r: Result<(), &'static str>)
        ensures
            self.magic != EXT2_SUPER_MAGIC ==> r == Err::<(), &'static str>("Invalid EXT2 magic"),
            self.magic == EXT2_SUPER_MAGIC && self.rev_level > 1 ==> r == Err::<(), &'static str>(
                "Unsupported EXT2 revision",
            ),
            self.magic == EXT2_SUPER_MAGIC && self.rev_level <= 1 ==> r is Ok,
    {
        if self.magic != EXT2_SUPER_MAGIC {
            return Err("Invalid EXT2 magic");
        }
        if self.rev_level > 1 {
            return Err("Unsupported EXT2 revision");
        }
        Ok(())
    }

    /// The block size in bytes: 1024 shifted left by `log_block_size`,
    /// in 32 bits.
    pub fn block_size(&self) -> (r: u32)
        requires
            self.log_block_size < 32,
        ensures
            r == 1024u32 << self.log_block_size,
    {
        1024u32 << self.log_block_size
    }
}

/// A block group descriptor.
#[derive(Debug, Clone, Copy)]
pub struct Ext2BlockGroupDescriptor {
    pub block_bitmap: u32,
    pub inode_bitmap: u32,
    pub inode_table: u32,
    pub free_blocks_count: u16,
    pub free_inodes_count: u16,
    pub used_dirs_count: u16,
    pub pad: u16,
    pub reserved: [u8; 12],
}

impl Ext2BlockGroupDescriptor {
    /// Reads a descriptor from its 32 bytes; `None` when fewer are given.
    pub fn from_bytes(b: &[u8]) -> (r: Option<Ext2BlockGroupDescriptor>)
        ensures
            r is None <==> b@.len() < 32,
            r matches Some(d) ==> {
                &&& d.block_bitmap == le_u32(b@, 0)
                &&& d.inode_bitmap == le_u32(b@, 4)
                &&& d.inode_table == le_u32(b@, 8)
                &&& d.free_blocks_count == le_u16(b@, 12)
                &&& d.free_inodes_count == le_u16(b@, 14)
                &&& d.used_dirs_count == le_u16(b@, 16)
                &&& d.pad == le_u16(b@, 18)
                &&& d.reserved@ == b@.subrange(20, 32)
            },
    {
        if b.len() < 32 {
            return None;
        }
        Some(
            Ext2BlockGroupDescriptor {
                block_bitmap: read_u32(b, 0),
                inode_bitmap: read_u32(b, 4),
                inode_table: read_u32(b, 8),
                free_blocks_count: read_u16(b, 12),
                free_inodes_count: read_u16(b, 14),
                used_dirs_count: read_u16(b, 16),
                pad: read_u16(b, 18),
                reserved: read_array::<12>(b, 20),
            },
        )
    }
}

/// An inode.
#[derive(Debug, Clone, Copy)]
pub struct Ext2Inode {
    /// File mode and type.
    pub mode: u16,
    /// User ID.
    pub uid: u16,
    /// File size in bytes (its lower 32 bits from revision 1 on).
    pub size: u32,
    /// Last access time.
    pub atime: u32,
    /// Creation time.
    pub ctime: u32,
    /// Last modification time.
    pub mtime: u32,
    /// Deletion time.
    pub dtime: u32,
    /// Group ID.
    pub gid: u16,
    /// Link count.
    pub links_count: u16,
    /// Number of 512-byte sectors.
    pub blocks: u32,
    /// Inode flags.
    pub flags: u32,
    /// OS dependent field 1.
    pub osd1: u32,
    /// Block pointers: direct, then indirect, doubly and triply indirect.
    pub block: [u32; 15],
    /// File version (NFS).
    pub generation: u32,
    /// Extended attribute block.
    pub file_acl: u32,
    /// Directory ACL block, or the high 32 bits of the size.
    pub dir_acl: u32,
    /// Fragment address.
    pub faddr: u32,
    /// OS dependent field 2.
    pub osd2: [u8; 12],
}

impl Ext2Inode {
    /// Reads an inode from its 128 bytes; `None` when fewer are given.
    pub fn from_bytes(b: &[u8]) -> (r: Option<Ext2Inode>)
        ensures
            r is None <==> b@.len() < 128,
            r matches Some(n) ==> {
                &&& n.mode == le_u16(b@, 0)
                &&& n.uid == le_u16(b@, 2)
                &&& n.size == le_u32(b@, 4)
                &&& n.atime == le_u32(b@, 8)
                &&& n.ctime == le_u32(b@, 12)
                &&& n.mtime == le_u32(b@, 16)
                &&& n.dtime == le_u32(b@, 20)
                &&& n.gid == le_u16(b@, 24)
                &&& n.links_count == le_u16(b@, 26)
                &&& n.blocks == le_u32(b@, 28)
                &&& n.flags == le_u32(b@, 32)
                &&& n.osd1 == le_u32(b@, 36)
                &&& forall|i: int| 0 <= i < 15 ==> #[trigger] n.block@[i] == le_u32(b@, 40 + 4 * i)
                &&& n.generation == le_u32(b@, 100)
                &&& n.file_acl == le_u32(b@, 104)
                &&& n.dir_acl == le_u32(b@, 108)
                &&& n.faddr == le_u32(b@, 112)
                &&& n.osd2@ == b@.subrange(116, 128)
            },
    {
        if b.len() < 128 {
            return None;
        }
        let mut block = [0u32; 15];
        let mut i: usize = 0;
        while i < 15
            invariant
                b@.len() >= 128,
                i <= 15,
                block@.len() == 15,
                forall|j: int| 0 <= j < i ==> #[trigger] block@[j] == le_u32(b@, 40 + 4 * j),
            decreases 15 - i,
        {
            block[i] = read_u32(b, 40 + 4 * i);
            i = i + 1;
        }
        Some(
            Ext2Inode {
                mode: read_u16(b, 0),
                uid: read_u16(b, 2),
                size: read_u32(b, 4),
                atime: read_u32(b, 8),
                ctime: read_u32(b, 12),
                mtime: read_u32(b, 16),
                dtime: read_u32(b, 20),
                gid: read_u16(b, 24),
                links_count: read_u16(b, 26),
                blocks: read_u32(b, 28),
                flags: read_u32(b, 32),
                osd1: read_u32(b, 36),
                block,
                generation: read_u32(b, 100),
                file_acl: read_u32(b, 104),
                dir_acl: read_u32(b, 108),
                faddr: read_u32(b, 112),
                osd2: read_array::<12>(b, 116),
            },
        )
    }
}

} // verus!
