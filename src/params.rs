//! The input record of the planner and the quantities read directly off it.
use vstd::prelude::*;

verus! {

/// Rounded-up integer division of a non-negative `a` by a positive `b`.
pub open spec fn ceil_div(a: int, b: int) -> int {
    (a + b - 1) / b
}

/// Bytes in one mebibyte.
pub const BYTES_PER_MB: u64 = 1048576;

/// Parameters of one filesystem image, all in whole units.
#[derive(Clone, Copy, Debug, PartialEq, Eq, Structural)]
pub struct FilesystemParameters {
    /// Image size in mebibytes.
    pub disk_size_mb: u32,
    /// Sector size in bytes.
    pub bytes_per_sector: u32,
    /// Allocation unit size in sectors.
    pub sectors_per_cluster: u32,
    /// Number of redundant FAT copies.
    pub fat_count: u32,
    /// Logical size in bytes of one boot-record unit, before encoding.
    pub boot_sector_size: u32,
    /// Number of boot-record units.
    pub boot_sector_count: u32,
    /// Number of journal units, one cluster each.
    pub journal_count: u32,
    /// Bytes of one file's metadata record, before encoding.
    pub file_metadata_size: u32,
    /// Multiplier from a logical size to its on-disk size.
    pub encoding_coef: u32,
}

impl FilesystemParameters {
    /// The domain on which a layout is defined: every divisor and
    /// multiplier is positive and the image is not empty.
    pub open spec fn wf(&self) -> bool {
        &&& self.disk_size_mb > 0
        &&& self.bytes_per_sector > 0
        &&& self.sectors_per_cluster > 0
        &&& self.fat_count >= 1
        &&& self.file_metadata_size > 0
        &&& self.encoding_coef >= 1
    }

    /// Image size in whole sectors; a partial last sector is dropped.
    pub open spec fn total_sectors(&self) -> int {
        self.disk_size_mb as int * BYTES_PER_MB as int / self.bytes_per_sector as int
    }

    /// Sectors taken by the encoded boot records, rounded down.
    pub open spec fn boot_sectors(&self) -> int {
        (self.boot_sector_count as int * self.boot_sector_size as int * self.encoding_coef as int)
            / self.bytes_per_sector as int
    }

    /// Sectors taken by the journal: one cluster per journal unit.
    pub open spec fn journal_sectors(&self) -> int {
        self.journal_count as int * self.sectors_per_cluster as int
    }

    /// Bytes in one cluster.
    pub open spec fn cluster_size_bytes(&self) -> int {
        self.sectors_per_cluster as int * self.bytes_per_sector as int
    }

    /// Encoded metadata records that fit in one cluster, rounded down.
    pub open spec fn metadata_per_cluster(&self) -> int {
        self.cluster_size_bytes() / (self.file_metadata_size as int * self.encoding_coef as int)
    }

    /// Sizes derived from well-formed parameters are non-negative, and a
    /// cluster holds at least one byte.
    pub proof fn lemma_derived_sizes_nonneg(&self)
        requires
            self.wf(),
        ensures
            self.total_sectors() >= 0,
            self.cluster_size_bytes() > 0,
            self.metadata_per_cluster() >= 0,
    {
        let record = self.file_metadata_size as int * self.encoding_coef as int;
        assert(self.cluster_size_bytes() > 0 && record > 0) by (nonlinear_arith)
            requires
                self.sectors_per_cluster > 0,
                self.bytes_per_sector > 0,
                self.file_metadata_size > 0,
                self.encoding_coef >= 1,
                record == self.file_metadata_size as int * self.encoding_coef as int,
        ;
        vstd::arithmetic::div_mod::lemma_div_pos_is_pos(self.cluster_size_bytes(), record);
        vstd::arithmetic::div_mod::lemma_div_pos_is_pos(
            self.disk_size_mb as int * BYTES_PER_MB as int,
            self.bytes_per_sector as int,
        );
    }

    /// Whether the parameters lie in the domain of the planner.
    pub fn is_valid(&self) -> (r: bool)
        ensures
            r == self.wf(),
    {
        self.disk_size_mb > 0 && self.bytes_per_sector > 0 && self.sectors_per_cluster > 0
            && self.fat_count >= 1 && self.file_metadata_size > 0 && self.encoding_coef >= 1
    }
}

impl Default for FilesystemParameters {
    /// A 10 MiB image with 512-byte sectors, 8-sector clusters and two FATs.
    fn default() -> (r: Self)
        ensures
            r.disk_size_mb == 10,
            r.bytes_per_sector == 512,
            r.sectors_per_cluster == 8,
            r.fat_count == 2,
            r.boot_sector_size == 81,
            r.boot_sector_count == 20,
            r.journal_count == 0,
            r.file_metadata_size == 28,
            r.encoding_coef == 2,
    {
        FilesystemParameters {
            disk_size_mb: 10,
            bytes_per_sector: 512,
            sectors_per_cluster: 8,
            fat_count: 2,
            boot_sector_size: 81,
            boot_sector_count: 20,
            journal_count: 0,
            file_metadata_size: 28,
            encoding_coef: 2,
        }
    }
}

} // verus!
