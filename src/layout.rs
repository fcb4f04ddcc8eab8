//! The sector-level partition of an image and the planner that derives it.
use vstd::prelude::*;
use vstd::arithmetic::div_mod::{lemma_div_is_ordered, lemma_div_pos_is_pos, lemma_fundamental_div_mod};
use vstd::arithmetic::mul::lemma_mul_inequality;
use crate::params::{ceil_div, FilesystemParameters, BYTES_PER_MB};
use crate::capacity::{file_count_fits, is_largest_file_count, largest_file_count, lemma_largest_file_count_monotone};
use crate::fat::{
    fat_converges, fat_size_for, fat_size_per_copy, is_fat_fixed_point,
    lemma_fat_size_for_monotone, lemma_fixed_point_unique, room_for_data,
};

verus! {

/// How an image is split, in whole sectors.
#[derive(Clone, Copy, Debug, PartialEq, Eq, Structural)]
pub struct Layout {
    /// Image size in sectors.
    pub total_sectors: u64,
    /// Sectors of the boot records.
    pub boot_sectors: u64,
    /// Sectors of the journal area.
    pub journal_sectors: u64,
    /// Sectors of all FAT copies together.
    pub fat_sectors: u64,
    /// Sectors of the clusters that hold file metadata.
    pub metadata_sectors: u64,
    /// Sectors left for file content.
    pub file_data_sectors: u64,
    /// Largest file count the metadata region can address.
    pub max_file_count: u64,
}

/// Why no layout exists for a parameter set.
#[derive(Clone, Copy, Debug, PartialEq, Eq, Structural)]
pub enum LayoutError {
    /// A parameter is out of its domain, the fixed structures do not fit in
    /// the image, or the FAT size has no fixed point reachable from zero.
    InvalidParameters,
}

/// Sectors left after boot records, journal and `fat_size` sectors per FAT copy.
pub open spec fn data_sectors(p: FilesystemParameters, fat_size: int) -> int {
    p.total_sectors() - p.boot_sectors() - fat_size * p.fat_count as int - p.journal_sectors()
}

/// Metadata clusters needed by `n` files.
pub open spec fn metadata_clusters(n: int, per_cluster: int) -> int {
    if per_cluster == 0 {
        0
    } else {
        ceil_div(n, per_cluster)
    }
}

/// `l` is the layout of `p` when each FAT copy has `fat_size` sectors.
pub open spec fn layout_with_fat(p: FilesystemParameters, fat_size: int, l: Layout) -> bool {
    let data = data_sectors(p, fat_size);
    let clusters = data / p.sectors_per_cluster as int;
    let per_cluster = p.metadata_per_cluster();
    &&& l.total_sectors == p.total_sectors()
    &&& l.boot_sectors == p.boot_sectors()
    &&& l.journal_sectors == p.journal_sectors()
    &&& l.fat_sectors == fat_size * p.fat_count as int
    &&& if per_cluster == 0 {
        l.max_file_count == 0
    } else {
        is_largest_file_count(l.max_file_count as int, per_cluster, clusters)
    }
    &&& l.metadata_sectors == metadata_clusters(l.max_file_count as int, per_cluster)
        * p.sectors_per_cluster as int
    &&& l.file_data_sectors == data - l.metadata_sectors
}

/// `l` is the layout of `p`: the FAT size per copy is the fixed point that
/// the iteration from zero reaches, and every other region follows from it.
pub open spec fn is_layout_of(p: FilesystemParameters, l: Layout) -> bool {
    &&& p.wf()
    &&& exists|f: int| #[trigger] is_fat_fixed_point(p, f) && layout_with_fat(p, f, l)
}

/// Splits the image that `params` describes into its regions.
///
/// Fails with `InvalidParameters` exactly when a parameter is out of its
/// domain or the FAT sizing does not settle (the fixed structures leave
/// negative room, or the iteration alternates for ever).
pub fn compute_layout(params: &FilesystemParameters) -> (r: Result<Layout, LayoutError>)
    ensures
        r is Ok <==> params.wf() && fat_converges(*params),
        r matches Ok(l) ==> is_layout_of(*params, l),
        r matches Err(e) ==> e == LayoutError::InvalidParameters,
{
    if !params.is_valid() {
        return Err(LayoutError::InvalidParameters);
    }
    let b = params.bytes_per_sector as u128;
    let s = params.sectors_per_cluster as u128;
    let c = params.fat_count as u128;
    let e = params.encoding_coef as u128;
    assert(params.disk_size_mb as int * BYTES_PER_MB as int <= 0x1_0000_0000 * 0x10_0000) by (nonlinear_arith)
        requires
            params.disk_size_mb < 0x1_0000_0000,
    ;
    let total = params.disk_size_mb as u128 * BYTES_PER_MB as u128 / b;
    proof {
        vstd::arithmetic::div_mod::lemma_div_is_ordered_by_denominator(
            params.disk_size_mb as int * BYTES_PER_MB as int, 1, b as int);
    }
    assert((params.boot_sector_count as int * params.boot_sector_size as int) < 0x1_0000_0000 * 0x1_0000_0000) by (nonlinear_arith)
        requires
            params.boot_sector_count < 0x1_0000_0000,
            params.boot_sector_size < 0x1_0000_0000,
    ;
    assert((params.boot_sector_count as int * params.boot_sector_size as int * e) < 0x1_0000_0000 * 0x1_0000_0000 * 0x1_0000_0000) by (nonlinear_arith)
        requires
            (params.boot_sector_count as int * params.boot_sector_size as int) < 0x1_0000_0000 * 0x1_0000_0000,
            e < 0x1_0000_0000,
    ;
    let boot_bytes = params.boot_sector_count as u128 * params.boot_sector_size as u128 * e;
    let boot = boot_bytes / b;
    proof {
        vstd::arithmetic::div_mod::lemma_div_is_ordered_by_denominator(boot_bytes as int, 1, b as int);
    }
    assert(params.journal_count as int * s < 0x1_0000_0000 * 0x1_0000_0000) by (nonlinear_arith)
        requires
            params.journal_count < 0x1_0000_0000,
            s < 0x1_0000_0000,
    ;
    let journal = params.journal_count as u128 * s;
    let fat_size = match fat_size_per_copy(params, total, boot, journal) {
        Some(f) => f,
        None => return Err(LayoutError::InvalidParameters),
    };
    let ghost p = *params;
    proof {
        assert(fat_size as int * c <= fat_size as int * c * e) by (nonlinear_arith)
            requires
                fat_size >= 0,
                c >= 1,
                e >= 1,
        ;
        assert(c * fat_size as int * e == fat_size as int * c * e) by (nonlinear_arith);
    }
    let fat_total = fat_size * c;
    let data = total - boot - fat_total - journal;
    let clusters = data / s;
    assert(s * b < 0x1_0000_0000 * 0x1_0000_0000) by (nonlinear_arith)
        requires
            s < 0x1_0000_0000,
            b < 0x1_0000_0000,
    ;
    let cluster_bytes = s * b;
    assert(params.file_metadata_size as int * e < 0x1_0000_0000 * 0x1_0000_0000) by (nonlinear_arith)
        requires
            params.file_metadata_size < 0x1_0000_0000,
            e < 0x1_0000_0000,
    ;
    let record_bytes = params.file_metadata_size as u128 * e;
    assert(record_bytes > 0) by (nonlinear_arith)
        requires
            record_bytes == params.file_metadata_size as int * e,
            params.file_metadata_size > 0,
            e >= 1,
    ;
    let per_cluster = cluster_bytes / record_bytes;
    proof {
        lemma_div_pos_is_pos(data as int, s as int);
        vstd::arithmetic::div_mod::lemma_div_is_ordered_by_denominator(data as int, 1, s as int);
        vstd::arithmetic::div_mod::lemma_div_is_ordered_by_denominator(cluster_bytes as int, 1, record_bytes as int);
    }
    let max_file_count = largest_file_count(clusters as u64, per_cluster as u64);
    let meta_clusters: u128 = if per_cluster == 0 {
        0
    } else {
        (max_file_count as u128 + per_cluster - 1) / per_cluster
    };
    proof {
        if per_cluster > 0 {
            lemma_div_pos_is_pos(max_file_count + per_cluster - 1, per_cluster as int);
        }
        lemma_fundamental_div_mod(data as int, s as int);
        lemma_mul_inequality(meta_clusters as int, clusters as int, s as int);
        assert(meta_clusters * s == s * meta_clusters) by (nonlinear_arith);
        assert(clusters * s == s * clusters) by (nonlinear_arith);
    }
    let meta = meta_clusters * s;
    let file_data = data - meta;
    let l = Layout {
        total_sectors: total as u64,
        boot_sectors: boot as u64,
        journal_sectors: journal as u64,
        fat_sectors: fat_total as u64,
        metadata_sectors: meta as u64,
        file_data_sectors: file_data as u64,
        max_file_count,
    };
    assert(layout_with_fat(p, fat_size as int, l));
    Ok(l)
}

/// The five regions partition the image exactly.
pub proof fn lemma_regions_cover_image(p: FilesystemParameters, l: Layout)
    requires
        is_layout_of(p, l),
    ensures
        l.boot_sectors + l.journal_sectors + l.fat_sectors + l.metadata_sectors
            + l.file_data_sectors == l.total_sectors,
{
}

/// A parameter set has at most one layout, so planning is deterministic.
pub proof fn lemma_layout_unique(p: FilesystemParameters, l1: Layout, l2: Layout)
    requires
        is_layout_of(p, l1),
        is_layout_of(p, l2),
    ensures
        l1 == l2,
{
    let f1 = choose|f: int| #[trigger] is_fat_fixed_point(p, f) && layout_with_fat(p, f, l1);
    let f2 = choose|f: int| #[trigger] is_fat_fixed_point(p, f) && layout_with_fat(p, f, l2);
    lemma_fixed_point_unique(p, f1, f2);
    p.lemma_derived_sizes_nonneg();
    let m = p.metadata_per_cluster();
    if m != 0 {
        let clusters = data_sectors(p, f1) / p.sectors_per_cluster as int;
        lemma_largest_file_count_monotone(l1.max_file_count as int, l2.max_file_count as int, m, clusters, clusters);
        lemma_largest_file_count_monotone(l2.max_file_count as int, l1.max_file_count as int, m, clusters, clusters);
    }
}

/// With no journal units the journal area is empty.
pub proof fn lemma_no_journal(p: FilesystemParameters, l: Layout)
    requires
        is_layout_of(p, l),
        p.journal_count == 0,
    ensures
        l.journal_sectors == 0,
{
}

/// When one encoded metadata record is larger than a cluster, no record
/// fits in a cluster, and the image addresses no files and holds no
/// metadata.
pub proof fn lemma_oversized_metadata_record(p: FilesystemParameters, l: Layout)
    requires
        is_layout_of(p, l),
        p.file_metadata_size as int * p.encoding_coef as int > p.cluster_size_bytes(),
    ensures
        p.metadata_per_cluster() == 0,
        l.max_file_count == 0,
        l.metadata_sectors == 0,
{
    assert(p.cluster_size_bytes() >= 0) by (nonlinear_arith)
        requires
            p.sectors_per_cluster >= 0,
            p.bytes_per_sector >= 0,
    ;
    vstd::arithmetic::div_mod::lemma_basic_div(
        p.cluster_size_bytes(),
        p.file_metadata_size as int * p.encoding_coef as int,
    );
}

/// The data clusters that files and their metadata share.
pub open spec fn file_clusters(p: FilesystemParameters, l: Layout) -> int {
    (l.metadata_sectors + l.file_data_sectors) / p.sectors_per_cluster as int
}

/// The chosen file count fits in the shared clusters, and one more file
/// would not, unless the count already uses every cluster.
pub proof fn lemma_file_count_is_largest(p: FilesystemParameters, l: Layout)
    requires
        is_layout_of(p, l),
        p.metadata_per_cluster() > 0,
    ensures
        file_count_fits(l.max_file_count as int, p.metadata_per_cluster(), file_clusters(p, l)),
        l.max_file_count < file_clusters(p, l) ==> !file_count_fits(
            l.max_file_count + 1,
            p.metadata_per_cluster(),
            file_clusters(p, l),
        ),
{
    let f = choose|f: int| #[trigger] is_fat_fixed_point(p, f) && layout_with_fat(p, f, l);
    assert(l.metadata_sectors + l.file_data_sectors == data_sectors(p, f));
}

/// With every other parameter fixed, a larger image never addresses fewer
/// files.
pub proof fn lemma_file_count_monotone_in_disk_size(
    p1: FilesystemParameters,
    p2: FilesystemParameters,
    l1: Layout,
    l2: Layout,
)
    requires
        p2 == (FilesystemParameters { disk_size_mb: p2.disk_size_mb, ..p1 }),
        p1.disk_size_mb <= p2.disk_size_mb,
        is_layout_of(p1, l1),
        is_layout_of(p2, l2),
    ensures
        l1.max_file_count <= l2.max_file_count,
{
    let f1 = choose|f: int| #[trigger] is_fat_fixed_point(p1, f) && layout_with_fat(p1, f, l1);
    let f2 = choose|f: int| #[trigger] is_fat_fixed_point(p2, f) && layout_with_fat(p2, f, l2);
    let b = p1.bytes_per_sector as int;
    let s = p1.sectors_per_cluster as int;
    let c = p1.fat_count as int;
    let e = p1.encoding_coef as int;
    assert(p1.disk_size_mb as int * BYTES_PER_MB as int <= p2.disk_size_mb as int * BYTES_PER_MB as int)
        by (nonlinear_arith)
        requires
            p1.disk_size_mb <= p2.disk_size_mb,
    ;
    lemma_div_is_ordered(
        p1.disk_size_mb as int * BYTES_PER_MB as int,
        p2.disk_size_mb as int * BYTES_PER_MB as int,
        b,
    );
    p1.lemma_derived_sizes_nonneg();
    let t1 = p1.total_sectors();
    let t2 = p2.total_sectors();
    let x1 = room_for_data(p1, f1);
    let x2 = room_for_data(p2, f2);
    // The residual grows with the image: otherwise the larger image has the
    // larger FAT, hence the smaller room, hence the FAT no larger.
    if data_sectors(p2, f2) < data_sectors(p1, f1) {
        assert(c * (f2 - f1) == f2 * c - f1 * c) by (nonlinear_arith);
        assert(c * (f2 - f1) > t2 - t1 >= 0);
        assert(f2 - f1 > 0) by (nonlinear_arith)
            requires
                c * (f2 - f1) > 0,
                c >= 1,
        ;
        assert(c * f2 * e - c * f1 * e >= c * (f2 - f1)) by (nonlinear_arith)
            requires
                f2 - f1 > 0,
                c >= 1,
                e >= 1,
        ;
        assert(x2 < x1);
        lemma_fat_size_for_monotone(p1, x2, x1);
        assert(fat_size_for(p2, x2) == fat_size_for(p1, x2));
    }
    lemma_div_is_ordered(data_sectors(p1, f1), data_sectors(p2, f2), s);
    let m = p1.metadata_per_cluster();
    if m != 0 {
        lemma_largest_file_count_monotone(
            l1.max_file_count as int,
            l2.max_file_count as int,
            m,
            data_sectors(p1, f1) / s,
            data_sectors(p2, f2) / s,
        );
    }
}

} // verus!
