use fat_layout::capacity::largest_file_count;
use fat_layout::layout::{compute_layout, Layout, LayoutError};
use fat_layout::params::FilesystemParameters;

fn params() -> FilesystemParameters {
    FilesystemParameters::default()
}

fn region_sum(l: &Layout) -> u64 {
    l.boot_sectors + l.journal_sectors + l.fat_sectors + l.metadata_sectors + l.file_data_sectors
}

fn ceil_div(a: u64, b: u64) -> u64 {
    (a + b - 1) / b
}

#[test]
fn default_parameters() {
    let p = params();
    assert_eq!(p.disk_size_mb, 10);
    assert_eq!(p.bytes_per_sector, 512);
    assert_eq!(p.sectors_per_cluster, 8);
    assert_eq!(p.fat_count, 2);
    assert_eq!(p.boot_sector_size, 81);
    assert_eq!(p.boot_sector_count, 20);
    assert_eq!(p.journal_count, 0);
    assert_eq!(p.file_metadata_size, 28);
    assert_eq!(p.encoding_coef, 2);
    assert!(p.is_valid());
}

#[test]
fn ten_mebibyte_image() {
    let l = compute_layout(&params()).unwrap();
    assert_eq!(l.total_sectors, 20480);
    assert_eq!(region_sum(&l), 20480);
    assert!(l.max_file_count > 0);
    assert_eq!(l.boot_sectors, 6);
    assert_eq!(l.journal_sectors, 0);
    assert_eq!(l.fat_sectors, 40);
    assert_eq!(l.metadata_sectors, 280);
    assert_eq!(l.file_data_sectors, 20154);
    assert_eq!(l.max_file_count, 2519);
}

#[test]
fn smallest_image_with_most_fats() {
    let p = FilesystemParameters { disk_size_mb: 1, fat_count: 8, sectors_per_cluster: 1, ..params() };
    let l = compute_layout(&p).unwrap();
    assert_eq!(l.total_sectors, 2048);
    assert_eq!(l.fat_sectors, 120);
    assert_eq!(l.metadata_sectors, 193);
    assert_eq!(l.file_data_sectors, 1729);
    assert_eq!(l.max_file_count, 1729);
    assert_eq!(region_sum(&l), l.total_sectors);
}

#[test]
fn journal_takes_one_cluster_per_unit() {
    let none = compute_layout(&params()).unwrap();
    assert_eq!(none.journal_sectors, 0);
    let p = FilesystemParameters { journal_count: 3, ..params() };
    let l = compute_layout(&p).unwrap();
    assert_eq!(l.journal_sectors, 24);
    assert_eq!(l.file_data_sectors, 20130);
    assert_eq!(l.max_file_count, 2516);
    assert_eq!(region_sum(&l), l.total_sectors);
}

#[test]
fn no_journal_for_many_parameter_sets() {
    for disk in [1u32, 7, 64, 20480] {
        for spc in [1u32, 8, 64] {
            for bps in [64u32, 512, 1024] {
                let p = FilesystemParameters {
                    disk_size_mb: disk,
                    sectors_per_cluster: spc,
                    bytes_per_sector: bps,
                    journal_count: 0,
                    ..params()
                };
                if let Ok(l) = compute_layout(&p) {
                    assert_eq!(l.journal_sectors, 0);
                }
            }
        }
    }
}

#[test]
fn oversized_metadata_record_addresses_no_files() {
    let p = FilesystemParameters {
        file_metadata_size: 128,
        encoding_coef: 4,
        sectors_per_cluster: 1,
        bytes_per_sector: 64,
        ..params()
    };
    let l = compute_layout(&p).unwrap();
    assert_eq!(l.max_file_count, 0);
    assert_eq!(l.metadata_sectors, 0);
    assert_eq!(l.total_sectors, 163840);
    assert_eq!(l.boot_sectors, 101);
    assert_eq!(l.fat_sectors, 13646);
    assert_eq!(l.file_data_sectors, 150093);
}

#[test]
fn same_input_same_layout() {
    let p = FilesystemParameters { disk_size_mb: 777, journal_count: 5, ..params() };
    assert_eq!(compute_layout(&p), compute_layout(&p));
}

#[test]
fn file_count_grows_with_disk_size() {
    let mut last = 0u64;
    for disk in 1u32..=200 {
        let p = FilesystemParameters { disk_size_mb: disk, ..params() };
        let l = compute_layout(&p).unwrap();
        assert!(l.max_file_count >= last);
        last = l.max_file_count;
    }
    let big = compute_layout(&FilesystemParameters { disk_size_mb: 20480, ..params() }).unwrap();
    assert_eq!(big.total_sectors, 41943040);
    assert_eq!(big.max_file_count, 5161967);
    assert_eq!(region_sum(&big), big.total_sectors);
}

#[test]
fn chosen_file_count_is_the_largest_that_fits() {
    for disk in [1u32, 2, 3, 100] {
        let p = FilesystemParameters { disk_size_mb: disk, ..params() };
        let l = compute_layout(&p).unwrap();
        let per_cluster = 8 * 512 / (28 * 2);
        let clusters = (l.metadata_sectors + l.file_data_sectors) / 8;
        let n = l.max_file_count;
        assert!(n + ceil_div(n, per_cluster) <= clusters);
        if n < clusters {
            assert!((n + 1) + ceil_div(n + 1, per_cluster) > clusters);
        }
    }
}

#[test]
fn zero_divisors_are_rejected() {
    let cases = [
        FilesystemParameters { bytes_per_sector: 0, ..params() },
        FilesystemParameters { sectors_per_cluster: 0, ..params() },
        FilesystemParameters { fat_count: 0, ..params() },
        FilesystemParameters { file_metadata_size: 0, ..params() },
        FilesystemParameters { encoding_coef: 0, ..params() },
        FilesystemParameters { disk_size_mb: 0, ..params() },
    ];
    for p in cases.iter() {
        assert!(!p.is_valid());
        assert_eq!(compute_layout(p), Err(LayoutError::InvalidParameters));
    }
}

#[test]
fn structures_larger_than_image_are_rejected() {
    let p = FilesystemParameters { disk_size_mb: 1, journal_count: 100, sectors_per_cluster: 64, ..params() };
    assert_eq!(compute_layout(&p), Err(LayoutError::InvalidParameters));
}

#[test]
fn alternating_fat_size_is_rejected() {
    let p = FilesystemParameters {
        disk_size_mb: 1,
        bytes_per_sector: 64,
        sectors_per_cluster: 1,
        fat_count: 1,
        encoding_coef: 4,
        boot_sector_count: 0,
        journal_count: 0,
        ..params()
    };
    assert_eq!(compute_layout(&p), Err(LayoutError::InvalidParameters));
}

#[test]
fn encoded_boot_records_round_down() {
    let p = FilesystemParameters {
        disk_size_mb: 1,
        bytes_per_sector: 1024,
        boot_sector_count: 100,
        boot_sector_size: 512,
        encoding_coef: 4,
        ..params()
    };
    let l = compute_layout(&p).unwrap();
    assert_eq!(l.total_sectors, 1024);
    assert_eq!(l.boot_sectors, 200);
    assert_eq!(l.fat_sectors, 2);
    assert_eq!(l.metadata_sectors, 16);
    assert_eq!(l.file_data_sectors, 806);
    assert_eq!(l.max_file_count, 100);
}

#[test]
fn largest_file_count_small_budget() {
    assert_eq!(largest_file_count(10, 4), 8);
    assert_eq!(largest_file_count(0, 5), 0);
    assert_eq!(largest_file_count(1, 1), 0);
    assert_eq!(largest_file_count(2, 1), 1);
}

#[test]
fn largest_file_count_without_room_per_cluster() {
    assert_eq!(largest_file_count(10, 0), 0);
    assert_eq!(largest_file_count(u64::MAX, 0), 0);
}

#[test]
fn largest_file_count_huge_budget() {
    assert_eq!(largest_file_count(u64::MAX, 1), u64::MAX / 2);
    assert_eq!(largest_file_count(u64::MAX, u64::MAX), u64::MAX - 1);
}
