//! How many files a metadata region carved from a cluster budget can address.
use vstd::prelude::*;
use crate::params::ceil_div;

verus! {

/// `n` files fit in `total_clusters` when their own clusters plus the
/// clusters of their metadata records (`per_cluster` to a cluster) do.
pub open spec fn file_count_fits(n: int, per_cluster: int, total_clusters: int) -> bool {
    n + ceil_div(n, per_cluster) <= total_clusters
}

/// `n` is the largest file count in `[0, total_clusters]` that fits.
pub open spec fn is_largest_file_count(n: int, per_cluster: int, total_clusters: int) -> bool {
    &&& 0 <= n <= total_clusters
    &&& file_count_fits(n, per_cluster, total_clusters)
    &&& forall|k: int| n < k <= total_clusters ==> !#[trigger] file_count_fits(k, per_cluster, total_clusters)
}

/// Fewer files never need more clusters.
pub proof fn lemma_fits_downward(j: int, n: int, per_cluster: int, total_clusters: int)
    requires
        0 <= j <= n,
        per_cluster > 0,
        file_count_fits(n, per_cluster, total_clusters),
    ensures
        file_count_fits(j, per_cluster, total_clusters),
{
    vstd::arithmetic::div_mod::lemma_div_is_ordered(j + per_cluster - 1, n + per_cluster - 1, per_cluster);
}

/// The largest count is unique, and grows with the cluster budget.
pub proof fn lemma_largest_file_count_monotone(
    n1: int,
    n2: int,
    per_cluster: int,
    clusters1: int,
    clusters2: int,
)
    requires
        per_cluster > 0,
        clusters1 <= clusters2,
        is_largest_file_count(n1, per_cluster, clusters1),
        is_largest_file_count(n2, per_cluster, clusters2),
    ensures
        n1 <= n2,
{
    if n1 > n2 {
        assert(file_count_fits(n1, per_cluster, clusters2));
    }
}

/// The largest `n` in `[0, total_clusters]` with
/// `n + ceil(n / metadata_per_cluster) <= total_clusters`, found by binary
/// search; zero when no metadata record fits in a cluster.
pub fn largest_file_count(total_clusters: u64, metadata_per_cluster: u64) -> (r: u64)
    ensures
        metadata_per_cluster == 0 ==> r == 0,
        metadata_per_cluster > 0 ==> is_largest_file_count(
            r as int,
            metadata_per_cluster as int,
            total_clusters as int,
        ),
{
    if metadata_per_cluster == 0 {
        return 0;
    }
    let m = metadata_per_cluster as u128;
    let budget = total_clusters as u128;
    let mut low: u128 = 0;
    let mut high: u128 = budget;
    proof {
        assert(ceil_div(0, m as int) == 0) by {
            vstd::arithmetic::div_mod::lemma_basic_div(m as int - 1, m as int);
        }
    }
    while low < high
        invariant
            m == metadata_per_cluster,
            budget == total_clusters,
            m > 0,
            low <= high <= budget,
            file_count_fits(low as int, m as int, budget as int),
            forall|k: int| high < k <= budget ==> !#[trigger] file_count_fits(k, m as int, budget as int),
        decreases high - low,
    {
        let mid: u128 = low + (high - low + 1) / 2;
        let overhead: u128 = (mid + m - 1) / m;
        if mid + overhead <= budget {
            low = mid;
        } else {
            proof {
                assert forall|k: int| mid <= k <= budget implies !#[trigger] file_count_fits(k, m as int, budget as int) by {
                    if file_count_fits(k, m as int, budget as int) {
                        lemma_fits_downward(mid as int, k, m as int, budget as int);
                    }
                }
            }
            high = mid - 1;
        }
    }
    low as u64
}

} // verus!
