//! Sizing of one FAT copy as the fixed point of "the FAT must index every
//! data cluster, and every FAT copy eats into the data area".
use vstd::prelude::*;
use vstd::arithmetic::div_mod::{lemma_div_is_ordered, lemma_div_pos_is_pos};
use vstd::arithmetic::mul::lemma_mul_inequality;
use crate::params::{ceil_div, FilesystemParameters};

verus! {

/// Sectors left for data when each FAT copy has `fat_size` sectors,
/// counting every FAT sector with its encoding.
pub open spec fn room_for_data(p: FilesystemParameters, fat_size: int) -> int {
    p.total_sectors() - p.fat_count as int * fat_size * p.encoding_coef as int - p.boot_sectors()
        - p.journal_sectors()
}

/// Sectors of one FAT copy, at four bytes per cluster, needed to index
/// `data` sectors of data.
pub open spec fn fat_size_for(p: FilesystemParameters, data: int) -> int {
    ceil_div((data / p.sectors_per_cluster as int) * 4, p.bytes_per_sector as int)
}

/// One round of the iteration: the FAT size asked for by the room that a
/// trial size leaves, or `None` when that room is negative.
pub open spec fn fat_step(p: FilesystemParameters, fat_size: int) -> Option<int> {
    let data = room_for_data(p, fat_size);
    if data < 0 {
        None
    } else {
        Some(fat_size_for(p, data))
    }
}

/// The trial FAT size after `n` rounds from zero, or `None` once a round
/// has failed.
pub open spec fn fat_trial(p: FilesystemParameters, n: nat) -> Option<int>
    decreases n,
{
    if n == 0 {
        Some(0)
    } else {
        match fat_trial(p, (n - 1) as nat) {
            Some(f) => fat_step(p, f),
            None => None,
        }
    }
}

/// `f` is a fixed point of the iteration and the iteration from zero reaches it.
pub open spec fn is_fat_fixed_point(p: FilesystemParameters, f: int) -> bool {
    exists|n: nat| #[trigger] fat_trial(p, n) == Some(f) && fat_step(p, f) == Some(f)
}

/// The iteration from zero settles on some FAT size.
pub open spec fn fat_converges(p: FilesystemParameters) -> bool {
    exists|f: int| is_fat_fixed_point(p, f)
}

/// More data never asks for a smaller FAT.
pub proof fn lemma_fat_size_for_monotone(p: FilesystemParameters, d1: int, d2: int)
    requires
        p.wf(),
        0 <= d1 <= d2,
    ensures
        0 <= fat_size_for(p, d1) <= fat_size_for(p, d2),
{
    let s = p.sectors_per_cluster as int;
    let b = p.bytes_per_sector as int;
    lemma_div_is_ordered(d1, d2, s);
    lemma_div_pos_is_pos(d1, s);
    lemma_div_is_ordered((d1 / s) * 4 + b - 1, (d2 / s) * 4 + b - 1, b);
    lemma_div_pos_is_pos((d1 / s) * 4 + b - 1, b);
}

/// A larger trial size leaves less room, so it asks for a FAT no larger.
pub proof fn lemma_fat_step_antitone(p: FilesystemParameters, f1: int, f2: int)
    requires
        p.wf(),
        0 <= f1 <= f2,
        fat_step(p, f2) is Some,
    ensures
        fat_step(p, f1) is Some,
        fat_step(p, f2)->0 <= fat_step(p, f1)->0,
        fat_step(p, f2)->0 >= 0,
{
    let ce = p.fat_count as int * p.encoding_coef as int;
    lemma_mul_inequality(f1, f2, ce);
    assert(p.fat_count as int * f1 * p.encoding_coef as int == f1 * ce) by (nonlinear_arith)
        requires
            ce == p.fat_count as int * p.encoding_coef as int,
    ;
    assert(p.fat_count as int * f2 * p.encoding_coef as int == f2 * ce) by (nonlinear_arith)
        requires
            ce == p.fat_count as int * p.encoding_coef as int,
    ;
    lemma_fat_size_for_monotone(p, room_for_data(p, f2), room_for_data(p, f1));
}

/// Once the iteration sits on a fixed point it stays there.
pub proof fn lemma_fixed_point_persists(p: FilesystemParameters, k: nat, m: nat, f: int)
    requires
        fat_trial(p, k) == Some(f),
        fat_step(p, f) == Some(f),
        k <= m,
    ensures
        fat_trial(p, m) == Some(f),
    decreases m - k,
{
    if k < m {
        lemma_fixed_point_persists(p, k, (m - 1) as nat, f);
    }
}

/// Once a round has failed every later round fails.
pub proof fn lemma_failure_persists(p: FilesystemParameters, k: nat, m: nat)
    requires
        fat_trial(p, k) is None,
        k <= m,
    ensures
        fat_trial(p, m) is None,
    decreases m - k,
{
    if k < m {
        lemma_failure_persists(p, k, (m - 1) as nat);
    }
}

/// Once the iteration alternates between two sizes it keeps alternating.
pub proof fn lemma_cycle_persists(p: FilesystemParameters, k: nat, m: nat, a: int, b: int)
    requires
        fat_trial(p, k) == Some(a),
        fat_step(p, a) == Some(b),
        fat_step(p, b) == Some(a),
        k <= m,
    ensures
        fat_trial(p, m) == Some(a) || fat_trial(p, m) == Some(b),
    decreases m - k,
{
    if k < m {
        lemma_cycle_persists(p, k, (m - 1) as nat, a, b);
    }
}

/// The iteration from zero reaches at most one fixed point.
pub proof fn lemma_fixed_point_unique(p: FilesystemParameters, f1: int, f2: int)
    requires
        is_fat_fixed_point(p, f1),
        is_fat_fixed_point(p, f2),
    ensures
        f1 == f2,
{
    let n1 = choose|n: nat| #[trigger] fat_trial(p, n) == Some(f1) && fat_step(p, f1) == Some(f1);
    let n2 = choose|n: nat| #[trigger] fat_trial(p, n) == Some(f2) && fat_step(p, f2) == Some(f2);
    if n1 <= n2 {
        lemma_fixed_point_persists(p, n1, n2, f1);
    } else {
        lemma_fixed_point_persists(p, n2, n1, f2);
    }
}

/// A failed round rules out convergence.
pub proof fn lemma_failure_prevents_convergence(p: FilesystemParameters, k: nat)
    requires
        fat_trial(p, k) is None,
    ensures
        !fat_converges(p),
{
    if fat_converges(p) {
        let f = choose|f: int| is_fat_fixed_point(p, f);
        let n = choose|n: nat| #[trigger] fat_trial(p, n) == Some(f) && fat_step(p, f) == Some(f);
        let m: nat = if n <= k { k } else { n };
        lemma_fixed_point_persists(p, n, m, f);
        lemma_failure_persists(p, k, m);
    }
}

/// An alternation between two distinct sizes rules out convergence.
pub proof fn lemma_cycle_prevents_convergence(p: FilesystemParameters, k: nat, a: int, b: int)
    requires
        fat_trial(p, k) == Some(a),
        fat_step(p, a) == Some(b),
        fat_step(p, b) == Some(a),
        a != b,
    ensures
        !fat_converges(p),
{
    if fat_converges(p) {
        let f = choose|f: int| is_fat_fixed_point(p, f);
        let n = choose|n: nat| #[trigger] fat_trial(p, n) == Some(f) && fat_step(p, f) == Some(f);
        let m: nat = if n <= k { k } else { n };
        lemma_fixed_point_persists(p, n, m, f);
        lemma_cycle_persists(p, k, m, a, b);
    }
}

/// Largest image, in sectors, that the parameter types can describe.
pub open spec fn max_total_sectors() -> int {
    0x10_0000_0000_0000
}

/// Bound on every trial FAT size the iteration produces.
pub open spec fn max_fat_size() -> int {
    0x1000_0000_0000_0000
}

/// One round of the iteration on machine integers.
fn next_fat_size(p: &FilesystemParameters, total: u128, boot: u128, journal: u128, fat_size: u128) -> (r: Option<u128>)
    requires
        p.wf(),
        total == p.total_sectors(),
        boot == p.boot_sectors(),
        journal == p.journal_sectors(),
        total <= max_total_sectors(),
        boot < 0x1_0000_0000_0000_0000_0000_0000,
        journal < 0x1_0000_0000_0000_0000,
        fat_size < max_fat_size(),
    ensures
        r matches Some(x) ==> fat_step(*p, fat_size as int) == Some(x as int) && x < max_fat_size(),
        r is None ==> fat_step(*p, fat_size as int) is None,
{
    let c = p.fat_count as u128;
    let e = p.encoding_coef as u128;
    let s = p.sectors_per_cluster as u128;
    let b = p.bytes_per_sector as u128;
    assert(c * fat_size < 0x1_0000_0000 * 0x1000_0000_0000_0000) by (nonlinear_arith)
        requires
            c < 0x1_0000_0000,
            fat_size < 0x1000_0000_0000_0000,
    ;
    assert(c * fat_size * e < 0x1_0000_0000 * 0x1000_0000_0000_0000 * 0x1_0000_0000) by (nonlinear_arith)
        requires
            c < 0x1_0000_0000,
            e < 0x1_0000_0000,
            c * fat_size < 0x1_0000_0000 * 0x1000_0000_0000_0000,
    ;
    let used = c * fat_size * e;
    if used + boot + journal > total {
        return None;
    }
    let data = total - used - boot - journal;
    let clusters = data / s;
    proof {
        vstd::arithmetic::div_mod::lemma_div_is_ordered_by_denominator(data as int, 1, s as int);
    }
    let bytes = clusters * 4;
    let r = (bytes + b - 1) / b;
    proof {
        vstd::arithmetic::div_mod::lemma_div_is_ordered_by_denominator((bytes + b - 1) as int, 1, b as int);
    }
    Some(r)
}

/// Runs the iteration from zero until it settles, and reports `None` when
/// a round leaves negative room or the iteration starts to alternate
/// between two sizes, which it would then do forever.
///
/// Termination: a round never moves past the previous trial size, because
/// the step is antitone; so consecutive trial sizes enclose ever smaller
/// intervals until they meet or repeat.
pub(crate) fn fat_size_per_copy(p: &FilesystemParameters, total: u128, boot: u128, journal: u128) -> (r: Option<u128>)
    requires
        p.wf(),
        total == p.total_sectors(),
        boot == p.boot_sectors(),
        journal == p.journal_sectors(),
        total <= max_total_sectors(),
        boot < 0x1_0000_0000_0000_0000_0000_0000,
        journal < 0x1_0000_0000_0000_0000,
    ensures
        r matches Some(f) ==> is_fat_fixed_point(*p, f as int) && f < max_fat_size(),
        r is None ==> !fat_converges(*p),
{
    assert(fat_trial(*p, 0) == Some(0int));
    assert(fat_trial(*p, 1) == fat_step(*p, 0));
    let first = match next_fat_size(p, total, boot, journal, 0) {
        Some(x) => x,
        None => {
            proof {
                lemma_failure_prevents_convergence(*p, 1);
            }
            return None;
        },
    };
    let mut prev: u128 = 0;
    let mut cur: u128 = first;
    let ghost mut n: nat = 1;
    proof {
        if let Some(x) = fat_step(*p, cur as int) {
            lemma_fat_step_antitone(*p, 0, cur as int);
        }
    }
    while cur != prev
        invariant
            p.wf(),
            total == p.total_sectors(),
            boot == p.boot_sectors(),
            journal == p.journal_sectors(),
            total <= max_total_sectors(),
            boot < 0x1_0000_0000_0000_0000_0000_0000,
            journal < 0x1_0000_0000_0000_0000,
            n >= 1,
            fat_trial(*p, (n - 1) as nat) == Some(prev as int),
            fat_trial(*p, n) == Some(cur as int),
            prev < max_fat_size(),
            cur < max_fat_size(),
            fat_step(*p, cur as int) matches Some(x) ==> (prev <= cur ==> prev <= x) && (cur <= prev ==> x <= prev),
        decreases if cur >= prev { cur - prev } else { prev - cur },
    {
        assert(fat_trial(*p, n + 1) == fat_step(*p, cur as int));
        assert(fat_step(*p, prev as int) == Some(cur as int));
        let next = match next_fat_size(p, total, boot, journal, cur) {
            Some(x) => x,
            None => {
                proof {
                    lemma_failure_prevents_convergence(*p, n + 1);
                }
                return None;
            },
        };
        if next == prev {
            proof {
                lemma_cycle_prevents_convergence(*p, (n - 1) as nat, prev as int, cur as int);
            }
            return None;
        }
        proof {
            if prev <= cur {
                lemma_fat_step_antitone(*p, prev as int, cur as int);
                if fat_step(*p, next as int) is Some {
                    lemma_fat_step_antitone(*p, prev as int, next as int);
                }
            } else {
                lemma_fat_step_antitone(*p, cur as int, prev as int);
                if fat_step(*p, next as int) is Some {
                    lemma_fat_step_antitone(*p, next as int, prev as int);
                }
            }
        }
        prev = cur;
        cur = next;
        proof {
            n = n + 1;
        }
    }
    Some(cur)
}

} // verus!
