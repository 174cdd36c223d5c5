//! Exhaustive scan of the non-zero 32-bit seed domain: a range scanner, a
//! partitioner that splits the domain into disjoint contiguous ranges, and
//! the full search that concatenates the per-range hit lists.

use vstd::prelude::*;
use vstd::arithmetic::div_mod::{lemma_fundamental_div_mod, lemma_remainder_lower,
    lemma_remainder_upper};
use vstd::arithmetic::mul::lemma_mul_inequality;

use crate::matcher::spec_matches;
use crate::model::{observations_valid, ProbabilityThresholds, SlotObservation, TierSizes};

verus! {

/// The whole seed domain: 0 is excluded by construction, as the stepper's
/// fixed point.
pub const SEED_DOMAIN_MAX: u32 = 0xFFFF_FFFF;

/// A seed both lies in the scanned range and reproduces the observations.
pub open spec fn is_hit(
    s: u32,
    obs: Seq<SlotObservation>,
    sizes: TierSizes,
    th: ProbabilityThresholds,
    lo: u32,
    hi: u32,
) -> bool {
    lo <= s <= hi && spec_matches(s, obs, sizes, th)
}

/// What a scan of `[lo, hi]` must return: the hits of that range, each
/// exactly once, in ascending seed order.
pub open spec fn is_search_result(
    r: Seq<u32>,
    obs: Seq<SlotObservation>,
    sizes: TierSizes,
    th: ProbabilityThresholds,
    lo: u32,
    hi: u32,
) -> bool {
    &&& forall|a: int, b: int| 0 <= a < b < r.len() ==> r[a] < r[b]
    &&& forall|a: int| 0 <= a < r.len() ==> is_hit(#[trigger] r[a], obs, sizes, th, lo, hi)
    &&& forall|s: u32| is_hit(s, obs, sizes, th, lo, hi) ==> r.contains(s)
}

/// Scan every seed of `[start_point, end_point]` in ascending order and
/// collect those the matcher accepts against the observation sequence.
pub fn find_seed_range(
    cats: &Vec<SlotObservation>,
    sizes: &TierSizes,
    thresholds: &ProbabilityThresholds,
    start_point: u32,
    end_point: u32,
) -> (r: Vec<u32>)
    requires
        observations_valid(cats@, *sizes),
        1 <= start_point <= end_point,
    ensures
        is_search_result(r@, cats@, *sizes, *thresholds, start_point, end_point),
{
    let mut r: Vec<u32> = Vec::new();
    let mut i: u64 = start_point as u64;
    while i <= end_point as u64
        invariant
            observations_valid(cats@, *sizes),
            start_point as u64 <= i <= end_point as u64 + 1,
            forall|a: int, b: int| 0 <= a < b < r@.len() ==> r@[a] < r@[b],
            forall|a: int| 0 <= a < r@.len() ==> {
                &&& start_point <= #[trigger] r@[a]
                &&& (r@[a] as u64) < i
                &&& spec_matches(r@[a], cats@, *sizes, *thresholds)
            },
            forall|s: u32| start_point <= s && (s as u64) < i
                && spec_matches(s, cats@, *sizes, *thresholds) ==> r@.contains(s),
        decreases end_point as u64 + 1 - i,
    {
        let seed = i as u32;
        if crate::matcher::matches(seed, cats, sizes, thresholds) {
            let ghost old_r = r@;
            r.push(seed);
            proof {
                assert(r@[r@.len() - 1] == seed);
                assert forall|s: u32| start_point <= s && (s as u64) < i + 1
                    && spec_matches(s, cats@, *sizes, *thresholds) implies r@.contains(s) by {
                    if (s as u64) < i {
                        assert(old_r.contains(s));
                        let a = choose|a: int| 0 <= a < old_r.len() && old_r[a] == s;
                        assert(r@ == old_r.push(seed));
                        assert(r@[a] == s);
                    } else {
                        assert(r@[r@.len() - 1] == s);
                    }
                }
            }
        }
        i = i + 1;
    }
    proof {
        assert forall|s: u32| is_hit(s, cats@, *sizes, *thresholds, start_point, end_point)
            implies r@.contains(s) by {
            assert((s as u64) < i);
            assert(r@.contains(s));
        }
    }
    r
}

/// The width of each sub-range but the last, for a split of the domain
/// among `worker_count` workers.
pub open spec fn spec_range_step(worker_count: u32) -> int {
    (SEED_DOMAIN_MAX as int) / (worker_count as int)
}

/// The step is at least 1 and `worker_count` whole steps fit in the domain.
proof fn lemma_step_bounds(worker_count: u32)
    requires
        worker_count >= 1,
    ensures
        1 <= spec_range_step(worker_count),
        (worker_count as int) * spec_range_step(worker_count) <= SEED_DOMAIN_MAX as int,
{
    let m = SEED_DOMAIN_MAX as int;
    let t = worker_count as int;
    let q = spec_range_step(worker_count);
    lemma_fundamental_div_mod(m, t);
    lemma_remainder_lower(m, t);
    lemma_remainder_upper(m, t);
    assert(m == t * q + m % t);
    if q < 1 {
        assert(t * q <= 0) by (nonlinear_arith)
            requires t >= 1, q <= 0,
        ;
        assert(m % t < t);
        assert(m < t);
        assert(false);
    }
    assert(t * q <= m);
}

/// Split the seed domain `[1, SEED_DOMAIN_MAX]` into `worker_count`
/// contiguous sub-ranges: all of one width except the last, which runs to
/// the end of the domain and so absorbs the division remainder.
pub fn seed_ranges(worker_count: u32) -> (r: Vec<(u32, u32)>)
    requires
        worker_count >= 1,
    ensures
        r@.len() == worker_count as int,
        forall|i: int| 0 <= i < worker_count as int
            ==> (#[trigger] r@[i]).0 == 1 + i * spec_range_step(worker_count),
        forall|i: int| 0 <= i < worker_count as int - 1
            ==> (#[trigger] r@[i]).1 == (i + 1) * spec_range_step(worker_count),
        r@[worker_count as int - 1].1 == SEED_DOMAIN_MAX,
        forall|i: int| 0 <= i < worker_count as int
            ==> 1 <= (#[trigger] r@[i]).0 <= r@[i].1,
{
    proof {
        lemma_step_bounds(worker_count);
    }
    let step: u32 = SEED_DOMAIN_MAX / worker_count;
    let mut r: Vec<(u32, u32)> = Vec::new();
    let mut w: u32 = 0;
    while w < worker_count
        invariant
            0 <= w <= worker_count,
            worker_count >= 1,
            step == spec_range_step(worker_count),
            1 <= step,
            (worker_count as int) * (step as int) <= SEED_DOMAIN_MAX as int,
            r@.len() == w as int,
            forall|i: int| 0 <= i < w as int
                ==> (#[trigger] r@[i]).0 == 1 + i * spec_range_step(worker_count),
            forall|i: int| 0 <= i < w as int && i < worker_count as int - 1
                ==> (#[trigger] r@[i]).1 == (i + 1) * spec_range_step(worker_count),
            w as int == worker_count as int
                ==> r@[worker_count as int - 1].1 == SEED_DOMAIN_MAX,
            forall|i: int| 0 <= i < w as int ==> 1 <= (#[trigger] r@[i]).0 <= r@[i].1,
        decreases worker_count - w,
    {
        proof {
            lemma_mul_inequality(w as int + 1, worker_count as int, step as int);
            lemma_mul_inequality(w as int, worker_count as int, step as int);
            assert((w as int) * (step as int) >= 0) by (nonlinear_arith)
                requires w as int >= 0, step as int >= 0,
            ;
            assert((w as int) * (step as int) < (w as int + 1) * (step as int))
                by (nonlinear_arith)
                requires step as int >= 1,
            ;
        }
        let start: u32 = ((w as u64) * (step as u64) + 1) as u32;
        let end: u32 = if w == worker_count - 1 {
            SEED_DOMAIN_MAX
        } else {
            ((w as u64 + 1) * (step as u64)) as u32
        };
        r.push((start, end));
        w += 1;
    }
    r
}

/// Concatenating the scan of `[lo1, hi1]` with the scan of the adjacent
/// range `[hi1 + 1, hi2]` scans `[lo1, hi2]`.
proof fn lemma_search_concat(
    r1: Seq<u32>,
    r2: Seq<u32>,
    obs: Seq<SlotObservation>,
    sizes: TierSizes,
    th: ProbabilityThresholds,
    lo1: u32,
    hi1: u32,
    lo2: u32,
    hi2: u32,
)
    requires
        is_search_result(r1, obs, sizes, th, lo1, hi1),
        is_search_result(r2, obs, sizes, th, lo2, hi2),
        lo2 as int == hi1 as int + 1,
        lo1 <= lo2,
        hi1 <= hi2,
    ensures
        is_search_result(r1 + r2, obs, sizes, th, lo1, hi2),
{
    let r = r1 + r2;
    assert forall|a: int| 0 <= a < r.len() implies is_hit(#[trigger] r[a], obs, sizes, th, lo1, hi2) by {
        if a < r1.len() {
            assert(r[a] == r1[a]);
        } else {
            assert(r[a] == r2[a - r1.len()]);
        }
    }
    assert forall|a: int, b: int| 0 <= a < b < r.len() implies r[a] < r[b] by {
        if a < r1.len() && b >= r1.len() {
            assert(is_hit(r1[a], obs, sizes, th, lo1, hi1));
            assert(is_hit(r2[b - r1.len()], obs, sizes, th, lo2, hi2));
        }
    }
    assert forall|s: u32| is_hit(s, obs, sizes, th, lo1, hi2) implies r.contains(s) by {
        if s <= hi1 {
            assert(is_hit(s, obs, sizes, th, lo1, hi1));
            assert(r1.contains(s));
            let a = choose|a: int| 0 <= a < r1.len() && r1[a] == s;
            assert(r[a] == s);
        } else {
            assert(is_hit(s, obs, sizes, th, lo2, hi2));
            assert(r2.contains(s));
            let a = choose|a: int| 0 <= a < r2.len() && r2[a] == s;
            assert(r[r1.len() + a] == s);
        }
    }
}

/// Search the whole seed domain `[1, SEED_DOMAIN_MAX]` for the seeds that
/// reproduce the observation sequence, in ascending order. The domain is
/// split into `total_threads` contiguous sub-ranges, each scanned
/// independently and the hit lists concatenated; the result is the same
/// for every worker count.
pub fn find_seed(
    cats: &Vec<SlotObservation>,
    sizes: &TierSizes,
    thresholds: &ProbabilityThresholds,
    total_threads: u32,
) -> (r: Vec<u32>)
    requires
        observations_valid(cats@, *sizes),
        total_threads >= 1,
    ensures
        is_search_result(r@, cats@, *sizes, *thresholds, 1, SEED_DOMAIN_MAX),
{
    let ranges = seed_ranges(total_threads);
    let mut result: Vec<u32> = Vec::new();
    let mut w: usize = 0;
    proof {
        lemma_step_bounds(total_threads);
    }
    while w < ranges.len()
        invariant
            observations_valid(cats@, *sizes),
            total_threads >= 1,
            ranges@.len() == total_threads as int,
            forall|i: int| 0 <= i < total_threads as int
                ==> (#[trigger] ranges@[i]).0 == 1 + i * spec_range_step(total_threads),
            forall|i: int| 0 <= i < total_threads as int - 1
                ==> (#[trigger] ranges@[i]).1 == (i + 1) * spec_range_step(total_threads),
            ranges@[total_threads as int - 1].1 == SEED_DOMAIN_MAX,
            forall|i: int| 0 <= i < total_threads as int
                ==> 1 <= (#[trigger] ranges@[i]).0 <= ranges@[i].1,
            0 <= w <= ranges@.len(),
            w == 0 ==> result@.len() == 0,
            w > 0 ==> is_search_result(result@, cats@, *sizes, *thresholds, 1,
                ranges@[w as int - 1].1),
        decreases ranges@.len() - w,
    {
        let (start, end) = ranges[w];
        let mut block = find_seed_range(cats, sizes, thresholds, start, end);
        let ghost pre = result@;
        let ghost blk = block@;
        proof {
            if w > 0 {
                assert(start as int == ranges@[w as int - 1].1 as int + 1);
                lemma_search_concat(pre, blk, cats@, *sizes, *thresholds, 1,
                    ranges@[w as int - 1].1, start, end);
            } else {
                assert((ranges@[0]).0 == 1 + 0 * spec_range_step(total_threads));
                assert(0 * spec_range_step(total_threads) == 0) by (nonlinear_arith);
                assert(pre + blk =~= blk);
            }
            assert(is_search_result(pre + blk, cats@, *sizes, *thresholds, 1, end));
        }
        result.append(&mut block);
        proof {
            assert(result@ == pre + blk);
            assert(ranges@[w as int].1 == end);
        }
        w += 1;
    }
    result
}

/// Self-consistency of search: a full-domain scan against the observation
/// sequence synthesized by replaying a live seed always includes that seed
/// among its candidates.
pub proof fn lemma_search_finds_replayed_seed(
    r: Seq<u32>,
    seed: u32,
    n: nat,
    sizes: TierSizes,
    th: ProbabilityThresholds,
)
    requires
        sizes.all_positive(),
        n >= 1,
        seed >= 1,
        is_search_result(
            r,
            crate::matcher::spec_synthesize(seed, n, sizes, th),
            sizes,
            th,
            1,
            SEED_DOMAIN_MAX,
        ),
    ensures
        r.contains(seed),
{
    crate::matcher::lemma_replay_self_consistent(seed, n, sizes, th);
    let obs = crate::matcher::spec_synthesize(seed, n, sizes, th);
    assert(is_hit(seed, obs, sizes, th, 1, SEED_DOMAIN_MAX));
}

/// Completeness of partitioning: any two scans of the same range over the
/// same observations, roster sizes and boundaries return the same candidate
/// list, however the range was split to produce them. In particular the
/// single-threaded scan and a scan split among any number of workers agree.
pub proof fn lemma_scan_result_unique(
    r1: Seq<u32>,
    r2: Seq<u32>,
    obs: Seq<SlotObservation>,
    sizes: TierSizes,
    th: ProbabilityThresholds,
    lo: u32,
    hi: u32,
)
    requires
        is_search_result(r1, obs, sizes, th, lo, hi),
        is_search_result(r2, obs, sizes, th, lo, hi),
    ensures
        r1 == r2,
{
    assert forall|s: u32| r1.contains(s) implies r2.contains(s) by {
        let a = choose|a: int| 0 <= a < r1.len() && r1[a] == s;
        assert(is_hit(r1[a], obs, sizes, th, lo, hi));
        assert(r2.contains(s));
    }
    assert forall|s: u32| r2.contains(s) implies r1.contains(s) by {
        let a = choose|a: int| 0 <= a < r2.len() && r2[a] == s;
        assert(is_hit(r2[a], obs, sizes, th, lo, hi));
        assert(r1.contains(s));
    }
    lemma_sorted_same_members_equal(r1, r2);
}

/// Two strictly ascending sequences with the same members are equal.
proof fn lemma_sorted_same_members_equal(r1: Seq<u32>, r2: Seq<u32>)
    requires
        forall|a: int, b: int| 0 <= a < b < r1.len() ==> r1[a] < r1[b],
        forall|a: int, b: int| 0 <= a < b < r2.len() ==> r2[a] < r2[b],
        forall|s: u32| r1.contains(s) <==> r2.contains(s),
    ensures
        r1 == r2,
    decreases r1.len(),
{
    if r1.len() == 0 {
        if r2.len() > 0 {
            assert(r2.contains(r2[0]));
            assert(false);
        }
        assert(r1 =~= r2);
    } else if r2.len() == 0 {
        assert(r1.contains(r1[0]));
        assert(false);
    } else {
        assert(r1.contains(r1[0]));
        assert(r2.contains(r2[0]));
        let j1 = choose|j: int| 0 <= j < r2.len() && r2[j] == r1[0];
        let j2 = choose|j: int| 0 <= j < r1.len() && r1[j] == r2[0];
        assert(r2[0] <= r2[j1]);
        assert(r1[0] <= r1[j2]);
        assert(r1[0] == r2[0]);
        let t1 = r1.drop_first();
        let t2 = r2.drop_first();
        lemma_tail_members(r1);
        lemma_tail_members(r2);
        assert forall|s: u32| t1.contains(s) <==> t2.contains(s) by {
            assert(t1.contains(s) <==> (r1.contains(s) && s != r1[0]));
            assert(t2.contains(s) <==> (r2.contains(s) && s != r2[0]));
        }
        assert forall|a: int, b: int| 0 <= a < b < t1.len() implies t1[a] < t1[b] by {
            assert(t1[a] == r1[a + 1] && t1[b] == r1[b + 1]);
        }
        assert forall|a: int, b: int| 0 <= a < b < t2.len() implies t2[a] < t2[b] by {
            assert(t2[a] == r2[a + 1] && t2[b] == r2[b + 1]);
        }
        lemma_sorted_same_members_equal(t1, t2);
        assert(r1 =~= r2) by {
            assert(r1.len() == t1.len() + 1 && r2.len() == t2.len() + 1);
            assert(forall|i: int| 1 <= i < r1.len() ==> r1[i] == t1[i - 1] && r2[i] == t2[i - 1]);
        }
    }
}

/// In a strictly ascending sequence the tail holds exactly the members
/// other than the head.
proof fn lemma_tail_members(r: Seq<u32>)
    requires
        r.len() >= 1,
        forall|a: int, b: int| 0 <= a < b < r.len() ==> r[a] < r[b],
    ensures
        forall|s: u32| r.drop_first().contains(s) <==> (r.contains(s) && s != r[0]),
{
    let t = r.drop_first();
    assert forall|s: u32| t.contains(s) implies (r.contains(s) && s != r[0]) by {
        let a = choose|a: int| 0 <= a < t.len() && t[a] == s;
        assert(r[a + 1] == s);
        assert(r[0] < r[a + 1]);
    }
    assert forall|s: u32| r.contains(s) && s != r[0] implies t.contains(s) by {
        let a = choose|a: int| 0 <= a < r.len() && r[a] == s;
        assert(a != 0);
        assert(t[a - 1] == s);
    }
}

} // verus!
