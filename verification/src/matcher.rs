//! The seed matcher: replays the generator from one candidate seed against
//! an observation sequence and decides accept or reject.

use vstd::prelude::*;

use crate::model::{
    observation_wf, observations_valid, ProbabilityThresholds, RarityTier, SlotObservation,
    TierSizes,
};
use crate::prng::{spec_step, spec_step2, next_state};

verus! {

/// The tier a first-roll outcome `prob` (the advanced state modulo 10000)
/// implies under the banner's boundaries.
pub open spec fn implied_tier(prob: u32, th: ProbabilityThresholds) -> RarityTier {
    if prob < th.super_rare_boundary {
        RarityTier::Rare
    } else if prob < th.uber_boundary {
        RarityTier::SuperRare
    } else if prob < th.legend_boundary {
        RarityTier::UberRare
    } else {
        RarityTier::LegendRare
    }
}

/// The tier implied by a first-roll outcome.
pub fn implied_tier_of(prob: u32, th: &ProbabilityThresholds) -> (r: RarityTier)
    ensures
        r == implied_tier(prob, *th),
{
    if prob < th.super_rare_boundary {
        RarityTier::Rare
    } else if prob < th.uber_boundary {
        RarityTier::SuperRare
    } else if prob < th.legend_boundary {
        RarityTier::UberRare
    } else {
        RarityTier::LegendRare
    }
}

/// Whether one draw passes, given the state `s1` after its probability roll
/// and the state `s2` after its slot roll. A `Blank` observation always
/// passes; a concrete tier must equal the implied tier; a concrete slot must
/// equal the slot roll modulo the tier's roster size.
pub open spec fn draw_accepts(
    o: SlotObservation,
    s1: u32,
    s2: u32,
    sizes: TierSizes,
    th: ProbabilityThresholds,
) -> bool {
    o.tier is Blank || {
        &&& implied_tier(s1 % 10000, th) == o.tier
        &&& match o.slot {
            Option::None => true,
            Option::Some(sv) => s2 % sizes.spec_size_of(o.tier) == sv,
        }
    }
}

/// Whether a replay starting from `state` passes every observation in `obs`,
/// consuming two generator advances per observation.
pub open spec fn spec_matches_from(
    state: u32,
    obs: Seq<SlotObservation>,
    sizes: TierSizes,
    th: ProbabilityThresholds,
) -> bool
    decreases obs.len(),
{
    if obs.len() == 0 {
        true
    } else {
        let s1 = spec_step(state);
        let s2 = spec_step(s1);
        draw_accepts(obs[0], s1, s2, sizes, th)
            && spec_matches_from(s2, obs.drop_first(), sizes, th)
    }
}

/// Whether `seed` reproduces the whole observation sequence.
pub open spec fn spec_matches(
    seed: u32,
    obs: Seq<SlotObservation>,
    sizes: TierSizes,
    th: ProbabilityThresholds,
) -> bool {
    spec_matches_from(seed, obs, sizes, th)
}

/// Replay the generator from `seed` and decide whether it reproduces the
/// observation sequence: for each observation in order, one advance rolls
/// the tier, a second advance rolls the slot, and a concrete tier or slot
/// that differs from the roll rejects the seed.
pub fn matches(
    seed: u32,
    observations: &Vec<SlotObservation>,
    sizes: &TierSizes,
    thresholds: &ProbabilityThresholds,
) -> (r: bool)
    requires
        observations_valid(observations@, *sizes),
    ensures
        r == spec_matches(seed, observations@, *sizes, *thresholds),
{
    let n = observations.len();
    proof {
        assert(observations@.skip(0) =~= observations@);
    }
    let mut state: u32 = seed;
    let mut j: usize = 0;
    while j < n
        invariant
            0 <= j <= n,
            n == observations@.len(),
            observations_valid(observations@, *sizes),
            spec_matches(seed, observations@, *sizes, *thresholds)
                == spec_matches_from(state, observations@.skip(j as int), *sizes, *thresholds),
        decreases n - j,
    {
        let ghost rest = observations@.skip(j as int);
        proof {
            assert(rest[0] == observations@[j as int]);
            assert(rest.drop_first() =~= observations@.skip(j as int + 1));
        }
        let o = observations[j];
        let s1 = next_state(state);
        let s2 = next_state(s1);
        let ok: bool = match o.tier {
            RarityTier::Blank => true,
            _ => {
                let prob = s1 % 10000;
                if implied_tier_of(prob, thresholds) == o.tier {
                    match o.slot {
                        Option::None => true,
                        Option::Some(sv) => {
                            assert(observation_wf(observations@[j as int], *sizes));
                            s2 % sizes.size_of(o.tier) == sv
                        },
                    }
                } else {
                    false
                }
            },
        };
        assert(ok == draw_accepts(o, s1, s2, *sizes, *thresholds));
        if !ok {
            assert(!spec_matches_from(state, rest, *sizes, *thresholds));
            return false;
        }
        state = s2;
        j += 1;
    }
    assert(observations@.skip(n as int) =~= Seq::<SlotObservation>::empty());
    true
}

/// Determinism: the matcher's verdict is a function of the seed, the
/// observations, the roster sizes and the boundaries alone, so two runs on
/// the same inputs agree.
pub proof fn lemma_matches_deterministic(
    r1: bool,
    r2: bool,
    seed: u32,
    obs: Seq<SlotObservation>,
    sizes: TierSizes,
    th: ProbabilityThresholds,
)
    requires
        r1 == spec_matches(seed, obs, sizes, th),
        r2 == spec_matches(seed, obs, sizes, th),
    ensures
        r1 == r2,
{
}

/// The generator state just before draw `k` of a replay that starts at
/// `seed`: each earlier draw consumed two advances.
pub open spec fn state_before(seed: u32, k: nat) -> u32
    decreases k,
{
    if k == 0 {
        seed
    } else {
        state_before(spec_step2(seed), (k - 1) as nat)
    }
}

/// Whether draw `k` of a replay from `seed` passes observation `obs[k]`.
pub open spec fn draw_ok(
    seed: u32,
    obs: Seq<SlotObservation>,
    k: int,
    sizes: TierSizes,
    th: ProbabilityThresholds,
) -> bool {
    let st = state_before(seed, k as nat);
    let s1 = spec_step(st);
    let s2 = spec_step(s1);
    draw_accepts(obs[k], s1, s2, sizes, th)
}

/// A replay accepts exactly when every draw, taken independently at its own
/// replayed state, passes its observation.
pub proof fn lemma_matches_iff_all_draws(
    seed: u32,
    obs: Seq<SlotObservation>,
    sizes: TierSizes,
    th: ProbabilityThresholds,
)
    ensures
        spec_matches(seed, obs, sizes, th)
            <==> (forall|k: int| 0 <= k < obs.len() ==> draw_ok(seed, obs, k, sizes, th)),
    decreases obs.len(),
{
    if obs.len() == 0 {
    } else {
        let s2 = spec_step2(seed);
        let tail = obs.drop_first();
        lemma_matches_iff_all_draws(s2, tail, sizes, th);
        assert(state_before(seed, 0) == seed);
        assert(draw_ok(seed, obs, 0, sizes, th)
            == draw_accepts(obs[0], spec_step(seed), spec_step(spec_step(seed)), sizes, th));
        assert forall|k: int| 1 <= k < obs.len() implies
            draw_ok(seed, obs, k, sizes, th) == draw_ok(s2, tail, k - 1, sizes, th) by {
            assert(state_before(seed, k as nat) == state_before(s2, (k - 1) as nat));
            assert(tail[k - 1] == obs[k]);
        }
        if spec_matches(seed, obs, sizes, th) {
            assert forall|k: int| 0 <= k < obs.len() implies
                draw_ok(seed, obs, k, sizes, th) by {
                if k >= 1 {
                    assert(draw_ok(s2, tail, k - 1, sizes, th));
                }
            }
        } else {
            if draw_ok(seed, obs, 0, sizes, th) {
                assert(!spec_matches_from(s2, tail, sizes, th));
                let bad = choose|k: int| 0 <= k < tail.len()
                    && !draw_ok(s2, tail, k, sizes, th);
                assert(!draw_ok(seed, obs, bad + 1, sizes, th));
            }
        }
    }
}

/// Soundness of rejection: a rejected seed has a first divergent draw.
/// Returns an index `k` such that replaying the generator for the seed
/// diverges from the expected tier or slot at draw `k`, while every earlier
/// draw agrees.
pub proof fn lemma_rejection_has_first_divergence(
    seed: u32,
    obs: Seq<SlotObservation>,
    sizes: TierSizes,
    th: ProbabilityThresholds,
) -> (k: int)
    requires
        !spec_matches(seed, obs, sizes, th),
    ensures
        0 <= k < obs.len(),
        !draw_ok(seed, obs, k, sizes, th),
        forall|j: int| 0 <= j < k ==> draw_ok(seed, obs, j, sizes, th),
{
    lemma_matches_iff_all_draws(seed, obs, sizes, th);
    lemma_first_bad_draw(seed, obs, sizes, th, 0)
}

/// Walk forward to the first failing draw, given that one exists at or past
/// position `m`.
proof fn lemma_first_bad_draw(
    seed: u32,
    obs: Seq<SlotObservation>,
    sizes: TierSizes,
    th: ProbabilityThresholds,
    m: int,
) -> (k: int)
    requires
        0 <= m,
        exists|k: int| m <= k < obs.len() && !draw_ok(seed, obs, k, sizes, th),
        forall|j: int| 0 <= j < m ==> draw_ok(seed, obs, j, sizes, th),
    ensures
        m <= k < obs.len(),
        !draw_ok(seed, obs, k, sizes, th),
        forall|j: int| 0 <= j < k ==> draw_ok(seed, obs, j, sizes, th),
    decreases obs.len() - m,
{
    if draw_ok(seed, obs, m, sizes, th) {
        lemma_first_bad_draw(seed, obs, sizes, th, m + 1)
    } else {
        m
    }
}

/// Advancing the replay one draw advances the state before the last draw.
pub proof fn lemma_state_before_step(seed: u32, k: nat)
    ensures
        state_before(seed, k + 1) == spec_step2(state_before(seed, k)),
    decreases k,
{
    assert(state_before(seed, k + 1) == state_before(spec_step2(seed), k));
    if k > 0 {
        lemma_state_before_step(spec_step2(seed), (k - 1) as nat);
        assert(state_before(seed, k) == state_before(spec_step2(seed), (k - 1) as nat));
    }
}

/// The observation draw `k` of a replay from `seed` produces: the tier its
/// probability roll implies, and the slot rolled in that tier's roster.
pub open spec fn synth_observation(
    seed: u32,
    k: nat,
    sizes: TierSizes,
    th: ProbabilityThresholds,
) -> SlotObservation {
    let s1 = spec_step(state_before(seed, k));
    let s2 = spec_step(s1);
    let tier = implied_tier(s1 % 10000, th);
    SlotObservation { tier, slot: Some(s2 % sizes.spec_size_of(tier)) }
}

/// The observation sequence a replay from `seed` produces over `n` draws.
pub open spec fn spec_synthesize(
    seed: u32,
    n: nat,
    sizes: TierSizes,
    th: ProbabilityThresholds,
) -> Seq<SlotObservation> {
    Seq::new(n, |k: int| synth_observation(seed, k as nat, sizes, th))
}

/// Replay the generator from `seed` and record the observation sequence it
/// produces over `draws` draws.
pub fn synthesize_observations(
    seed: u32,
    draws: usize,
    sizes: &TierSizes,
    thresholds: &ProbabilityThresholds,
) -> (r: Vec<SlotObservation>)
    requires
        sizes.all_positive(),
    ensures
        r@ == spec_synthesize(seed, draws as nat, *sizes, *thresholds),
{
    let mut out: Vec<SlotObservation> = Vec::new();
    let mut state: u32 = seed;
    let mut j: usize = 0;
    while j < draws
        invariant
            0 <= j <= draws,
            sizes.all_positive(),
            state == state_before(seed, j as nat),
            out@ == spec_synthesize(seed, j as nat, *sizes, *thresholds),
        decreases draws - j,
    {
        let s1 = next_state(state);
        let s2 = next_state(s1);
        let tier = implied_tier_of(s1 % 10000, thresholds);
        let size = sizes.size_of(tier);
        let o = SlotObservation { tier, slot: Some(s2 % size) };
        proof {
            assert(o == synth_observation(seed, j as nat, *sizes, *thresholds));
            lemma_state_before_step(seed, j as nat);
            assert(spec_synthesize(seed, (j + 1) as nat, *sizes, *thresholds)
                =~= spec_synthesize(seed, j as nat, *sizes, *thresholds).push(o));
        }
        out.push(o);
        state = s2;
        j += 1;
    }
    out
}

/// Self-consistency of the replay model: the observation sequence
/// synthesized from a seed is valid for the same roster sizes, and the
/// matcher accepts that seed against it.
pub proof fn lemma_replay_self_consistent(
    seed: u32,
    n: nat,
    sizes: TierSizes,
    th: ProbabilityThresholds,
)
    requires
        sizes.all_positive(),
        n >= 1,
    ensures
        observations_valid(spec_synthesize(seed, n, sizes, th), sizes),
        spec_matches(seed, spec_synthesize(seed, n, sizes, th), sizes, th),
{
    let obs = spec_synthesize(seed, n, sizes, th);
    assert forall|i: int| 0 <= i < obs.len() implies observation_wf(#[trigger] obs[i], sizes) by {
        let o = synth_observation(seed, i as nat, sizes, th);
        let s1 = spec_step(state_before(seed, i as nat));
        assert(!(implied_tier(s1 % 10000, th) is Blank));
    }
    lemma_matches_iff_all_draws(seed, obs, sizes, th);
    assert forall|k: int| 0 <= k < obs.len() implies draw_ok(seed, obs, k, sizes, th) by {
        let s1 = spec_step(state_before(seed, k as nat));
        assert(obs[k] == synth_observation(seed, k as nat, sizes, th));
        assert(!(implied_tier(s1 % 10000, th) is Blank));
    }
}

} // verus!
