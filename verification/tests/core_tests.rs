use gatya_seed::collision::is_collisions;
use gatya_seed::matcher::synthesize_observations;
use gatya_seed::model::{
    rarities_to_observations, thresholds_from_rates, validate_config, ConfigError,
    ProbabilityThresholds, RarityTier, SlotObservation, TierSizes,
};
use gatya_seed::prng::next_state;
use gatya_seed::search::{find_seed_range, seed_ranges};

fn xorshift(mut x: u32) -> u32 {
    x ^= x << 13;
    x ^= x >> 17;
    x ^= x << 15;
    x
}

fn sizes_3211() -> TierSizes {
    TierSizes { rare: 3, super_rare: 2, uber_rare: 1, legend_rare: 1 }
}

fn thresholds_9000() -> ProbabilityThresholds {
    thresholds_from_rates(900, 90, 10).unwrap()
}

fn rare(slot: u32) -> SlotObservation {
    SlotObservation { tier: RarityTier::Rare, slot: Some(slot) }
}

#[test]
fn stepper_matches_direct_simulation() {
    let mut expected: u32 = 12345;
    let mut got: u32 = 12345;
    for _ in 0..100 {
        expected = xorshift(expected);
        got = next_state(got);
        assert_eq!(got, expected);
    }
}

#[test]
fn stepper_zero_is_fixed_point() {
    assert_eq!(next_state(0), 0);
}

#[test]
fn thresholds_from_worked_example() {
    let th = thresholds_from_rates(900, 90, 10).unwrap();
    assert_eq!(th.super_rare_boundary, 9000);
    assert_eq!(th.uber_boundary, 9900);
    assert_eq!(th.legend_boundary, 9990);
}

#[test]
fn thresholds_reject_bad_rates() {
    assert!(thresholds_from_rates(0, 90, 10).is_none());
    assert!(thresholds_from_rates(900, 0, 10).is_none());
    assert!(thresholds_from_rates(900, 90, 0).is_none());
    assert!(thresholds_from_rates(9000, 900, 200).is_none());
}

#[test]
fn matcher_is_deterministic() {
    let sizes = sizes_3211();
    let th = thresholds_9000();
    let obs = vec![rare(1), rare(2)];
    for seed in 1..2000u32 {
        let first = gatya_seed::matcher::matches(seed, &obs, &sizes, &th);
        let second = gatya_seed::matcher::matches(seed, &obs, &sizes, &th);
        assert_eq!(first, second);
    }
}

#[test]
fn worked_example_golden_fixture() {
    let sizes = sizes_3211();
    let th = thresholds_9000();
    let obs = vec![rare(1)];
    let got = find_seed_range(&obs, &sizes, &th, 1, 100_000);

    let mut expected: Vec<u32> = Vec::new();
    for seed in 1..=100_000u32 {
        let s1 = xorshift(seed);
        let s2 = xorshift(s1);
        if s1 % 10_000 < 9_000 && s2 % 3 == 1 {
            expected.push(seed);
        }
    }
    assert!(!expected.is_empty());
    assert_eq!(got, expected);
}

#[test]
fn blank_observation_never_rejects_a_draw() {
    let sizes = sizes_3211();
    let th = thresholds_9000();
    let blank = SlotObservation { tier: RarityTier::Blank, slot: None };
    let obs = vec![blank];
    let hits = find_seed_range(&obs, &sizes, &th, 1, 500);
    let all: Vec<u32> = (1..=500).collect();
    assert_eq!(hits, all);
}

#[test]
fn rarity_only_observation_checks_tier_alone() {
    let sizes = sizes_3211();
    let th = thresholds_9000();
    let tier_only = SlotObservation { tier: RarityTier::Rare, slot: None };
    let got = find_seed_range(&vec![tier_only], &sizes, &th, 1, 20_000);

    let mut expected: Vec<u32> = Vec::new();
    for seed in 1..=20_000u32 {
        if xorshift(seed) % 10_000 < 9_000 {
            expected.push(seed);
        }
    }
    assert_eq!(got, expected);
}

#[test]
fn partitioned_scan_equals_single_scan() {
    let sizes = sizes_3211();
    let th = thresholds_9000();
    let obs = vec![rare(0), rare(1)];
    let lo: u32 = 1;
    let hi: u32 = 300_000;
    let single = find_seed_range(&obs, &sizes, &th, lo, hi);
    for workers in [2u32, 8] {
        let step = (hi - lo + 1) / workers;
        let mut merged: Vec<u32> = Vec::new();
        for w in 0..workers {
            let start = lo + w * step;
            let end = if w == workers - 1 { hi } else { lo + (w + 1) * step - 1 };
            merged.extend(find_seed_range(&obs, &sizes, &th, start, end));
        }
        assert_eq!(merged, single);
    }
}

#[test]
fn seed_ranges_cover_the_domain_contiguously() {
    for workers in [1u32, 2, 8, 7] {
        let ranges = seed_ranges(workers);
        assert_eq!(ranges.len(), workers as usize);
        assert_eq!(ranges[0].0, 1);
        assert_eq!(ranges[ranges.len() - 1].1, u32::MAX);
        for w in 0..ranges.len() {
            assert!(ranges[w].0 <= ranges[w].1);
            if w + 1 < ranges.len() {
                assert_eq!(ranges[w + 1].0, ranges[w].1 + 1);
            }
        }
    }
}

#[test]
fn synthesized_sequence_recovers_its_seed() {
    let sizes = sizes_3211();
    let th = thresholds_9000();
    let seed: u32 = 123_456;
    let obs = synthesize_observations(seed, 6, &sizes, &th);
    assert_eq!(obs.len(), 6);
    assert!(gatya_seed::matcher::matches(seed, &obs, &sizes, &th));
    let hits = find_seed_range(&obs, &sizes, &th, 123_450, 123_460);
    assert!(hits.contains(&seed));
}

#[test]
fn synthesized_draws_follow_the_replay() {
    let sizes = sizes_3211();
    let th = thresholds_9000();
    let seed: u32 = 777;
    let obs = synthesize_observations(seed, 3, &sizes, &th);
    let mut state = seed;
    for o in &obs {
        state = xorshift(state);
        let prob = state % 10_000;
        let tier = if prob < 9_000 {
            RarityTier::Rare
        } else if prob < 9_900 {
            RarityTier::SuperRare
        } else if prob < 9_990 {
            RarityTier::UberRare
        } else {
            RarityTier::LegendRare
        };
        assert_eq!(o.tier, tier);
        let size = match tier {
            RarityTier::Rare => 3,
            RarityTier::SuperRare => 2,
            _ => 1,
        };
        state = xorshift(state);
        assert_eq!(o.slot, Some(state % size));
    }
}

#[test]
fn rejected_seed_diverges_at_a_first_draw() {
    let sizes = sizes_3211();
    let th = thresholds_9000();
    let obs = vec![rare(0), rare(1), rare(2)];
    let mut rejected = 0;
    for seed in 1..2_000u32 {
        if gatya_seed::matcher::matches(seed, &obs, &sizes, &th) {
            continue;
        }
        rejected += 1;
        // Replay and find the first draw whose tier or slot diverges.
        let mut state = seed;
        let mut first_bad: Option<usize> = None;
        for (k, o) in obs.iter().enumerate() {
            let s1 = xorshift(state);
            let s2 = xorshift(s1);
            let tier_ok = s1 % 10_000 < 9_000;
            let slot_ok = o.slot == Some(s2 % 3);
            if !(tier_ok && slot_ok) {
                first_bad = Some(k);
                break;
            }
            state = s2;
        }
        // Every earlier draw agreed: the loop above broke at the first one.
        let k = first_bad.expect("a rejected seed must diverge at some draw");
        assert!(k < obs.len());
    }
    assert!(rejected > 0);
}

#[test]
fn collision_flags_consecutive_rare_slots() {
    let obs = vec![rare(0), rare(1)];
    assert!(is_collisions(&obs, 3));
}

#[test]
fn collision_ignores_non_consecutive_rare_slots() {
    let obs = vec![rare(0), rare(2)];
    assert!(!is_collisions(&obs, 3));
}

#[test]
fn collision_flags_wraparound_pair() {
    let obs = vec![rare(2), rare(0)];
    assert!(is_collisions(&obs, 3));
}

#[test]
fn collision_needs_adjacent_rare_pair() {
    let sr = SlotObservation { tier: RarityTier::SuperRare, slot: Some(0) };
    let obs = vec![rare(0), sr, rare(1)];
    assert!(!is_collisions(&obs, 3));
}

#[test]
fn validate_config_accepts_good_input() {
    let obs = vec![rare(0)];
    assert_eq!(validate_config(&obs, &sizes_3211(), &thresholds_9000()), Ok(()));
}

#[test]
fn validate_config_rejects_empty_observations() {
    let obs: Vec<SlotObservation> = Vec::new();
    assert_eq!(
        validate_config(&obs, &sizes_3211(), &thresholds_9000()),
        Err(ConfigError::EmptyObservations)
    );
}

#[test]
fn validate_config_rejects_empty_referenced_roster() {
    let sizes = TierSizes { rare: 0, super_rare: 2, uber_rare: 1, legend_rare: 1 };
    let obs = vec![rare(0)];
    assert_eq!(
        validate_config(&obs, &sizes, &thresholds_9000()),
        Err(ConfigError::ZeroTierSize)
    );
}

#[test]
fn validate_config_rejects_flat_thresholds() {
    let th = ProbabilityThresholds {
        super_rare_boundary: 9000,
        uber_boundary: 9000,
        legend_boundary: 9990,
    };
    let obs = vec![rare(0)];
    assert_eq!(
        validate_config(&obs, &sizes_3211(), &th),
        Err(ConfigError::ThresholdsNotIncreasing)
    );
}

#[test]
fn rarity_codes_become_tier_only_observations() {
    let obs = rarities_to_observations(&vec![1, 3, -2, 4]).unwrap();
    assert_eq!(obs.len(), 4);
    assert_eq!(obs[0].tier, RarityTier::Rare);
    assert_eq!(obs[1].tier, RarityTier::UberRare);
    assert_eq!(obs[2].tier, RarityTier::Blank);
    assert_eq!(obs[3].tier, RarityTier::LegendRare);
    for o in &obs {
        assert_eq!(o.slot, None);
    }
}

#[test]
fn invalid_rarity_codes_are_rejected() {
    assert!(rarities_to_observations(&vec![1, 5]).is_none());
    assert!(rarities_to_observations(&vec![0]).is_none());
    assert!(rarities_to_observations(&vec![-3]).is_none());
}
