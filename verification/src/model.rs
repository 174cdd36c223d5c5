//! Value types describing a banner: rarity tiers, per-tier roster sizes,
//! probability boundaries, and the observed draws to be matched.

use vstd::prelude::*;

verus! {

/// The sentinel a user types for a blank (non-cat) draw outcome.
pub const BLANK_SLOT_USER: i32 = -2;

/// The four concrete draw rarities, plus the `Blank` placeholder: a known
/// non-cat outcome whose tier and slot are left unconstrained by the matcher.
#[derive(Clone, Copy, Debug, PartialEq, Eq, Structural)]
pub enum RarityTier {
    Rare,
    SuperRare,
    UberRare,
    LegendRare,
    Blank,
}

/// Number of distinct cat identities available per concrete tier for the
/// banner under analysis.
#[derive(Clone, Copy, Debug, PartialEq, Eq, Structural)]
pub struct TierSizes {
    pub rare: u32,
    pub super_rare: u32,
    pub uber_rare: u32,
    pub legend_rare: u32,
}

impl TierSizes {
    /// The roster size a draw of the given tier rolls against; a `Blank`
    /// draw rolls modulo 1.
    pub open spec fn spec_size_of(self, tier: RarityTier) -> u32 {
        match tier {
            RarityTier::Rare => self.rare,
            RarityTier::SuperRare => self.super_rare,
            RarityTier::UberRare => self.uber_rare,
            RarityTier::LegendRare => self.legend_rare,
            RarityTier::Blank => 1,
        }
    }

    /// All four concrete rosters are non-empty.
    pub open spec fn all_positive(self) -> bool {
        self.rare >= 1 && self.super_rare >= 1 && self.uber_rare >= 1 && self.legend_rare >= 1
    }

    pub fn size_of(&self, tier: RarityTier) -> (r: u32)
        ensures
            r == self.spec_size_of(tier),
    {
        match tier {
            RarityTier::Rare => self.rare,
            RarityTier::SuperRare => self.super_rare,
            RarityTier::UberRare => self.uber_rare,
            RarityTier::LegendRare => self.legend_rare,
            RarityTier::Blank => 1,
        }
    }
}

/// Probability cutoffs in `[0, 10000)` separating the tiers in the first
/// roll's outcome space: a roll below `super_rare_boundary` is Rare, below
/// `uber_boundary` SuperRare, below `legend_boundary` UberRare, else
/// LegendRare.
#[derive(Clone, Copy, Debug, PartialEq, Eq, Structural)]
pub struct ProbabilityThresholds {
    pub super_rare_boundary: u32,
    pub uber_boundary: u32,
    pub legend_boundary: u32,
}

impl ProbabilityThresholds {
    /// The boundaries a valid banner yields: strictly increasing, below the
    /// roll modulus.
    pub open spec fn wf(self) -> bool {
        self.super_rare_boundary < self.uber_boundary < self.legend_boundary < 10000
    }
}

/// One observed draw. `slot` is `None` for a `Blank` outcome and for a
/// rarity-only observation (tier known, exact cat unknown), and `Some` with
/// the cat's index in its tier's roster otherwise.
#[derive(Clone, Copy, Debug)]
pub struct SlotObservation {
    pub tier: RarityTier,
    pub slot: Option<u32>,
}

/// The roster a non-blank observation refers to is non-empty, so its slot
/// roll's modulus is defined.
pub open spec fn observation_wf(o: SlotObservation, sizes: TierSizes) -> bool {
    o.tier is Blank || sizes.spec_size_of(o.tier) >= 1
}

/// What the matcher and the scanners require of their inputs: at least one
/// observation, and no observation referring to an empty roster.
pub open spec fn observations_valid(obs: Seq<SlotObservation>, sizes: TierSizes) -> bool {
    &&& obs.len() >= 1
    &&& forall|i: int| 0 <= i < obs.len() ==> observation_wf(#[trigger] obs[i], sizes)
}

/// A fatal configuration fault, reported before any search starts.
#[derive(Clone, Copy, Debug, PartialEq, Eq, Structural)]
pub enum ConfigError {
    EmptyObservations,
    ZeroTierSize,
    ThresholdsNotIncreasing,
}

/// The verdict `validate_config` returns: the first fault in the order
/// empty sequence, empty referenced roster, bad thresholds.
pub open spec fn spec_validate_config(
    obs: Seq<SlotObservation>,
    sizes: TierSizes,
    th: ProbabilityThresholds,
) -> Result<(), ConfigError> {
    if obs.len() == 0 {
        Err(ConfigError::EmptyObservations)
    } else if exists|i: int| 0 <= i < obs.len() && !observation_wf(#[trigger] obs[i], sizes) {
        Err(ConfigError::ZeroTierSize)
    } else if !th.wf() {
        Err(ConfigError::ThresholdsNotIncreasing)
    } else {
        Ok(())
    }
}

/// Check a search configuration, returning the first fault if any: an empty
/// observation sequence, an observation whose tier has an empty roster, or
/// boundaries that are not strictly increasing below 10000.
pub fn validate_config(
    observations: &Vec<SlotObservation>,
    sizes: &TierSizes,
    thresholds: &ProbabilityThresholds,
) -> (r: Result<(), ConfigError>)
    ensures
        r == spec_validate_config(observations@, *sizes, *thresholds),
        r is Ok ==> observations_valid(observations@, *sizes) && thresholds.wf(),
{
    if observations.len() == 0 {
        return Err(ConfigError::EmptyObservations);
    }
    let mut i: usize = 0;
    while i < observations.len()
        invariant
            0 <= i <= observations@.len(),
            forall|j: int| 0 <= j < i ==> observation_wf(#[trigger] observations@[j], *sizes),
        decreases observations@.len() - i,
    {
        let o = observations[i];
        let blank = match o.tier {
            RarityTier::Blank => true,
            _ => false,
        };
        if !blank && sizes.size_of(o.tier) == 0 {
            return Err(ConfigError::ZeroTierSize);
        }
        i += 1;
    }
    if !(thresholds.super_rare_boundary < thresholds.uber_boundary
        && thresholds.uber_boundary < thresholds.legend_boundary
        && thresholds.legend_boundary < 10000) {
        return Err(ConfigError::ThresholdsNotIncreasing);
    }
    Ok(())
}

/// The boundaries a banner's raw per-tier percentage weights (in units of
/// 0.01%) yield, when they describe a valid banner: each boundary is 10000
/// minus the weights of that tier and all higher tiers.
pub open spec fn spec_thresholds_from_rates(
    super_rare_rate: u32,
    uber_rare_rate: u32,
    legend_rare_rate: u32,
) -> Option<ProbabilityThresholds> {
    if super_rare_rate >= 1 && uber_rare_rate >= 1 && legend_rare_rate >= 1
        && super_rare_rate + uber_rare_rate + legend_rare_rate <= 10000 {
        Some(ProbabilityThresholds {
            super_rare_boundary: (10000 - super_rare_rate - uber_rare_rate
                - legend_rare_rate) as u32,
            uber_boundary: (10000 - uber_rare_rate - legend_rare_rate) as u32,
            legend_boundary: (10000 - legend_rare_rate) as u32,
        })
    } else {
        None
    }
}

/// Derive the probability boundaries from a banner's raw SuperRare, UberRare
/// and LegendRare percentage weights. `None` when the weights cannot form
/// strictly increasing boundaries: a zero weight, or weights summing past
/// 10000.
pub fn thresholds_from_rates(
    super_rare_rate: u32,
    uber_rare_rate: u32,
    legend_rare_rate: u32,
) -> (r: Option<ProbabilityThresholds>)
    ensures
        r == spec_thresholds_from_rates(super_rare_rate, uber_rare_rate, legend_rare_rate),
        r matches Some(t) ==> t.wf(),
{
    if super_rare_rate >= 1 && uber_rare_rate >= 1 && legend_rare_rate >= 1
        && super_rare_rate <= 10000 && uber_rare_rate <= 10000 && legend_rare_rate <= 10000
        && super_rare_rate + uber_rare_rate + legend_rare_rate <= 10000 {
        let legend_boundary = 10000 - legend_rare_rate;
        let uber_boundary = legend_boundary - uber_rare_rate;
        let super_rare_boundary = uber_boundary - super_rare_rate;
        Some(ProbabilityThresholds { super_rare_boundary, uber_boundary, legend_boundary })
    } else {
        None
    }
}

/// The tier a roster row index (0 Rare, 1 SuperRare, 2 UberRare,
/// 3 LegendRare) stands for.
pub open spec fn spec_tier_from_row(row: int) -> RarityTier {
    if row == 0 {
        RarityTier::Rare
    } else if row == 1 {
        RarityTier::SuperRare
    } else if row == 2 {
        RarityTier::UberRare
    } else {
        RarityTier::LegendRare
    }
}

/// What a user-typed rarity code stands for: 1 to 4 name the concrete tiers,
/// `BLANK_SLOT_USER` a blank draw; anything else is invalid.
pub open spec fn spec_rarity_observation(code: i32) -> Option<SlotObservation> {
    if code == BLANK_SLOT_USER {
        Some(SlotObservation { tier: RarityTier::Blank, slot: None })
    } else if 1 <= code <= 4 {
        Some(SlotObservation { tier: spec_tier_from_row(code - 1), slot: None })
    } else {
        None
    }
}

/// Turn user-typed rarity codes into rarity-only observations (tier known,
/// slot unconstrained). `None` as soon as one code is neither a concrete
/// rarity (1 to 4) nor the blank sentinel.
pub fn rarities_to_observations(rarities: &Vec<i32>) -> (r: Option<Vec<SlotObservation>>)
    ensures
        r is Some <==> (forall|i: int| 0 <= i < rarities@.len()
            ==> spec_rarity_observation(#[trigger] rarities@[i]) is Some),
        r matches Some(v) ==> {
            &&& v@.len() == rarities@.len()
            &&& forall|i: int| 0 <= i < rarities@.len()
                ==> Some(#[trigger] v@[i]) == spec_rarity_observation(rarities@[i])
        },
{
    let mut out: Vec<SlotObservation> = Vec::new();
    let mut i: usize = 0;
    while i < rarities.len()
        invariant
            0 <= i <= rarities@.len(),
            out@.len() == i,
            forall|j: int| 0 <= j < i
                ==> spec_rarity_observation(#[trigger] rarities@[j]) is Some,
            forall|j: int| 0 <= j < i
                ==> Some(#[trigger] out@[j]) == spec_rarity_observation(rarities@[j]),
        decreases rarities@.len() - i,
    {
        let code = rarities[i];
        if code == BLANK_SLOT_USER {
            out.push(SlotObservation { tier: RarityTier::Blank, slot: None });
        } else if 1 <= code && code <= 4 {
            let tier = if code == 1 {
                RarityTier::Rare
            } else if code == 2 {
                RarityTier::SuperRare
            } else if code == 3 {
                RarityTier::UberRare
            } else {
                RarityTier::LegendRare
            };
            out.push(SlotObservation { tier, slot: None });
        } else {
            return None;
        }
        i += 1;
    }
    Some(out)
}

} // verus!
