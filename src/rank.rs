use vstd::prelude::*;

use crate::table::TableKey;

verus! {

/// The eight rank tiers, in ascending order.
#[derive(Clone, Copy, Debug, PartialEq, Eq, Structural)]
pub enum Tier {
    Archangel,
    Principality,
    Power,
    Virtue,
    Dominion,
    Throne,
    Cherubim,
    Seraphim,
}

impl TableKey for Tier {
    fn same(&self, other: &Self) -> (r: bool) {
        *self == *other
    }
}

/// The tier that a victory count unlocks: only the exact thresholds
/// 4, 8, 16, ..., 512 unlock one.
pub open spec fn tier_at(victories: int) -> Option<Tier> {
    if victories == 4 {
        Some(Tier::Archangel)
    } else if victories == 8 {
        Some(Tier::Principality)
    } else if victories == 16 {
        Some(Tier::Power)
    } else if victories == 32 {
        Some(Tier::Virtue)
    } else if victories == 64 {
        Some(Tier::Dominion)
    } else if victories == 128 {
        Some(Tier::Throne)
    } else if victories == 256 {
        Some(Tier::Cherubim)
    } else if victories == 512 {
        Some(Tier::Seraphim)
    } else {
        None
    }
}

/// Looks up the tier unlocked by an exact victory count.
pub fn ascension_tier(victories: u64) -> (r: Option<Tier>)
    ensures
        r == tier_at(victories as int),
{
    match victories {
        4 => Some(Tier::Archangel),
        8 => Some(Tier::Principality),
        16 => Some(Tier::Power),
        32 => Some(Tier::Virtue),
        64 => Some(Tier::Dominion),
        128 => Some(Tier::Throne),
        256 => Some(Tier::Cherubim),
        512 => Some(Tier::Seraphim),
        _ => None,
    }
}

} // verus!
