//! Events in the life of a silkworm brood.

use crate::date::Date;
use vstd::prelude::*;

verus! {

/// What happened to the silkworms, and when.
#[derive(Debug, PartialEq, Eq, Structural, Clone, Copy)]
pub enum SilkWormEvents {
    Hatched(Date),
}

/// The wire tag of each `SilkWormEvents` variant.
pub open spec fn spec_silkworm_tag(v: SilkWormEvents) -> u8 {
    match v {
        SilkWormEvents::Hatched(_) => 0,
    }
}

impl SilkWormEvents {
    pub fn tag(&self) -> (r: u8)
        ensures
            r == spec_silkworm_tag(*self),
    {
        match self {
            SilkWormEvents::Hatched(_) => 0,
        }
    }
}

} // verus!
