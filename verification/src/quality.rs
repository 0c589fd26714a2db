//! Quality tiers of entropy sources. The tier a source earns is decided from
//! floating-point min-entropy estimates by the application's quality tracker;
//! the tiers themselves and their names live here.
use vstd::prelude::*;

verus! {

/// Quality tier of an entropy source.
#[derive(Debug, Clone, Copy, PartialEq, Eq, Structural)]
pub enum QualityTier {
    Excellent,
    Adequate,
    Degraded,
    Failed,
    Unknown,
}

/// Lower-case name of a tier, as reports show it.
pub open spec fn tier_label(t: QualityTier) -> Seq<char> {
    match t {
        QualityTier::Excellent => "excellent"@,
        QualityTier::Adequate => "adequate"@,
        QualityTier::Degraded => "degraded"@,
        QualityTier::Failed => "failed"@,
        QualityTier::Unknown => "unknown"@,
    }
}

impl QualityTier {
    /// Lower-case name of the tier.
    pub fn label(&self) -> (s: &'static str)
        ensures
            s@ == tier_label(*self),
    {
        match self {
            QualityTier::Excellent => "excellent",
            QualityTier::Adequate => "adequate",
            QualityTier::Degraded => "degraded",
            QualityTier::Failed => "failed",
            QualityTier::Unknown => "unknown",
        }
    }
}

} // verus!
