//! Filter evaluation result types.

use vstd::prelude::*;

verus! {

/// The result of evaluating a spot against the filter configuration.
#[derive(Debug, Clone, Copy, PartialEq, Eq, Structural)]
pub enum FilterDecision {
    Allow,
    Drop(FilterDropReason),
}

/// The specific reason a spot was filtered out.
#[derive(Debug, Clone, Copy, PartialEq, Eq, Structural)]
pub enum FilterDropReason {
    TooOld,
    FreqOutOfRange,
    BandDenied,
    ModeDenied,
    ProfileNoMatch,
    FreqDenied,
    FreqNotAllowed,
    DxCallDenied,
    DxCallNotAllowed,
    SpotterDenied,
    SpotterNotAllowed,
    OriginatorKindDenied,
    CommentDenied,
    CommentNotAllowed,
    CqRequired,
    SplitQsySuppressed,
    CorrelationNotMet,
    SkimmerMetricNotMet,
    GeoNotMet,
    EnrichmentNotMet,
    UnknownFieldFailed,
}

} // verus!
