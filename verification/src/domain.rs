//! Closed vocabularies of the spot feed: bands, modes, continents and policies.

use vstd::prelude::*;

verus! {

/// Amateur radio frequency bands.
#[derive(Debug, Clone, Copy, PartialEq, Eq, PartialOrd, Ord, Hash, Structural)]
pub enum Band {
    B160,
    B80,
    B60,
    B40,
    B30,
    B20,
    B17,
    B15,
    B12,
    B10,
    B6,
    B2,
    Unknown,
}

/// Operating modes.
#[derive(Debug, Clone, Copy, PartialEq, Eq, PartialOrd, Ord, Hash, Structural)]
pub enum DxMode {
    CW,
    SSB,
    DIG,
    AM,
    FM,
    Unknown,
}

/// ITU continents.
#[derive(Debug, Clone, Copy, PartialEq, Eq, PartialOrd, Ord, Hash, Structural)]
pub enum Continent {
    AF,
    AN,
    AS,
    EU,
    NA,
    OC,
    SA,
    Unknown,
}

/// Whether a spot originator is a human operator or automated skimmer.
#[derive(Debug, Clone, Copy, PartialEq, Eq, PartialOrd, Ord, Hash, Structural)]
pub enum OriginatorKind {
    Human,
    Skimmer,
    Unknown,
}

/// Policy for handling unknown/missing fields during filter evaluation.
#[derive(Debug, Clone, Copy, PartialEq, Eq, PartialOrd, Ord, Hash, Structural)]
pub enum UnknownFieldPolicy {
    /// Denylists let an unknown field through, allowlists refuse it.
    Neutral,
    /// An unknown field drops the spot, whichever list asked for it.
    FailClosed,
    /// An unknown field passes, whichever list asked for it.
    FailOpen,
}

/// Three-state filter requirement for boolean enrichment flags.
#[derive(Debug, Clone, Copy, PartialEq, Eq, PartialOrd, Ord, Hash, Structural)]
pub enum TriState {
    Any,
    RequireTrue,
    RequireFalse,
}

/// Policy for handling portable suffixes (e.g., /P, /M, /QRP) on callsigns.
#[derive(Debug, Clone, Copy, PartialEq, Eq, PartialOrd, Ord, Hash, Structural)]
pub enum PortablePolicy {
    KeepAsIs,
    StripCommonSuffixes,
    StripAllAfterSlash,
}

/// Policy for determining operating mode from spot data.
#[derive(Debug, Clone, Copy, PartialEq, Eq, PartialOrd, Ord, Hash, Structural)]
pub enum ModePolicy {
    /// Trust whatever mode the upstream cluster/skimmer reports.
    TrustUpstream,
    /// Ignore upstream mode, infer from frequency using band plan.
    InferFromFrequency,
    /// Use upstream mode if present, otherwise infer from frequency.
    PreferUpstreamFallbackInfer,
}

impl Default for UnknownFieldPolicy {
    fn default() -> (r: Self)
        ensures
            r == UnknownFieldPolicy::Neutral,
    {
        UnknownFieldPolicy::Neutral
    }
}

impl Default for TriState {
    fn default() -> (r: Self)
        ensures
            r == TriState::Any,
    {
        TriState::Any
    }
}

impl Default for PortablePolicy {
    fn default() -> (r: Self)
        ensures
            r == PortablePolicy::KeepAsIs,
    {
        PortablePolicy::KeepAsIs
    }
}

impl Default for ModePolicy {
    fn default() -> (r: Self)
        ensures
            r == ModePolicy::PreferUpstreamFallbackInfer,
    {
        ModePolicy::PreferUpstreamFallbackInfer
    }
}

} // verus!
