//! Configuration for the skimmer quality engine.

use crate::time::Duration;
use vstd::prelude::*;

verus! {

/// Configuration for skimmer quality classification and gating.
///
/// Based on CT1BOH/AR-Cluster-style skimmer quality logic.
#[derive(Debug, Clone, Copy, PartialEq, Eq, Structural)]
pub struct SkimmerQualityConfig {
    /// Master enable/disable for the quality engine.
    pub enabled: bool,
    // Individually controllable computations
    pub compute_valid: bool,
    pub compute_busted: bool,
    pub compute_qsy: bool,
    // Gating policy (what tags are allowed to be emitted)
    pub gate_skimmer_output: bool,
    pub allow_valid: bool,
    pub allow_qsy: bool,
    pub allow_unknown: bool,
    pub allow_busted: bool,
    // SkimValid parameters
    /// Number of distinct skimmers required to corroborate a spot.
    pub valid_required_distinct_skimmers: u8,
    /// Frequency window (Hz) within which skimmer reports are considered corroborating.
    pub valid_freq_window_hz: i64,
    /// Time window for counting corroborations.
    pub lookback_window: Duration,
    // SkimBusted parameters
    /// Frequency window (Hz) for busted-call detection.
    pub busted_freq_window_hz: i64,
    /// Maximum Levenshtein edit distance for busted-call similarity.
    pub similar_call_max_edit_distance: u8,
    // SkimQsy parameters
    /// Frequency difference (Hz) beyond which a verified call is considered QSY.
    pub qsy_freq_window_hz: i64,
    /// Only apply skimmer quality gating to skimmer-originated spots.
    pub apply_only_to_skimmer: bool,
    /// Hard cap on total tracked observations to prevent unbounded memory.
    pub max_tracked_observations: usize,
}

impl SkimmerQualityConfig {
    /// Everything on; three skimmers within 300 Hz and three minutes corroborate.
    pub open spec fn is_default(&self) -> bool {
        &&& self.enabled
        &&& self.compute_valid
        &&& self.compute_busted
        &&& self.compute_qsy
        &&& self.gate_skimmer_output
        &&& self.allow_valid
        &&& !self.allow_qsy
        &&& !self.allow_unknown
        &&& !self.allow_busted
        &&& self.valid_required_distinct_skimmers == 3
        &&& self.valid_freq_window_hz == 300
        &&& self.lookback_window@ == 180 * 1_000_000_000
        &&& self.busted_freq_window_hz == 100
        &&& self.similar_call_max_edit_distance == 1
        &&& self.qsy_freq_window_hz == 400
        &&& self.apply_only_to_skimmer
        &&& self.max_tracked_observations == 100_000
    }
}

impl Default for SkimmerQualityConfig {
    fn default() -> (r: Self)
        ensures
            r.is_default(),
    {
        SkimmerQualityConfig {
            enabled: true,
            compute_valid: true,
            compute_busted: true,
            compute_qsy: true,
            gate_skimmer_output: true,
            allow_valid: true,
            allow_qsy: false,
            allow_unknown: false,
            allow_busted: false,
            valid_required_distinct_skimmers: 3,
            valid_freq_window_hz: 300,
            lookback_window: Duration::from_secs(180),
            busted_freq_window_hz: 100,
            similar_call_max_edit_distance: 1,
            qsy_freq_window_hz: 400,
            apply_only_to_skimmer: true,
            max_tracked_observations: 100_000,
        }
    }
}

} // verus!
