//! Frequency-to-band mapping, mode inference, and frequency bucketing.

use crate::domain::{Band, DxMode, ModePolicy};
use vstd::arithmetic::div_mod::*;
use vstd::prelude::*;

verus! {

/// Lowest and highest frequency (Hz) of a band: the widest amateur allocation
/// across the three ITU regions.
pub open spec fn band_limits(band: Band) -> Option<(u64, u64)> {
    match band {
        Band::B160 => Some((1_800_000, 2_000_000)),
        Band::B80 => Some((3_500_000, 4_000_000)),
        Band::B60 => Some((5_250_000, 5_450_000)),
        Band::B40 => Some((7_000_000, 7_300_000)),
        Band::B30 => Some((10_100_000, 10_150_000)),
        Band::B20 => Some((14_000_000, 14_350_000)),
        Band::B17 => Some((18_068_000, 18_168_000)),
        Band::B15 => Some((21_000_000, 21_450_000)),
        Band::B12 => Some((24_890_000, 24_990_000)),
        Band::B10 => Some((28_000_000, 29_700_000)),
        Band::B6 => Some((50_000_000, 54_000_000)),
        Band::B2 => Some((144_000_000, 148_000_000)),
        Band::Unknown => None,
    }
}

/// `freq_hz` lies within the limits of `band`, both edges included.
pub open spec fn in_band(band: Band, freq_hz: u64) -> bool {
    match band_limits(band) {
        Some((lo, hi)) => lo <= freq_hz <= hi,
        None => false,
    }
}

/// The band that holds `freq_hz`, `Unknown` where none does.
pub open spec fn band_at(freq_hz: u64) -> Band {
    if exists|b: Band| in_band(b, freq_hz) {
        choose|b: Band| in_band(b, freq_hz)
    } else {
        Band::Unknown
    }
}

/// The band plan: which mode a frequency inside `band` is used for.
pub open spec fn planned_mode(band: Band, freq_hz: u64) -> DxMode {
    match band {
        Band::B160 => cw_then(freq_hz, 1_843_000, DxMode::SSB, 1_843_000, DxMode::SSB),
        Band::B80 => cw_then(freq_hz, 3_570_000, DxMode::DIG, 3_600_000, DxMode::SSB),
        Band::B60 => DxMode::DIG,
        Band::B40 => cw_then(freq_hz, 7_040_000, DxMode::DIG, 7_060_000, DxMode::SSB),
        Band::B30 => cw_then(freq_hz, 10_130_000, DxMode::DIG, 10_150_000, DxMode::DIG),
        Band::B20 => cw_then(freq_hz, 14_070_000, DxMode::DIG, 14_099_000, DxMode::SSB),
        Band::B17 => cw_then(freq_hz, 18_095_000, DxMode::DIG, 18_109_000, DxMode::SSB),
        Band::B15 => cw_then(freq_hz, 21_070_000, DxMode::DIG, 21_110_000, DxMode::SSB),
        Band::B12 => cw_then(freq_hz, 24_915_000, DxMode::DIG, 24_931_000, DxMode::SSB),
        Band::B10 => cw_then(freq_hz, 28_070_000, DxMode::DIG, 28_190_000, DxMode::SSB),
        Band::B6 => cw_then(freq_hz, 50_100_000, DxMode::SSB, 50_500_000, DxMode::DIG),
        Band::B2 => cw_then(freq_hz, 144_150_000, DxMode::SSB, 144_400_000, DxMode::DIG),
        Band::Unknown => DxMode::Unknown,
    }
}

/// CW up to `cw_top`, `middle` above it up to `middle_top`, `rest` above that.
pub open spec fn cw_then(
    freq_hz: u64,
    cw_top: u64,
    middle: DxMode,
    middle_top: u64,
    rest: DxMode,
) -> DxMode {
    if freq_hz <= cw_top {
        DxMode::CW
    } else if freq_hz <= middle_top {
        middle
    } else {
        rest
    }
}

/// The mode inferred for a frequency alone.
pub open spec fn mode_at(freq_hz: u64) -> DxMode {
    planned_mode(band_at(freq_hz), freq_hz)
}

/// The mode a spot is given under `policy`.
pub open spec fn mode_under(
    freq_hz: u64,
    upstream_mode: Option<DxMode>,
    policy: ModePolicy,
) -> DxMode {
    match policy {
        ModePolicy::TrustUpstream => match upstream_mode {
            Some(m) => m,
            None => DxMode::Unknown,
        },
        ModePolicy::InferFromFrequency => mode_at(freq_hz),
        ModePolicy::PreferUpstreamFallbackInfer => match upstream_mode {
            Some(m) => if m == DxMode::Unknown { mode_at(freq_hz) } else { m },
            None => mode_at(freq_hz),
        },
    }
}

/// The bucket width used for `mode`. AM, FM and unknown modes share the SSB width.
pub open spec fn bucket_width(
    mode: DxMode,
    cw_bucket_hz: u64,
    ssb_bucket_hz: u64,
    dig_bucket_hz: u64,
) -> u64 {
    match mode {
        DxMode::CW => cw_bucket_hz,
        DxMode::DIG => dig_bucket_hz,
        _ => ssb_bucket_hz,
    }
}

/// The largest multiple of `width` that is not above `freq_hz`; `freq_hz`
/// itself where the width is zero.
pub open spec fn bucket_floor(freq_hz: u64, width: u64) -> u64 {
    if width == 0 {
        freq_hz
    } else {
        (freq_hz - freq_hz % width) as u64
    }
}

/// No frequency lies in two bands.
pub proof fn lemma_bands_disjoint(a: Band, b: Band, freq_hz: u64)
    requires
        in_band(a, freq_hz),
        in_band(b, freq_hz),
    ensures
        a == b,
{
}

/// A known band is reported exactly for the frequencies between its edges.
pub proof fn lemma_band_at_iff_in_band(band: Band, freq_hz: u64)
    requires
        band != Band::Unknown,
    ensures
        band_at(freq_hz) == band <==> in_band(band, freq_hz),
{
    if in_band(band, freq_hz) {
        lemma_bands_disjoint(band, band_at(freq_hz), freq_hz);
    }
    if exists|b: Band| in_band(b, freq_hz) {
        assert(in_band(band_at(freq_hz), freq_hz));
    }
}

/// A mode is inferred exactly where a band is known.
pub proof fn lemma_mode_known_iff_band_known(freq_hz: u64)
    ensures
        mode_at(freq_hz) == DxMode::Unknown <==> band_at(freq_hz) == Band::Unknown,
{
}

/// A bucket never lies above the frequency, and is less than one width below it.
pub proof fn lemma_bucket_bounds(freq_hz: u64, width: u64)
    requires
        width > 0,
    ensures
        bucket_floor(freq_hz, width) <= freq_hz,
        freq_hz - bucket_floor(freq_hz, width) < width,
        bucket_floor(freq_hz, width) % width == 0,
{
    lemma_fundamental_div_mod(freq_hz as int, width as int);
    lemma_mod_multiples_basic(freq_hz as int / width as int, width as int);
    assert(width as int * (freq_hz as int / width as int) == (freq_hz as int / width as int)
        * width as int) by (nonlinear_arith);
}

/// Bucketing a bucket changes nothing.
pub proof fn lemma_bucket_idempotent(freq_hz: u64, width: u64)
    ensures
        bucket_floor(bucket_floor(freq_hz, width), width) == bucket_floor(freq_hz, width),
{
    if width > 0 {
        lemma_bucket_bounds(freq_hz, width);
    }
}

/// Two frequencies share a bucket exactly when the same number of whole
/// widths fits below both.
pub proof fn lemma_same_bucket_iff(a: u64, b: u64, width: u64)
    requires
        width > 0,
    ensures
        bucket_floor(a, width) == bucket_floor(b, width) <==> a / width == b / width,
{
    lemma_fundamental_div_mod(a as int, width as int);
    lemma_fundamental_div_mod(b as int, width as int);
    let qa = a as int / width as int;
    let qb = b as int / width as int;
    let w = width as int;
    assert(w * qa == w * qb ==> qa == qb) by (nonlinear_arith)
        requires
            w > 0,
    ;
}

/// Bucketing keeps the order of frequencies.
pub proof fn lemma_bucket_monotonic(a: u64, b: u64, width: u64)
    requires
        a <= b,
    ensures
        bucket_floor(a, width) <= bucket_floor(b, width),
{
    if width > 0 {
        lemma_fundamental_div_mod(a as int, width as int);
        lemma_fundamental_div_mod(b as int, width as int);
        lemma_div_is_ordered(a as int, b as int, width as int);
        let qa = a as int / width as int;
        let qb = b as int / width as int;
        let w = width as int;
        assert(w * qa <= w * qb) by (nonlinear_arith)
            requires
                w > 0,
                qa <= qb,
        ;
    }
}

/// Where each band begins and ends, in Hz, both ends included.
pub proof fn lemma_band_edges(freq_hz: u64)
    ensures
        band_at(freq_hz) == Band::B160 <==> 1_800_000 <= freq_hz <= 2_000_000,
        band_at(freq_hz) == Band::B80 <==> 3_500_000 <= freq_hz <= 4_000_000,
        band_at(freq_hz) == Band::B60 <==> 5_250_000 <= freq_hz <= 5_450_000,
        band_at(freq_hz) == Band::B40 <==> 7_000_000 <= freq_hz <= 7_300_000,
        band_at(freq_hz) == Band::B30 <==> 10_100_000 <= freq_hz <= 10_150_000,
        band_at(freq_hz) == Band::B20 <==> 14_000_000 <= freq_hz <= 14_350_000,
        band_at(freq_hz) == Band::B17 <==> 18_068_000 <= freq_hz <= 18_168_000,
        band_at(freq_hz) == Band::B15 <==> 21_000_000 <= freq_hz <= 21_450_000,
        band_at(freq_hz) == Band::B12 <==> 24_890_000 <= freq_hz <= 24_990_000,
        band_at(freq_hz) == Band::B10 <==> 28_000_000 <= freq_hz <= 29_700_000,
        band_at(freq_hz) == Band::B6 <==> 50_000_000 <= freq_hz <= 54_000_000,
        band_at(freq_hz) == Band::B2 <==> 144_000_000 <= freq_hz <= 148_000_000,
        band_limits(Band::B160) == Some((1_800_000u64, 2_000_000u64)),
        band_limits(Band::B80) == Some((3_500_000u64, 4_000_000u64)),
        band_limits(Band::B60) == Some((5_250_000u64, 5_450_000u64)),
        band_limits(Band::B40) == Some((7_000_000u64, 7_300_000u64)),
        band_limits(Band::B30) == Some((10_100_000u64, 10_150_000u64)),
        band_limits(Band::B20) == Some((14_000_000u64, 14_350_000u64)),
        band_limits(Band::B17) == Some((18_068_000u64, 18_168_000u64)),
        band_limits(Band::B15) == Some((21_000_000u64, 21_450_000u64)),
        band_limits(Band::B12) == Some((24_890_000u64, 24_990_000u64)),
        band_limits(Band::B10) == Some((28_000_000u64, 29_700_000u64)),
        band_limits(Band::B6) == Some((50_000_000u64, 54_000_000u64)),
        band_limits(Band::B2) == Some((144_000_000u64, 148_000_000u64)),
        band_limits(Band::Unknown) is None,
{
    lemma_band_at_iff_in_band(Band::B160, freq_hz);
    lemma_band_at_iff_in_band(Band::B80, freq_hz);
    lemma_band_at_iff_in_band(Band::B60, freq_hz);
    lemma_band_at_iff_in_band(Band::B40, freq_hz);
    lemma_band_at_iff_in_band(Band::B30, freq_hz);
    lemma_band_at_iff_in_band(Band::B20, freq_hz);
    lemma_band_at_iff_in_band(Band::B17, freq_hz);
    lemma_band_at_iff_in_band(Band::B15, freq_hz);
    lemma_band_at_iff_in_band(Band::B12, freq_hz);
    lemma_band_at_iff_in_band(Band::B10, freq_hz);
    lemma_band_at_iff_in_band(Band::B6, freq_hz);
    lemma_band_at_iff_in_band(Band::B2, freq_hz);
}

/// The frequencies that the band plan gives to CW, and no others.
pub proof fn lemma_cw_segments(freq_hz: u64)
    ensures
        mode_at(freq_hz) == DxMode::CW <==> {
            ||| 1_800_000 <= freq_hz <= 1_843_000
            ||| 3_500_000 <= freq_hz <= 3_570_000
            ||| 7_000_000 <= freq_hz <= 7_040_000
            ||| 10_100_000 <= freq_hz <= 10_130_000
            ||| 14_000_000 <= freq_hz <= 14_070_000
            ||| 18_068_000 <= freq_hz <= 18_095_000
            ||| 21_000_000 <= freq_hz <= 21_070_000
            ||| 24_890_000 <= freq_hz <= 24_915_000
            ||| 28_000_000 <= freq_hz <= 28_070_000
            ||| 50_000_000 <= freq_hz <= 50_100_000
            ||| 144_000_000 <= freq_hz <= 144_150_000
        },
{
    lemma_band_edges(freq_hz);
}

/// The frequencies that the band plan gives to phone, and no others.
pub proof fn lemma_ssb_segments(freq_hz: u64)
    ensures
        mode_at(freq_hz) == DxMode::SSB <==> {
            ||| 1_843_001 <= freq_hz <= 2_000_000
            ||| 3_600_001 <= freq_hz <= 4_000_000
            ||| 7_060_001 <= freq_hz <= 7_300_000
            ||| 14_099_001 <= freq_hz <= 14_350_000
            ||| 18_109_001 <= freq_hz <= 18_168_000
            ||| 21_110_001 <= freq_hz <= 21_450_000
            ||| 24_931_001 <= freq_hz <= 24_990_000
            ||| 28_190_001 <= freq_hz <= 29_700_000
            ||| 50_100_001 <= freq_hz <= 50_500_000
            ||| 144_150_001 <= freq_hz <= 144_400_000
        },
{
    lemma_band_edges(freq_hz);
}

/// The frequencies that the band plan gives to digital modes, and no others.
pub proof fn lemma_dig_segments(freq_hz: u64)
    ensures
        mode_at(freq_hz) == DxMode::DIG <==> {
            ||| 3_570_001 <= freq_hz <= 3_600_000
            ||| 5_250_000 <= freq_hz <= 5_450_000
            ||| 7_040_001 <= freq_hz <= 7_060_000
            ||| 10_130_001 <= freq_hz <= 10_150_000
            ||| 14_070_001 <= freq_hz <= 14_099_000
            ||| 18_095_001 <= freq_hz <= 18_109_000
            ||| 21_070_001 <= freq_hz <= 21_110_000
            ||| 24_915_001 <= freq_hz <= 24_931_000
            ||| 28_070_001 <= freq_hz <= 28_190_000
            ||| 50_500_001 <= freq_hz <= 54_000_000
            ||| 144_400_001 <= freq_hz <= 148_000_000
        },
{
    lemma_band_edges(freq_hz);
}

/// AM and FM are never inferred, and a mode is inferred in every band.
pub proof fn lemma_inferred_modes(freq_hz: u64)
    ensures
        mode_at(freq_hz) != DxMode::AM,
        mode_at(freq_hz) != DxMode::FM,
        band_at(freq_hz) != Band::Unknown ==> mode_at(freq_hz) != DxMode::Unknown,
{
}

/// How the policies take the mode that upstream reports and the frequency:
/// `TrustUpstream` does not look at the frequency, `InferFromFrequency` not at
/// the report, and `PreferUpstreamFallbackInfer` takes a known report over the
/// frequency, and the frequency where there is none.
pub proof fn lemma_mode_policies(
    freq_hz: u64,
    other_hz: u64,
    reported: DxMode,
    upstream: Option<DxMode>,
)
    ensures
        mode_under(freq_hz, Some(reported), ModePolicy::TrustUpstream) == reported,
        mode_under(freq_hz, None, ModePolicy::TrustUpstream) == DxMode::Unknown,
        mode_under(freq_hz, upstream, ModePolicy::TrustUpstream) == mode_under(
            other_hz,
            upstream,
            ModePolicy::TrustUpstream,
        ),
        mode_under(freq_hz, upstream, ModePolicy::InferFromFrequency) == mode_at(freq_hz),
        reported != DxMode::Unknown ==> mode_under(
            freq_hz,
            Some(reported),
            ModePolicy::PreferUpstreamFallbackInfer,
        ) == reported,
        upstream is None || upstream == Some(DxMode::Unknown) ==> mode_under(
            freq_hz,
            upstream,
            ModePolicy::PreferUpstreamFallbackInfer,
        ) == mode_at(freq_hz),
{
}

/// The bucket of a frequency: the multiple of the mode's own width that is at
/// most one width below it. CW and digital modes have a width each, every other
/// mode has that of SSB.
pub proof fn lemma_bucket_of_mode(freq_hz: u64, mode: DxMode, cw: u64, ssb: u64, dig: u64)
    ensures
        ({
            let bucket = bucket_floor(freq_hz, bucket_width(mode, cw, ssb, dig));
            &&& mode == DxMode::CW && cw > 0 ==> bucket <= freq_hz && freq_hz - bucket < cw
                && bucket % cw == 0
            &&& mode == DxMode::DIG && dig > 0 ==> bucket <= freq_hz && freq_hz - bucket < dig
                && bucket % dig == 0
            &&& mode != DxMode::CW && mode != DxMode::DIG && ssb > 0 ==> bucket <= freq_hz
                && freq_hz - bucket < ssb && bucket % ssb == 0
            &&& mode == DxMode::CW && cw == 0 ==> bucket == freq_hz
            &&& mode == DxMode::DIG && dig == 0 ==> bucket == freq_hz
            &&& mode != DxMode::CW && mode != DxMode::DIG && ssb == 0 ==> bucket == freq_hz
        }),
{
    if mode == DxMode::CW && cw > 0 {
        lemma_bucket_bounds(freq_hz, cw);
    } else if mode == DxMode::DIG && dig > 0 {
        lemma_bucket_bounds(freq_hz, dig);
    } else if mode != DxMode::CW && mode != DxMode::DIG && ssb > 0 {
        lemma_bucket_bounds(freq_hz, ssb);
    }
}

/// Map a frequency in Hz to an amateur band.
///
/// Uses the widest amateur allocation across all three ITU regions.
pub fn freq_to_band(freq_hz: u64) -> (r: Band)
    ensures
        r == band_at(freq_hz),
        r != Band::Unknown ==> in_band(r, freq_hz),
        r == Band::Unknown ==> forall|b: Band| !in_band(b, freq_hz),
{
    let r = match freq_hz {
        1_800_000..=2_000_000 => Band::B160,
        3_500_000..=4_000_000 => Band::B80,
        5_250_000..=5_450_000 => Band::B60,
        7_000_000..=7_300_000 => Band::B40,
        10_100_000..=10_150_000 => Band::B30,
        14_000_000..=14_350_000 => Band::B20,
        18_068_000..=18_168_000 => Band::B17,
        21_000_000..=21_450_000 => Band::B15,
        24_890_000..=24_990_000 => Band::B12,
        28_000_000..=29_700_000 => Band::B10,
        50_000_000..=54_000_000 => Band::B6,
        144_000_000..=148_000_000 => Band::B2,
        _ => Band::Unknown,
    };
    proof {
        if r != Band::Unknown {
            lemma_band_at_iff_in_band(r, freq_hz);
        }
    }
    r
}

/// Return the band edge frequencies (Hz) for a given band.
pub fn band_edges(band: Band) -> (r: Option<(u64, u64)>)
    ensures
        r == band_limits(band),
{
    match band {
        Band::B160 => Some((1_800_000, 2_000_000)),
        Band::B80 => Some((3_500_000, 4_000_000)),
        Band::B60 => Some((5_250_000, 5_450_000)),
        Band::B40 => Some((7_000_000, 7_300_000)),
        Band::B30 => Some((10_100_000, 10_150_000)),
        Band::B20 => Some((14_000_000, 14_350_000)),
        Band::B17 => Some((18_068_000, 18_168_000)),
        Band::B15 => Some((21_000_000, 21_450_000)),
        Band::B12 => Some((24_890_000, 24_990_000)),
        Band::B10 => Some((28_000_000, 29_700_000)),
        Band::B6 => Some((50_000_000, 54_000_000)),
        Band::B2 => Some((144_000_000, 148_000_000)),
        Band::Unknown => None,
    }
}

/// Best-effort mode inference from frequency using IARU band plans.
///
/// This is a rough approximation. Contest operators should use the
/// `ModePolicy` system to control how mode is determined.
pub fn freq_to_mode(freq_hz: u64) -> (r: DxMode)
    ensures
        r == mode_at(freq_hz),
{
    let band = freq_to_band(freq_hz);
    match band {
        Band::Unknown => DxMode::Unknown,
        // Mixed usage, mostly digital/SSB.
        Band::B60 => DxMode::DIG,
        _ => match freq_hz {
            1_800_000..=1_843_000 => DxMode::CW,
            1_843_001..=2_000_000 => DxMode::SSB,
            3_500_000..=3_570_000 => DxMode::CW,
            3_570_001..=3_600_000 => DxMode::DIG,
            3_600_001..=4_000_000 => DxMode::SSB,
            7_000_000..=7_040_000 => DxMode::CW,
            7_040_001..=7_060_000 => DxMode::DIG,
            7_060_001..=7_300_000 => DxMode::SSB,
            // CW and digital only, no SSB.
            10_100_000..=10_130_000 => DxMode::CW,
            10_130_001..=10_150_000 => DxMode::DIG,
            14_000_000..=14_070_000 => DxMode::CW,
            14_070_001..=14_099_000 => DxMode::DIG,
            14_099_001..=14_350_000 => DxMode::SSB,
            18_068_000..=18_095_000 => DxMode::CW,
            18_095_001..=18_109_000 => DxMode::DIG,
            18_109_001..=18_168_000 => DxMode::SSB,
            21_000_000..=21_070_000 => DxMode::CW,
            21_070_001..=21_110_000 => DxMode::DIG,
            21_110_001..=21_450_000 => DxMode::SSB,
            24_890_000..=24_915_000 => DxMode::CW,
            24_915_001..=24_931_000 => DxMode::DIG,
            24_931_001..=24_990_000 => DxMode::SSB,
            28_000_000..=28_070_000 => DxMode::CW,
            28_070_001..=28_190_000 => DxMode::DIG,
            28_190_001..=29_700_000 => DxMode::SSB,
            50_000_000..=50_100_000 => DxMode::CW,
            50_100_001..=50_500_000 => DxMode::SSB,
            50_500_001..=54_000_000 => DxMode::DIG,
            144_000_000..=144_150_000 => DxMode::CW,
            144_150_001..=144_400_000 => DxMode::SSB,
            144_400_001..=148_000_000 => DxMode::DIG,
            _ => DxMode::Unknown,
        },
    }
}

/// Resolve operating mode using the configured policy.
pub fn resolve_mode(freq_hz: u64, upstream_mode: Option<DxMode>, policy: ModePolicy) -> (r: DxMode)
    ensures
        r == mode_under(freq_hz, upstream_mode, policy),
{
    match policy {
        ModePolicy::TrustUpstream => upstream_mode.unwrap_or(DxMode::Unknown),
        ModePolicy::InferFromFrequency => freq_to_mode(freq_hz),
        ModePolicy::PreferUpstreamFallbackInfer => match upstream_mode {
            Some(m) if m != DxMode::Unknown => m,
            _ => freq_to_mode(freq_hz),
        },
    }
}

/// Truncate a frequency to its bucket boundary for deduplication.
///
/// `mode` selects the bucket width: CW, SSB and DIG have their own, every
/// other mode uses the SSB width. A width of zero leaves the frequency as it is.
pub fn freq_bucket(
    freq_hz: u64,
    mode: DxMode,
    cw_bucket_hz: u64,
    ssb_bucket_hz: u64,
    dig_bucket_hz: u64,
) -> (r: u64)
    ensures
        r == bucket_floor(freq_hz, bucket_width(mode, cw_bucket_hz, ssb_bucket_hz, dig_bucket_hz)),
{
    let bucket: u64 = match mode {
        DxMode::CW => cw_bucket_hz,
        DxMode::SSB => ssb_bucket_hz,
        DxMode::DIG => dig_bucket_hz,
        _ => ssb_bucket_hz,
    };
    if bucket == 0 {
        return freq_hz;
    }
    proof {
        lemma_fundamental_div_mod(freq_hz as int, bucket as int);
        let q = freq_hz as int / bucket as int;
        assert(q * bucket == bucket as int * q) by (nonlinear_arith);
    }
    (freq_hz / bucket) * bucket
}

} // verus!
