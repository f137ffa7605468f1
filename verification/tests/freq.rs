//! Bands, modes and buckets.

use dxfeed::domain::{Band, DxMode, ModePolicy};
use dxfeed::freq::{band_edges, freq_bucket, freq_to_band, freq_to_mode, resolve_mode};

// freq_to_band

#[test]
fn freq_to_band_hf_contest_bands() {
    assert_eq!(freq_to_band(1_825_000), Band::B160);
    assert_eq!(freq_to_band(3_525_000), Band::B80);
    assert_eq!(freq_to_band(7_001_000), Band::B40);
    assert_eq!(freq_to_band(10_110_000), Band::B30);
    assert_eq!(freq_to_band(14_025_000), Band::B20);
    assert_eq!(freq_to_band(18_080_000), Band::B17);
    assert_eq!(freq_to_band(21_025_000), Band::B15);
    assert_eq!(freq_to_band(24_900_000), Band::B12);
    assert_eq!(freq_to_band(28_025_000), Band::B10);
    assert_eq!(freq_to_band(50_125_000), Band::B6);
    assert_eq!(freq_to_band(144_200_000), Band::B2);
}

#[test]
fn freq_to_band_edges() {
    assert_eq!(freq_to_band(1_800_000), Band::B160);
    assert_eq!(freq_to_band(2_000_000), Band::B160);
    assert_eq!(freq_to_band(14_000_000), Band::B20);
    assert_eq!(freq_to_band(14_350_000), Band::B20);
}

#[test]
fn freq_to_band_out_of_band() {
    assert_eq!(freq_to_band(0), Band::Unknown);
    assert_eq!(freq_to_band(1_000_000), Band::Unknown);
    assert_eq!(freq_to_band(100_000_000), Band::Unknown);
}

// band_edges

#[test]
fn band_edges_20m() {
    assert_eq!(band_edges(Band::B20), Some((14_000_000, 14_350_000)));
}

#[test]
fn band_edges_unknown() {
    assert_eq!(band_edges(Band::Unknown), None);
}

// freq_to_mode

#[test]
fn freq_to_mode_cw() {
    assert_eq!(freq_to_mode(14_025_000), DxMode::CW);
    assert_eq!(freq_to_mode(7_010_000), DxMode::CW);
    assert_eq!(freq_to_mode(21_025_000), DxMode::CW);
}

#[test]
fn freq_to_mode_ssb() {
    assert_eq!(freq_to_mode(14_200_000), DxMode::SSB);
    assert_eq!(freq_to_mode(7_100_000), DxMode::SSB);
    assert_eq!(freq_to_mode(3_750_000), DxMode::SSB);
}

#[test]
fn freq_to_mode_dig() {
    assert_eq!(freq_to_mode(14_074_000), DxMode::DIG);
    assert_eq!(freq_to_mode(7_050_000), DxMode::DIG);
    assert_eq!(freq_to_mode(10_140_000), DxMode::DIG);
}

#[test]
fn freq_to_mode_unknown() {
    assert_eq!(freq_to_mode(0), DxMode::Unknown);
    assert_eq!(freq_to_mode(100_000_000), DxMode::Unknown);
}

// resolve_mode

#[test]
fn resolve_mode_trust_upstream() {
    assert_eq!(
        resolve_mode(14_025_000, Some(DxMode::SSB), ModePolicy::TrustUpstream),
        DxMode::SSB
    );
    assert_eq!(
        resolve_mode(14_025_000, None, ModePolicy::TrustUpstream),
        DxMode::Unknown
    );
}

#[test]
fn resolve_mode_infer() {
    assert_eq!(
        resolve_mode(14_025_000, Some(DxMode::SSB), ModePolicy::InferFromFrequency),
        DxMode::CW
    );
}

#[test]
fn resolve_mode_prefer_upstream_fallback() {
    // Has upstream: use it
    assert_eq!(
        resolve_mode(14_025_000, Some(DxMode::SSB), ModePolicy::PreferUpstreamFallbackInfer),
        DxMode::SSB
    );
    // Upstream is Unknown: infer
    assert_eq!(
        resolve_mode(14_025_000, Some(DxMode::Unknown), ModePolicy::PreferUpstreamFallbackInfer),
        DxMode::CW
    );
    // No upstream: infer
    assert_eq!(
        resolve_mode(14_025_000, None, ModePolicy::PreferUpstreamFallbackInfer),
        DxMode::CW
    );
}

// freq_bucket

#[test]
fn freq_bucket_cw_10hz() {
    assert_eq!(freq_bucket(14_025_130, DxMode::CW, 10, 1000, 100), 14_025_130);
    assert_eq!(freq_bucket(14_025_135, DxMode::CW, 10, 1000, 100), 14_025_130);
    assert_eq!(freq_bucket(14_025_139, DxMode::CW, 10, 1000, 100), 14_025_130);
    assert_eq!(freq_bucket(14_025_140, DxMode::CW, 10, 1000, 100), 14_025_140);
}

#[test]
fn freq_bucket_ssb_1khz() {
    assert_eq!(freq_bucket(14_200_750, DxMode::SSB, 10, 1000, 100), 14_200_000);
    assert_eq!(freq_bucket(14_200_000, DxMode::SSB, 10, 1000, 100), 14_200_000);
    assert_eq!(freq_bucket(14_200_999, DxMode::SSB, 10, 1000, 100), 14_200_000);
}

#[test]
fn freq_bucket_dig_100hz() {
    assert_eq!(freq_bucket(14_074_050, DxMode::DIG, 10, 1000, 100), 14_074_000);
    assert_eq!(freq_bucket(14_074_099, DxMode::DIG, 10, 1000, 100), 14_074_000);
    assert_eq!(freq_bucket(14_074_100, DxMode::DIG, 10, 1000, 100), 14_074_100);
}

#[test]
fn freq_bucket_two_spots_same_cw_bucket() {
    let a = freq_bucket(14_025_100, DxMode::CW, 10, 1000, 100);
    let b = freq_bucket(14_025_105, DxMode::CW, 10, 1000, 100);
    assert_eq!(a, b); // both in 14025100 bucket
}

#[test]
fn freq_bucket_two_spots_different_cw_bucket() {
    let a = freq_bucket(14_025_100, DxMode::CW, 10, 1000, 100);
    let b = freq_bucket(14_025_115, DxMode::CW, 10, 1000, 100);
    assert_ne!(a, b); // 14025100 vs 14025110
}

#[test]
fn freq_bucket_zero_bucket_size_returns_raw() {
    assert_eq!(freq_bucket(14_025_130, DxMode::CW, 0, 0, 0), 14_025_130);
}
