//! The spot line parser.

use dxfeed::parser::spot::{
    ParsedLine, RbnFields, extract_comment_and_time, parse_freq_to_hz, parse_line,
    parse_rbn_comment,
};
use dxfeed::time::UtcTime;

// DX spot parsing

#[test]
fn parse_standard_dxspider_spot() {
    let line = "DX de W3LPL:     14025.0  JA1ABC       CQ JA UP 1                    0230Z";
    match parse_line(line) {
        ParsedLine::Spot(s) => {
            assert_eq!(s.spotter_call, "W3LPL");
            assert_eq!(s.dx_call, "JA1ABC");
            assert_eq!(s.freq_hz, 14_025_000);
            assert!(s.comment.as_deref().unwrap().contains("CQ JA"));
            assert_eq!(
                s.utc_time,
                Some(UtcTime::from_hm(2, 30).unwrap())
            );
        }
        other => panic!("expected Spot, got {:?}", other),
    }
}

#[test]
fn parse_spot_with_decimal_freq() {
    let line = "DX de K1TTT:     14025.1  W1AW         CQ                            1234Z";
    match parse_line(line) {
        ParsedLine::Spot(s) => {
            assert_eq!(s.freq_hz, 14_025_100);
            assert_eq!(s.dx_call, "W1AW");
        }
        other => panic!("expected Spot, got {:?}", other),
    }
}

#[test]
fn parse_spot_two_decimal_places() {
    let line = "DX de VE3NEA:    7001.50  DL1ABC       599                            0800Z";
    match parse_line(line) {
        ParsedLine::Spot(s) => {
            assert_eq!(s.freq_hz, 7_001_500);
            assert_eq!(s.spotter_call, "VE3NEA");
        }
        other => panic!("expected Spot, got {:?}", other),
    }
}

#[test]
fn parse_spot_three_decimal_places() {
    let line = "DX de N1MM:      14025.123 JA1XYZ      TEST                           1500Z";
    match parse_line(line) {
        ParsedLine::Spot(s) => {
            // 14025.123 kHz = 14025123 Hz
            assert_eq!(s.freq_hz, 14_025_123);
        }
        other => panic!("expected Spot, got {:?}", other),
    }
}

#[test]
fn parse_spot_no_decimal() {
    let line = "DX de W1AW:      14025  K3LR          CQ                             2100Z";
    match parse_line(line) {
        ParsedLine::Spot(s) => {
            assert_eq!(s.freq_hz, 14_025_000);
        }
        other => panic!("expected Spot, got {:?}", other),
    }
}

#[test]
fn parse_spot_no_time() {
    let line = "DX de W1AW:      14025.0  K3LR         CQ contest";
    match parse_line(line) {
        ParsedLine::Spot(s) => {
            assert_eq!(s.dx_call, "K3LR");
            // "CQ contest" doesn't end with a valid time
            assert!(s.utc_time.is_none());
            assert!(s.comment.as_deref().unwrap().contains("CQ contest"));
        }
        other => panic!("expected Spot, got {:?}", other),
    }
}

#[test]
fn parse_spot_case_insensitive_prefix() {
    let line = "dx de W1AW:      14025.0  K3LR         CQ                             1200Z";
    assert!(matches!(parse_line(line), ParsedLine::Spot(_)));

    let line2 = "Dx de W1AW:      14025.0  K3LR         CQ                             1200Z";
    assert!(matches!(parse_line(line2), ParsedLine::Spot(_)));
}

#[test]
fn parse_spot_trailing_whitespace() {
    let line = "DX de W1AW:      14025.0  K3LR         CQ                             1200Z   \r\n";
    match parse_line(line) {
        ParsedLine::Spot(s) => {
            assert_eq!(s.dx_call, "K3LR");
        }
        other => panic!("expected Spot, got {:?}", other),
    }
}

#[test]
fn parse_spot_minimal() {
    // Minimal valid spot line
    let line = "DX de A:1.0 B";
    match parse_line(line) {
        ParsedLine::Spot(s) => {
            assert_eq!(s.spotter_call, "A");
            assert_eq!(s.dx_call, "B");
            assert_eq!(s.freq_hz, 1_000);
        }
        other => panic!("expected Spot, got {:?}", other),
    }
}

#[test]
fn parse_rbn_format_line() {
    let line = "DX de W3OA-2:    14025.0  JA1ABC       15 dB  22 WPM  CQ              0230Z";
    match parse_line(line) {
        ParsedLine::Spot(s) => {
            assert_eq!(s.spotter_call, "W3OA-2");
            assert_eq!(s.dx_call, "JA1ABC");
            let comment = s.comment.as_deref().unwrap();
            let rbn = parse_rbn_comment(comment);
            assert_eq!(rbn.snr_db, Some(15));
            assert_eq!(rbn.wpm, Some(22));
            assert!(rbn.is_cq);
        }
        other => panic!("expected Spot, got {:?}", other),
    }
}

// Frequency parsing (direct to Hz)

#[test]
fn freq_parsing_various() {
    assert_eq!(parse_freq_to_hz("14025.0"), Some(14_025_000));
    assert_eq!(parse_freq_to_hz("14025.1"), Some(14_025_100));
    assert_eq!(parse_freq_to_hz("14025.10"), Some(14_025_100));
    assert_eq!(parse_freq_to_hz("14025.12"), Some(14_025_120));
    assert_eq!(parse_freq_to_hz("14025.123"), Some(14_025_123));
    assert_eq!(parse_freq_to_hz("7001"), Some(7_001_000));
    assert_eq!(parse_freq_to_hz("7001.5"), Some(7_001_500));
    assert_eq!(parse_freq_to_hz("3500.0"), Some(3_500_000));
    assert_eq!(parse_freq_to_hz("50125.0"), Some(50_125_000));
}

#[test]
fn freq_parsing_edge_cases() {
    assert_eq!(parse_freq_to_hz(""), None);
    assert_eq!(parse_freq_to_hz("abc"), None);
    assert_eq!(parse_freq_to_hz("0"), Some(0));
    assert_eq!(parse_freq_to_hz("0.0"), Some(0));
}

// Announce lines

#[test]
fn parse_announce() {
    let line = "To ALL de W1AW: Hello everyone";
    assert!(matches!(parse_line(line), ParsedLine::Announce(_)));
}

#[test]
fn parse_local_announce() {
    let line = "To LOCAL de K3LR: Testing";
    assert!(matches!(parse_line(line), ParsedLine::Announce(_)));
}

// Propagation data

#[test]
fn parse_wwv() {
    let line = "WWV de VE7CC <21> :   SFI=150, A=8, K=2, No Storms -> No Storms";
    assert!(matches!(parse_line(line), ParsedLine::Propagation(_)));
}

#[test]
fn parse_wcy() {
    let line = "WCY de DK0WCY-1 <18> :   K=2 expK=2 A=8 R=60 SFI=120 SA=qui GMF=qui Au=no";
    assert!(matches!(parse_line(line), ParsedLine::Propagation(_)));
}

// Prompts

#[test]
fn parse_login_prompt() {
    let line = "login:";
    assert!(matches!(parse_line(line), ParsedLine::Prompt(_)));
}

#[test]
fn parse_callsign_prompt() {
    let line = "Please enter your call:";
    assert!(matches!(parse_line(line), ParsedLine::Prompt(_)));
}

#[test]
fn parse_password_prompt() {
    let line = "Password:";
    assert!(matches!(parse_line(line), ParsedLine::Prompt(_)));
}

#[test]
fn parse_cluster_prompt() {
    let line = "W1AW-2>";
    assert!(matches!(parse_line(line), ParsedLine::Prompt(_)));
}

// Unknown

#[test]
fn parse_empty_line() {
    assert!(matches!(parse_line(""), ParsedLine::Unknown(_)));
}

#[test]
fn parse_random_text() {
    let line = "Some random cluster MOTD text here";
    assert!(matches!(parse_line(line), ParsedLine::Unknown(_)));
}

#[test]
fn parse_truncated_spot() {
    let line = "DX de W1AW:";
    assert!(matches!(parse_line(line), ParsedLine::Unknown(_)));
}

// RBN comment parsing

#[test]
fn rbn_comment_full() {
    let fields = parse_rbn_comment("15 dB  22 WPM  CQ");
    assert_eq!(fields.snr_db, Some(15));
    assert_eq!(fields.wpm, Some(22));
    assert!(fields.is_cq);
}

#[test]
fn rbn_comment_beacon() {
    let fields = parse_rbn_comment("8 dB  18 WPM  BEACON");
    assert_eq!(fields.snr_db, Some(8));
    assert_eq!(fields.wpm, Some(18));
    assert!(!fields.is_cq);
}

#[test]
fn rbn_comment_no_cq() {
    let fields = parse_rbn_comment("20 dB  25 WPM  NCDXF");
    assert_eq!(fields.snr_db, Some(20));
    assert_eq!(fields.wpm, Some(25));
    assert!(!fields.is_cq);
}

#[test]
fn rbn_comment_malformed() {
    let fields = parse_rbn_comment("random text");
    assert_eq!(fields.snr_db, None);
    assert_eq!(fields.wpm, None);
    assert!(!fields.is_cq);
}

#[test]
fn rbn_comment_empty() {
    let fields = parse_rbn_comment("");
    assert_eq!(fields, RbnFields::default());
}

// Never panics (fuzz-like edge cases)

#[test]
fn never_panics_on_weird_input() {
    let cases = [
        "DX de :14025.0 W1AW",
        "DX de",
        "DX de W1AW",
        "DX de W1AW: W1AW",
        "DX de W1AW: abc W1AW",
        "DX de W1AW:      ",
        "DX de W1AW: 0.0 ",
        "DX de :0.0 B",
        "\x00\x01\x02DX de W1AW: 14025.0 K3LR",
        "DX de W1AW: 999999999.999 K3LR",
        &"x".repeat(1000),
        "DX de W1AW: 14025.0 K3LR         comment 9999",
        "DX de W1AW: 14025.0 K3LR         comment 2500Z",
    ];

    for case in &cases {
        let _ = parse_line(case); // should not panic
    }
}

// Time extraction

#[test]
fn extract_time_with_z() {
    let (comment, time) = extract_comment_and_time("CQ JA UP 1                    0230Z");
    assert_eq!(time, Some(UtcTime::from_hm(2, 30).unwrap()));
    assert!(comment.unwrap().contains("CQ JA"));
}

#[test]
fn extract_time_without_z() {
    let (_, time) = extract_comment_and_time("CQ                             1200");
    assert_eq!(time, Some(UtcTime::from_hm(12, 0).unwrap()));
}

#[test]
fn extract_no_time() {
    let (comment, time) = extract_comment_and_time("CQ contest");
    assert!(time.is_none());
    assert_eq!(comment.as_deref(), Some("CQ contest"));
}

#[test]
fn extract_invalid_time() {
    let (_, time) = extract_comment_and_time("CQ 2500Z");
    // 25:00 is invalid
    assert!(time.is_none());
}
