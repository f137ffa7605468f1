//! Telnet IAC stripping.

use dxfeed::source::iac::{strip_iac, DO, DONT, IAC, SB, SE, WILL, WONT};

#[test]
fn no_iac_unchanged() {
    let mut buf = b"Hello, World!".to_vec();
    let result = strip_iac(&mut buf);
    assert_eq!(buf, b"Hello, World!");
    assert!(result.responses.is_empty());
}

#[test]
fn iac_do_stripped_and_response_generated() {
    // IAC DO ECHO (255 253 1)
    let mut buf = vec![b'A', IAC, DO, 1, b'B'];
    let result = strip_iac(&mut buf);
    assert_eq!(buf, b"AB");
    assert_eq!(result.responses.len(), 1);
    assert_eq!(result.responses[0], [IAC, WONT, 1]);
}

#[test]
fn iac_will_stripped() {
    let mut buf = vec![b'A', IAC, WILL, 3, b'B'];
    let result = strip_iac(&mut buf);
    assert_eq!(buf, b"AB");
    assert!(result.responses.is_empty());
}

#[test]
fn iac_wont_stripped() {
    let mut buf = vec![IAC, WONT, 1, b'X'];
    let result = strip_iac(&mut buf);
    assert_eq!(buf, b"X");
    assert!(result.responses.is_empty());
}

#[test]
fn iac_dont_stripped() {
    let mut buf = vec![IAC, DONT, 5];
    let result = strip_iac(&mut buf);
    assert!(buf.is_empty());
    assert!(result.responses.is_empty());
}

#[test]
fn iac_iac_becomes_literal_ff() {
    let mut buf = vec![b'A', IAC, IAC, b'B'];
    strip_iac(&mut buf);
    assert_eq!(buf, vec![b'A', 0xFF, b'B']);
}

#[test]
fn iac_subnegotiation_stripped() {
    // IAC SB 24 ... IAC SE
    let mut buf = vec![b'X', IAC, SB, 24, 0, b'V', b'T', IAC, SE, b'Y'];
    strip_iac(&mut buf);
    assert_eq!(buf, b"XY");
}

#[test]
fn multiple_iac_sequences() {
    let mut buf = vec![IAC, DO, 1, IAC, DO, 3, b'H', b'i', IAC, WILL, 5];
    let result = strip_iac(&mut buf);
    assert_eq!(buf, b"Hi");
    assert_eq!(result.responses.len(), 2);
}

#[test]
fn empty_buffer() {
    let mut buf = Vec::new();
    let result = strip_iac(&mut buf);
    assert!(buf.is_empty());
    assert!(result.responses.is_empty());
}

#[test]
fn iac_at_end_of_buffer() {
    let mut buf = vec![b'A', IAC];
    strip_iac(&mut buf);
    assert_eq!(buf, vec![b'A', IAC]);
}

#[test]
fn realistic_cluster_login() {
    // Simulate: IAC DO ECHO, IAC WILL SGA, then "login: "
    let mut buf = vec![
        IAC, DO, 1, // DO ECHO
        IAC, WILL, 3, // WILL SGA
        b'l', b'o', b'g', b'i', b'n', b':', b' ',
    ];
    let result = strip_iac(&mut buf);
    assert_eq!(buf, b"login: ");
    assert_eq!(result.responses.len(), 1);
    assert_eq!(result.responses[0], [IAC, WONT, 1]);
}
