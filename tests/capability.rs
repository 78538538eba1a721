use simse::capability::{negotiate_capabilities, parse_size, Capabilities, Extension, Verdict};
use simse::error::SmtpError;

fn lines(ls: &[&str]) -> Vec<String> {
    ls.iter().map(|l| l.to_string()).collect()
}

fn chars(s: &str) -> Vec<char> {
    s.chars().collect()
}

#[test]
fn every_ok_line_is_read() {
    let caps = negotiate_capabilities(&lines(&[
        "250-8BITMIME",
        "250-AUTH PLAIN LOGIN",
        "250-PIPELINING",
        "250-CHUNKING",
        "250-DSN",
        "250-STARTTLS",
        "250-SMTPUTF8",
        "250 SIZE 35882577",
    ]))
    .unwrap();
    assert!(caps.eight_bit_mime && caps.auth && caps.pipelining && caps.chunking);
    assert!(caps.dsn && caps.starttls && caps.smtputf8);
    assert_eq!(caps.max_size, Some(35882577));
    for e in [
        Extension::EightBitMime,
        Extension::Auth,
        Extension::Pipelining,
        Extension::Chunking,
        Extension::Dsn,
        Extension::StartTls,
        Extension::SmtpUtf8,
    ] {
        assert!(caps.supports(e));
    }
}

#[test]
fn refused_line_fails_negotiation() {
    let r = negotiate_capabilities(&lines(&["250-AUTH PLAIN", "421-Service not available", "250 DSN"]));
    assert_eq!(r, Err(SmtpError::ProtocolViolation("421-Service not available".to_string())));
}

#[test]
fn non_numeric_size_leaves_size_unspecified() {
    let caps = negotiate_capabilities(&lines(&["250-SIZE lots", "250 PIPELINING"])).unwrap();
    assert_eq!(caps.max_size, None);
    assert!(caps.pipelining);
}

#[test]
fn zero_or_overflowing_size_is_unspecified() {
    assert_eq!(negotiate_capabilities(&lines(&["250 SIZE 0"])).unwrap().max_size, None);
    assert_eq!(negotiate_capabilities(&lines(&["250 SIZE 18446744073709551616"])).unwrap().max_size, None);
    assert_eq!(negotiate_capabilities(&lines(&["250 SIZE"])).unwrap().max_size, None);
}

#[test]
fn unknown_and_lower_case_keywords_are_ignored() {
    let caps = negotiate_capabilities(&lines(&["250-XCLIENT NAME", "250-auth PLAIN", "250 starttls"])).unwrap();
    assert_eq!(caps, Capabilities::none());
}

#[test]
fn malformed_line_ends_the_block() {
    let caps = negotiate_capabilities(&lines(&["250-DSN", "garbage", "250 AUTH PLAIN", "500 bad"])).unwrap();
    assert!(caps.dsn);
    assert!(!caps.auth);
}

#[test]
fn empty_block_gives_empty_set() {
    assert_eq!(negotiate_capabilities(&Vec::new()), Ok(Capabilities::none()));
}

#[test]
fn absorb_classifies_lines() {
    let none = Capabilities::none();
    match none.absorb("250 STARTTLS") {
        Verdict::Added(c) => assert!(c.starttls),
        other => panic!("unexpected verdict {:?}", other),
    }
    assert!(matches!(none.absorb("550 no"), Verdict::Refused));
    assert!(matches!(none.absorb("250"), Verdict::Malformed));
}

#[test]
fn size_parameter_parsing() {
    assert_eq!(parse_size(&chars("1000")), Some(1000));
    assert_eq!(parse_size(&chars("18446744073709551615")), Some(u64::MAX));
    assert_eq!(parse_size(&chars("18446744073709551616")), None);
    assert_eq!(parse_size(&chars("12a")), None);
    assert_eq!(parse_size(&chars("")), None);
    assert_eq!(parse_size(&chars("0")), None);
    assert_eq!(parse_size(&chars("007")), Some(7));
}
