use simse::config::SmtpTlsMode;
use simse::error::SmtpError;
use simse::mail::{Email, Identity};
use simse::session::{Action, Event, Session, SessionState, Wait};

fn email(local: &str, domain: &str) -> Email {
    Email::new(local.to_string(), domain.to_string())
}

fn sender() -> Identity {
    Identity::new("Simse".to_string(), email("simse", "example.com"))
}

fn session(tls: SmtpTlsMode) -> Session {
    Session::new("client.example".to_string(), tls, sender(), "Alert: {title}".to_string()).unwrap()
}

fn line(s: &str) -> Event {
    Event::Line(s.to_string())
}

fn exchange(lines: &[&str], wait: Wait) -> Action {
    Action::Exchange { send: lines.iter().map(|l| l.to_string()).collect(), wait }
}

/// Greets and negotiates without TLS; the session ends up ready.
fn ready_session() -> Session {
    let mut s = session(SmtpTlsMode::Off);
    assert_eq!(s.step(line("220 ready")), exchange(&["EHLO client.example"], Wait::Reply));
    assert_eq!(s.step(line("250-mail.example.com")), exchange(&[], Wait::CapabilityLine));
    assert_eq!(s.step(line("250 AUTH PLAIN")), exchange(&[], Wait::CapabilityLine));
    assert_eq!(s.step(Event::TimedOut), Action::Done);
    assert_eq!(s.state(), SessionState::Ready);
    s
}

#[test]
fn starttls_upgrade_keeps_only_second_capabilities() {
    let mut s = session(SmtpTlsMode::StartTls);
    assert_eq!(s.state(), SessionState::Connected);
    assert_eq!(s.step(line("220 ready")), exchange(&["EHLO client.example"], Wait::Reply));
    assert_eq!(s.step(line("250-mail.example.com greets you")), exchange(&[], Wait::CapabilityLine));
    assert_eq!(s.state(), SessionState::Greeted);
    assert_eq!(s.step(line("250-STARTTLS")), exchange(&[], Wait::CapabilityLine));
    assert_eq!(s.step(line("250-PIPELINING")), exchange(&[], Wait::CapabilityLine));
    assert_eq!(s.step(line("250 SIZE 1000")), exchange(&[], Wait::CapabilityLine));
    assert!(s.capabilities().starttls && s.capabilities().pipelining);
    assert_eq!(s.step(Event::TimedOut), exchange(&["STARTTLS"], Wait::Reply));
    assert_eq!(s.state(), SessionState::TlsUpgrading);
    assert_eq!(s.step(line("220 go ahead")), Action::UpgradeTls);
    assert_eq!(s.step(Event::TlsEstablished), exchange(&["EHLO client.example"], Wait::Reply));
    assert_eq!(s.step(line("250-mail.example.com")), exchange(&[], Wait::CapabilityLine));
    assert_eq!(s.step(line("250-AUTH PLAIN LOGIN")), exchange(&[], Wait::CapabilityLine));
    assert_eq!(s.step(line("250 8BITMIME")), exchange(&[], Wait::CapabilityLine));
    assert_eq!(s.step(Event::TimedOut), Action::Done);
    assert_eq!(s.state(), SessionState::Ready);
    let caps = s.capabilities();
    assert!(caps.auth && caps.eight_bit_mime);
    assert!(!caps.starttls && !caps.pipelining);
    assert_eq!(caps.max_size, None);
}

#[test]
fn secondary_cc_rejection_aborts_before_data() {
    let mut s = ready_session();
    let cc = vec![email("first", "x.org"), email("second", "y.org")];
    let to = Identity::new("Ops".to_string(), email("ops", "example.com"));
    let mut sent: Vec<String> = Vec::new();
    let mut action = s.send_mail(&to, &cc, "Disk Full", "body", "Mon, 1 Jan 2024 00:00:00 +0000");
    let replies = ["250 sender ok", "250 rcpt ok", "250 cc ok", "550 no such user"];
    let mut i = 0;
    while let Action::Exchange { send, .. } = &action {
        sent.extend(send.iter().cloned());
        action = s.step(line(replies[i]));
        i += 1;
    }
    assert_eq!(action, Action::Failed(SmtpError::ProtocolViolation("550 no such user".to_string())));
    assert_eq!(
        sent,
        vec!["MAIL FROM:<simse@example.com>", "RCPT TO:<ops@example.com>", "RCPT TO:<first@x.org>", "RCPT TO:<second@y.org>"]
    );
    assert!(!sent.iter().any(|l| l == "DATA"));
    assert_eq!(s.state(), SessionState::Closed);
    assert_eq!(s.step(line("250 ok")), Action::Failed(SmtpError::SessionClosed));
}

#[test]
fn full_send_mail_dialogue() {
    let mut s = ready_session();
    let to = Identity::new("Ops".to_string(), email("ops", "example.com"));
    assert_eq!(
        s.send_mail(&to, &Vec::new(), "Disk Full", "all\ngone", "D"),
        exchange(&["MAIL FROM:<simse@example.com>"], Wait::Reply)
    );
    assert_eq!(s.step(line("250 ok")), exchange(&["RCPT TO:<ops@example.com>"], Wait::Reply));
    assert_eq!(s.step(line("250 ok")), exchange(&["DATA"], Wait::Reply));
    assert_eq!(
        s.step(line("354 go on")),
        exchange(
            &[
                "From: Simse <simse@example.com>",
                "To: Ops <ops@example.com>",
                "Date: D",
                "Subject: Alert: Disk Full",
                "",
                "all",
                "gone",
                ".",
            ],
            Wait::Reply
        )
    );
    assert_eq!(s.step(line("250 queued")), Action::Done);
    assert_eq!(s.state(), SessionState::Ready);
    assert_eq!(s.quit(), exchange(&["QUIT"], Wait::Reply));
    assert_eq!(s.step(line("221 bye")), Action::Done);
    assert_eq!(s.state(), SessionState::Closed);
}

#[test]
fn authentication_accepted_and_rejected() {
    let mut s = ready_session();
    assert_eq!(s.authenticate(Some("user"), "pass"), exchange(&["AUTH PLAIN AHVzZXIAcGFzcw=="], Wait::Reply));
    assert_eq!(s.step(line("235 ok")), Action::Done);
    assert_eq!(s.state(), SessionState::Authenticated);
    assert_eq!(s.authenticate(Some("user"), "pass"), Action::Failed(SmtpError::SessionClosed));
    assert_eq!(s.state(), SessionState::Authenticated);

    let mut t = ready_session();
    assert_eq!(t.authenticate(None, "pass"), exchange(&["AUTH PLAIN AHBhc3M="], Wait::Reply));
    assert_eq!(t.step(line("535 bad credentials")), Action::Failed(SmtpError::AuthenticationRejected("535 bad credentials".to_string())));
    assert_eq!(t.state(), SessionState::Closed);
}

#[test]
fn bad_greeting_and_hello() {
    let mut s = session(SmtpTlsMode::Off);
    assert_eq!(s.step(line("554 go away")), Action::Failed(SmtpError::UnexpectedGreeting("554 go away".to_string())));
    assert_eq!(s.state(), SessionState::Closed);
    assert_eq!(s.send_mail(&sender(), &Vec::new(), "t", "b", "d"), Action::Failed(SmtpError::SessionClosed));

    let mut t = session(SmtpTlsMode::Off);
    t.step(line("220 hi"));
    assert_eq!(t.step(line("502 no ehlo")), Action::Failed(SmtpError::UnexpectedHello("502 no ehlo".to_string())));
}

#[test]
fn timeouts_and_closed_streams() {
    let mut s = session(SmtpTlsMode::Off);
    assert_eq!(s.step(Event::TimedOut), Action::Failed(SmtpError::Timeout));
    let mut t = session(SmtpTlsMode::Off);
    t.step(line("220 hi"));
    assert_eq!(t.step(Event::StreamClosed), Action::Failed(SmtpError::ConnectionClosed));
}

#[test]
fn refused_capability_line_is_fatal() {
    let mut s = session(SmtpTlsMode::Off);
    s.step(line("220 hi"));
    s.step(line("250-hello"));
    assert_eq!(s.step(line("421 closing")), Action::Failed(SmtpError::ProtocolViolation("421 closing".to_string())));
    assert_eq!(s.state(), SessionState::Closed);
}

#[test]
fn starttls_required_but_not_offered_or_refused() {
    let mut s = session(SmtpTlsMode::StartTls);
    s.step(line("220 hi"));
    s.step(line("250-hello"));
    s.step(line("250 AUTH PLAIN"));
    assert_eq!(s.step(Event::TimedOut), Action::Failed(SmtpError::TlsNegotiationFailed));

    let mut t = session(SmtpTlsMode::StartTls);
    t.step(line("220 hi"));
    t.step(line("250-hello"));
    t.step(line("250 STARTTLS"));
    assert_eq!(t.step(Event::TimedOut), exchange(&["STARTTLS"], Wait::Reply));
    assert_eq!(t.step(line("454 not now")), Action::Failed(SmtpError::TlsNegotiationFailed));

    let mut u = session(SmtpTlsMode::StartTls);
    u.step(line("220 hi"));
    u.step(line("250-hello"));
    u.step(line("250 STARTTLS"));
    u.step(Event::TimedOut);
    assert_eq!(u.step(line("220 go")), Action::UpgradeTls);
    assert_eq!(u.step(Event::TlsFailed), Action::Failed(SmtpError::TlsNegotiationFailed));
}

#[test]
fn implicit_tls_is_refused() {
    let r = Session::new("c".to_string(), SmtpTlsMode::ForceTls, sender(), String::new());
    assert!(matches!(r, Err(SmtpError::UnsupportedTlsMode)));
}

#[test]
fn malformed_capability_line_ends_negotiation() {
    let mut s = session(SmtpTlsMode::Off);
    s.step(line("220 hi"));
    s.step(line("250-hello"));
    s.step(line("250-DSN"));
    assert_eq!(s.step(line("oops")), Action::Done);
    assert!(s.capabilities().dsn);
    assert_eq!(s.state(), SessionState::Ready);
}
