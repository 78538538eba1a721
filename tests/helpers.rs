use simse::capability::Capabilities;
use simse::config::{SmtpNotifierConfig, SmtpTlsMode};
use simse::dispatch::Dispatcher;
use simse::mail::{Email, Identity};
use simse::session::starts_with_code;
use simse::text::find_first;

fn chars(s: &str) -> Vec<char> {
    s.chars().collect()
}

#[test]
fn reply_code_prefix() {
    assert!(starts_with_code("220 ready", 220));
    assert!(starts_with_code("250", 250));
    assert!(starts_with_code("2500 odd", 250));
    assert!(!starts_with_code("25", 250));
    assert!(!starts_with_code("550 no", 250));
    assert!(!starts_with_code("220 ready", 22));
    assert!(!starts_with_code("", 220));
}

#[test]
fn leftmost_occurrence() {
    assert_eq!(find_first(&chars("abcabc"), &chars("bc")), Some(1));
    assert_eq!(find_first(&chars("abc"), &chars("")), Some(0));
    assert_eq!(find_first(&chars("abc"), &chars("abcd")), None);
    assert_eq!(find_first(&chars("aaab"), &chars("aab")), Some(1));
    assert_eq!(find_first(&chars(""), &chars("x")), None);
}

#[test]
fn keyword_updates() {
    let none = Capabilities::none();
    assert!(none.with_keyword(&chars("AUTH PLAIN LOGIN")).auth);
    assert_eq!(none.with_keyword(&chars("SIZE 52428800")).max_size, Some(52428800));
    assert_eq!(none.with_keyword(&chars("SIZE 12x")).max_size, None);
    let sized = none.with_keyword(&chars("SIZE 10"));
    assert_eq!(sized.with_keyword(&chars("SIZE nope")).max_size, Some(10));
    assert_eq!(none.with_keyword(&chars("AUTHX")), none);
}

#[test]
fn dispatcher_keeps_its_backend() {
    let who = Identity::new("Simse".to_string(), Email::new("simse".to_string(), "example.com".to_string()));
    let config = SmtpNotifierConfig {
        host: "smtp.example.com".to_string(),
        port: 587,
        tls: SmtpTlsMode::StartTls,
        sender: who.clone(),
        to: who,
        cc: Vec::new(),
        subject: "Alert: {title}".to_string(),
        username: "simse".to_string(),
        passfile: "/run/secrets/smtp".to_string(),
        timeout: 30,
    };
    let mut d = Dispatcher::new();
    assert!(d.smtp_config().is_none());
    d.spawn_notifier(Some(config)).unwrap();
    assert!(d.spawn_notifier(None).is_err());
    assert_eq!(d.smtp_config().as_ref().map(|c| c.port), Some(587));
}
