use simse::mail::{
    auth_plain_command, auth_plain_line, body_data_lines, ehlo_command, mail_from_command, message_lines,
    plain_credentials_text, rcpt_to_command, Email, Identity,
};

fn email(local: &str, domain: &str) -> Email {
    Email::new(local.to_string(), domain.to_string())
}

#[test]
fn addresses_and_mailboxes() {
    let e = email("ops", "example.com");
    assert_eq!(e.address(), "ops@example.com");
    let i = Identity::new("Simse".to_string(), e);
    assert_eq!(i.mailbox(), "Simse <ops@example.com>");
}

#[test]
fn envelope_commands() {
    assert_eq!(ehlo_command("host.local"), "EHLO host.local");
    assert_eq!(mail_from_command(&email("a", "b.org")), "MAIL FROM:<a@b.org>");
    assert_eq!(rcpt_to_command(&email("c", "d.net")), "RCPT TO:<c@d.net>");
}

#[test]
fn auth_plain_with_username() {
    assert_eq!(plain_credentials_text(Some("user"), "pass"), "\0user\0pass");
    assert_eq!(auth_plain_command(Some("user"), "pass"), "AUTH PLAIN AHVzZXIAcGFzcw==");
}

#[test]
fn auth_plain_without_username() {
    assert_eq!(plain_credentials_text(None, "pass"), "\0pass");
    assert_eq!(auth_plain_command(None, "pass"), "AUTH PLAIN AHBhc3M=");
}

#[test]
fn auth_plain_encodes_utf8() {
    assert_eq!(auth_plain_command(Some("bob"), "s3crét"), "AUTH PLAIN AGJvYgBzM2Nyw6l0");
    assert_eq!(auth_plain_line("abc="), "AUTH PLAIN abc=");
}

#[test]
fn body_is_split_and_dot_stuffed() {
    assert_eq!(body_data_lines("es body\r\na body of \r\ngoodBye"), vec!["es body", "a body of ", "goodBye"]);
    assert_eq!(body_data_lines(".\n..x\nend\n"), vec!["..", "...x", "end", ""]);
    assert_eq!(body_data_lines(""), vec![""]);
}

#[test]
fn full_message_lines() {
    let sender = Identity::new("Simse".to_string(), email("simse", "example.com"));
    let to = Identity::new("Ops".to_string(), email("ops", "example.com"));
    let cc = vec![email("a", "x.org"), email("b", "y.org")];
    let lines = message_lines(&sender, &to, &cc, "Mon, 1 Jan 2024 00:00:00 +0000", "Alert: Disk Full", "line one\nline two");
    assert_eq!(
        lines,
        vec![
            "From: Simse <simse@example.com>",
            "To: Ops <ops@example.com>",
            "Cc: a@x.org",
            "Cc: b@y.org",
            "Date: Mon, 1 Jan 2024 00:00:00 +0000",
            "Subject: Alert: Disk Full",
            "",
            "line one",
            "line two",
            ".",
        ]
    );
}
