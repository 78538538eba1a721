//! Addresses, SMTP commands and the lines of a message's DATA section.

use base64::Engine;
use vstd::prelude::*;
use vstd::string::*;
use crate::text::{chars_of, lemma_line_views_push, line_views, push_line};

verus! {

/// An email address: local part and domain.
#[derive(Clone, Debug, PartialEq, Eq)]
pub struct Email {
    pub local: String,
    pub domain: String,
}

/// A display name with an address, as in `Name <local@domain>`.
#[derive(Clone, Debug, PartialEq, Eq)]
pub struct Identity {
    pub name: String,
    pub email: Email,
}

pub open spec fn address_text(e: Email) -> Seq<char> {
    e.local@ + "@"@ + e.domain@
}

pub open spec fn identity_text(i: Identity) -> Seq<char> {
    i.name@ + " <"@ + address_text(i.email) + ">"@
}

/// The standard (padded) base64 text of the UTF-8 encoding of `s`.
pub uninterp spec fn base64_of(s: Seq<char>) -> Seq<char>;

/// Relies on base64's `general_purpose::STANDARD.encode`: the padded
/// standard base64 text of the bytes of `s`. It cannot overflow: a `str`
/// holds at most `isize::MAX` bytes.
#[verifier::external_body]
fn base64_standard(s: &str) -> (r: String)
    ensures
        r@ == base64_of(s@),
{
    base64::engine::general_purpose::STANDARD.encode(s.as_bytes())
}

impl Email {
    pub fn new(local: String, domain: String) -> (r: Email)
        ensures
            r.local == local,
            r.domain == domain,
    {
        Email { local, domain }
    }

    /// `local@domain`.
    pub fn address(&self) -> (r: String)
        ensures
            r@ == address_text(*self),
    {
        let mut r = self.local.clone();
        r.append("@");
        r.append(self.domain.as_str());
        r
    }
}

impl Identity {
    pub fn new(name: String, email: Email) -> (r: Identity)
        ensures
            r.name == name,
            r.email == email,
    {
        Identity { name, email }
    }

    /// `Name <local@domain>`.
    pub fn mailbox(&self) -> (r: String)
        ensures
            r@ == identity_text(*self),
    {
        let mut r = self.name.clone();
        r.append(" <");
        r.append(self.email.address().as_str());
        r.append(">");
        r
    }
}

pub open spec fn ehlo_text(client: Seq<char>) -> Seq<char> {
    "EHLO "@ + client
}

pub open spec fn mail_from_text(e: Email) -> Seq<char> {
    "MAIL FROM:<"@ + address_text(e) + ">"@
}

pub open spec fn rcpt_to_text(e: Email) -> Seq<char> {
    "RCPT TO:<"@ + address_text(e) + ">"@
}

/// The AUTH PLAIN credentials: `\0username\0password`, or `\0password`
/// without a username.
pub open spec fn plain_credentials(username: Option<Seq<char>>, password: Seq<char>) -> Seq<char> {
    match username {
        Some(u) => "\0"@ + u + "\0"@ + password,
        None => "\0"@ + password,
    }
}

pub open spec fn auth_text(encoded: Seq<char>) -> Seq<char> {
    "AUTH PLAIN "@ + encoded
}

/// `EHLO <client>`.
pub fn ehlo_command(client: &str) -> (r: String)
    ensures
        r@ == ehlo_text(client@),
{
    let mut r = String::from_str("EHLO ");
    r.append(client);
    r
}

/// `MAIL FROM:<local@domain>`.
pub fn mail_from_command(sender: &Email) -> (r: String)
    ensures
        r@ == mail_from_text(*sender),
{
    let mut r = String::from_str("MAIL FROM:<");
    r.append(sender.address().as_str());
    r.append(">");
    r
}

/// `RCPT TO:<local@domain>`.
pub fn rcpt_to_command(recipient: &Email) -> (r: String)
    ensures
        r@ == rcpt_to_text(*recipient),
{
    let mut r = String::from_str("RCPT TO:<");
    r.append(recipient.address().as_str());
    r.append(">");
    r
}

/// The AUTH PLAIN credentials before encoding.
pub fn plain_credentials_text(username: Option<&str>, password: &str) -> (r: String)
    ensures
        r@ == plain_credentials(
            match username {
                Some(u) => Some(u@),
                None => None,
            },
            password@,
        ),
{
    let mut r = String::from_str("\0");
    match username {
        Some(u) => {
            r.append(u);
            r.append("\0");
        },
        None => {},
    }
    r.append(password);
    r
}

/// `AUTH PLAIN <encoded>`, for credentials already encoded.
pub fn auth_plain_line(encoded: &str) -> (r: String)
    ensures
        r@ == auth_text(encoded@),
{
    let mut r = String::from_str("AUTH PLAIN ");
    r.append(encoded);
    r
}

/// `AUTH PLAIN` with the base64 text of the credentials.
pub fn auth_plain_command(username: Option<&str>, password: &str) -> (r: String)
    ensures
        r@ == auth_text(
            base64_of(
                plain_credentials(
                    match username {
                        Some(u) => Some(u@),
                        None => None,
                    },
                    password@,
                ),
            ),
        ),
{
    let credentials = plain_credentials_text(username, password);
    let encoded = base64_standard(credentials.as_str());
    auth_plain_line(encoded.as_str())
}

/// The lines of `s` split at each line feed; a final line feed leaves an
/// empty last line.
pub open spec fn split_lines(s: Seq<char>) -> Seq<Seq<char>>
    decreases s.len(),
{
    if s.len() == 0 {
        seq![Seq::empty()]
    } else {
        let prev = split_lines(s.drop_last());
        if s.last() == '\n' {
            prev.push(Seq::empty())
        } else {
            prev.update(prev.len() - 1, prev.last().push(s.last()))
        }
    }
}

/// One body line as sent inside DATA: without a trailing carriage return,
/// and with a leading dot doubled so that it cannot end the data early.
pub open spec fn data_line(l: Seq<char>) -> Seq<char> {
    let t = if l.len() > 0 && l.last() == '\r' {
        l.drop_last()
    } else {
        l
    };
    if t.len() > 0 && t[0] == '.' {
        "."@ + t
    } else {
        t
    }
}

pub open spec fn data_lines(raw: Seq<Seq<char>>) -> Seq<Seq<char>> {
    raw.map_values(|l: Seq<char>| data_line(l))
}

pub open spec fn body_lines(body: Seq<char>) -> Seq<Seq<char>> {
    data_lines(split_lines(body))
}

pub open spec fn cc_lines(cc: Seq<Email>) -> Seq<Seq<char>> {
    cc.map_values(|e: Email| "Cc: "@ + address_text(e))
}

/// The header lines: From, To, one Cc per copy recipient, Date, Subject.
pub open spec fn header_lines(
    sender: Identity,
    to: Identity,
    cc: Seq<Email>,
    date: Seq<char>,
    subject: Seq<char>,
) -> Seq<Seq<char>> {
    seq!["From: "@ + identity_text(sender), "To: "@ + identity_text(to)]
        + cc_lines(cc)
        + seq!["Date: "@ + date, "Subject: "@ + subject]
}

/// Everything written after DATA was accepted: the headers, a blank line,
/// the body lines and the lone `.` that ends the data.
pub open spec fn message_text(
    sender: Identity,
    to: Identity,
    cc: Seq<Email>,
    date: Seq<char>,
    subject: Seq<char>,
    body: Seq<char>,
) -> Seq<Seq<char>> {
    header_lines(sender, to, cc, date, subject) + seq![Seq::empty()] + body_lines(body) + seq!["."@]
}

proof fn lemma_data_lines_push(raw: Seq<Seq<char>>, l: Seq<char>)
    ensures
        data_lines(raw.push(l)) == data_lines(raw).push(data_line(l)),
{
    assert(data_lines(raw.push(l)) =~= data_lines(raw).push(data_line(l)));
}

proof fn lemma_cc_lines_step(cc: Seq<Email>, k: int)
    requires
        0 <= k < cc.len(),
    ensures
        cc_lines(cc.subrange(0, k + 1)) == cc_lines(cc.subrange(0, k)).push("Cc: "@ + address_text(cc[k])),
{
    assert(cc_lines(cc.subrange(0, k + 1)) =~= cc_lines(cc.subrange(0, k)).push("Cc: "@ + address_text(cc[k])));
}

proof fn lemma_split_lines_nonempty(s: Seq<char>)
    ensures
        split_lines(s).len() >= 1,
    decreases s.len(),
{
    if s.len() > 0 {
        lemma_split_lines_nonempty(s.drop_last());
    }
}

/// The body line held by `cs[start..end]` as it is sent.
fn data_line_exec(body: &str, cs: &Vec<char>, start: usize, end: usize) -> (r: String)
    requires
        cs@ == body@,
        start <= end <= cs@.len(),
    ensures
        r@ == data_line(cs@.subrange(start as int, end as int)),
{
    let ghost l = cs@.subrange(start as int, end as int);
    let stop = if end > start && cs[end - 1] == '\r' {
        end - 1
    } else {
        end
    };
    assert(l.len() > 0 && l.last() == '\r' ==> cs@.subrange(start as int, stop as int) =~= l.drop_last());
    assert(!(l.len() > 0 && l.last() == '\r') ==> cs@.subrange(start as int, stop as int) =~= l);
    let piece = body.substring_char(start, stop);
    if stop > start && cs[start] == '.' {
        let mut r = String::from_str(".");
        r.append(piece);
        r
    } else {
        String::from_str(piece)
    }
}

/// The body split into lines as they are sent inside DATA.
pub fn body_data_lines(body: &str) -> (r: Vec<String>)
    ensures
        line_views(r@) == body_lines(body@),
{
    let cs = chars_of(body);
    let n = cs.len();
    let mut r: Vec<String> = Vec::new();
    let ghost mut raw: Seq<Seq<char>> = Seq::empty();
    let mut start: usize = 0;
    let mut i: usize = 0;
    assert(cs@.subrange(0, 0) =~= Seq::<char>::empty());
    assert(split_lines(Seq::<char>::empty()) =~= raw.push(cs@.subrange(0, 0)));
    assert(line_views(r@) =~= data_lines(raw));
    while i < n
        invariant
            n == cs@.len(),
            cs@ == body@,
            start <= i <= n,
            split_lines(cs@.subrange(0, i as int)) == raw.push(cs@.subrange(start as int, i as int)),
            line_views(r@) == data_lines(raw),
        decreases n - i,
    {
        let ghost prefix = cs@.subrange(0, i + 1);
        assert(prefix.drop_last() =~= cs@.subrange(0, i as int));
        assert(prefix.last() == cs@[i as int]);
        if cs[i] == '\n' {
            let line = data_line_exec(body, &cs, start, i);
            let ghost r0 = r@;
            r.push(line);
            proof {
                lemma_line_views_push(r0, line);
                lemma_data_lines_push(raw, cs@.subrange(start as int, i as int));
                raw = raw.push(cs@.subrange(start as int, i as int));
                assert(cs@.subrange(i + 1, i + 1) =~= Seq::<char>::empty());
            }
            start = i + 1;
        } else {
            assert(cs@.subrange(start as int, i as int).push(cs@[i as int]) =~= cs@.subrange(start as int, i + 1));
            assert(raw.push(cs@.subrange(start as int, i as int)).update(raw.len() as int, cs@.subrange(start as int, i + 1))
                =~= raw.push(cs@.subrange(start as int, i + 1)));
        }
        i += 1;
    }
    let last = data_line_exec(body, &cs, start, n);
    let ghost r0 = r@;
    r.push(last);
    proof {
        assert(cs@.subrange(0, n as int) =~= body@);
        lemma_line_views_push(r0, last);
        lemma_data_lines_push(raw, cs@.subrange(start as int, n as int));
    }
    r
}

/// The lines written after DATA was accepted, ending with the lone `.`.
pub fn message_lines(
    sender: &Identity,
    to: &Identity,
    cc: &Vec<Email>,
    date: &str,
    subject: &str,
    body: &str,
) -> (r: Vec<String>)
    ensures
        line_views(r@) == message_text(*sender, *to, cc@, date@, subject@, body@),
{
    let mut r: Vec<String> = Vec::new();
    let mut from = String::from_str("From: ");
    from.append(sender.mailbox().as_str());
    push_line(&mut r, from);
    let mut to_line = String::from_str("To: ");
    to_line.append(to.mailbox().as_str());
    push_line(&mut r, to_line);
    let ghost head = line_views(r@);
    assert(cc@.subrange(0, 0) =~= Seq::<Email>::empty());
    assert(head + cc_lines(cc@.subrange(0, 0)) =~= head);
    let mut k: usize = 0;
    while k < cc.len()
        invariant
            k <= cc@.len(),
            head.len() == 2,
            line_views(r@) == head + cc_lines(cc@.subrange(0, k as int)),
        decreases cc@.len() - k,
    {
        let mut line = String::from_str("Cc: ");
        line.append(cc[k].address().as_str());
        let ghost r0 = r@;
        r.push(line);
        proof {
            lemma_line_views_push(r0, line);
            lemma_cc_lines_step(cc@, k as int);
            assert(head + cc_lines(cc@.subrange(0, k + 1)) =~= (head + cc_lines(cc@.subrange(0, k as int))).push(line@));
        }
        k += 1;
    }
    assert(cc@.subrange(0, cc@.len() as int) =~= cc@);
    let mut date_line = String::from_str("Date: ");
    date_line.append(date);
    push_line(&mut r, date_line);
    let mut subject_line = String::from_str("Subject: ");
    subject_line.append(subject);
    push_line(&mut r, subject_line);
    push_line(&mut r, String::new());
    let ghost before_body = line_views(r@);
    assert(before_body + line_views(Seq::<String>::empty()) =~= before_body);
    let lines = body_data_lines(body);
    let mut j: usize = 0;
    while j < lines.len()
        invariant
            j <= lines@.len(),
            line_views(r@) == before_body + line_views(lines@).subrange(0, j as int),
        decreases lines@.len() - j,
    {
        let line = lines[j].clone();
        let ghost r0 = r@;
        r.push(line);
        proof {
            lemma_line_views_push(r0, line);
            assert(line_views(lines@)[j as int] == line@);
            assert(before_body + line_views(lines@).subrange(0, j + 1) =~= (before_body + line_views(lines@).subrange(0, j as int)).push(line@));
        }
        j += 1;
    }
    push_line(&mut r, String::from_str("."));
    assert(line_views(lines@).subrange(0, lines@.len() as int) =~= line_views(lines@));
    assert(line_views(r@) =~= message_text(*sender, *to, cc@, date@, subject@, body@));
    r
}

} // verus!
