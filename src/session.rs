//! The SMTP client session as a protocol state machine. It performs no I/O:
//! each call returns the action to perform (lines to write, a line to read,
//! a TLS handshake), and the caller feeds back what happened as an event.

use vstd::prelude::*;
use vstd::string::*;
use crate::capability::{line_verdict, no_capabilities, Capabilities, Verdict};
use crate::config::SmtpTlsMode;
use crate::error::SmtpError;
use crate::mail::{
    ehlo_command, ehlo_text, mail_from_command, mail_from_text, message_lines, message_text,
    rcpt_to_command, rcpt_to_text, auth_plain_command, auth_text, base64_of, plain_credentials,
    Email, Identity,
};
use crate::subject::{format_subject_title, rendered_subject};
use crate::text::{chars_of, line_views, push_line};

verus! {

/// Where the session stands.
#[derive(Clone, Copy, Debug, PartialEq, Eq, Structural)]
pub enum SessionState {
    /// Connected; the greeting or the EHLO reply is awaited.
    Connected,
    /// EHLO accepted; the capability lines are being read.
    Greeted,
    /// STARTTLS under way: its reply, the handshake, or the new EHLO.
    TlsUpgrading,
    /// Ready for a command.
    Ready,
    /// Ready for a command, and authenticated.
    Authenticated,
    /// Failed or quit: every further call fails with `SessionClosed`.
    Closed,
}

/// What the session is waiting for.
#[derive(Clone, Copy, Debug, PartialEq, Eq, Structural)]
pub enum Phase {
    Greeting,
    Hello,
    CapabilityLines,
    StartTlsReply,
    Handshake,
    Script,
    Idle,
}

/// What a command sequence is for; it decides the state reached at its end
/// and the error for a wrong reply.
#[derive(Clone, Copy, Debug, PartialEq, Eq, Structural)]
pub enum Purpose {
    Authenticate,
    Mail,
    Quit,
}

/// How long the caller may wait for the line it reads next.
#[derive(Clone, Copy, Debug, PartialEq, Eq, Structural)]
pub enum Wait {
    /// The operation timeout.
    Reply,
    /// The short timeout for capability lines; its expiry ends the list.
    CapabilityLine,
}

/// What happened since the last action.
#[derive(Clone, Debug, PartialEq, Eq)]
pub enum Event {
    /// A line from the server, without its line ending.
    Line(String),
    /// No line came within the wait.
    TimedOut,
    /// The server closed the stream.
    StreamClosed,
    /// The TLS handshake succeeded; the stream is now encrypted.
    TlsEstablished,
    /// The TLS handshake failed.
    TlsFailed,
}

/// What the caller is to do next.
#[derive(Clone, Debug, PartialEq, Eq)]
pub enum Action {
    /// Write these lines (each ended by CRLF), then read one line.
    Exchange { send: Vec<String>, wait: Wait },
    /// Run the TLS handshake over the current stream, then report it.
    UpgradeTls,
    /// The operation is complete; the session is idle.
    Done,
    /// The operation failed.
    Failed(SmtpError),
}

/// The meaning of an [`Action`].
pub enum Reaction {
    Exchange(Seq<Seq<char>>, Wait),
    UpgradeTls,
    Done,
    Failed(SmtpError),
}

impl View for Action {
    type V = Reaction;

    open spec fn view(&self) -> Reaction {
        match self {
            Action::Exchange { send, wait } => Reaction::Exchange(line_views(send@), *wait),
            Action::UpgradeTls => Reaction::UpgradeTls,
            Action::Done => Reaction::Done,
            Action::Failed(e) => Reaction::Failed(*e),
        }
    }
}

/// One command step: lines to write, then the reply code required.
#[derive(Clone, Debug, PartialEq, Eq)]
pub struct Step {
    pub send: Vec<String>,
    pub expect: u16,
}

pub struct StepView {
    pub send: Seq<Seq<char>>,
    pub expect: u16,
}

impl View for Step {
    type V = StepView;

    open spec fn view(&self) -> StepView {
        StepView { send: line_views(self.send@), expect: self.expect }
    }
}

pub open spec fn step_views(steps: Seq<Step>) -> Seq<StepView> {
    steps.map_values(|s: Step| s@)
}

/// The abstract state of a session.
pub struct SessionView {
    pub state: SessionState,
    pub phase: Phase,
    pub capabilities: Capabilities,
    /// The stream has been upgraded to TLS.
    pub upgraded: bool,
    pub tls: SmtpTlsMode,
    /// The name sent with EHLO.
    pub client: Seq<char>,
    pub sender: Identity,
    pub subject_template: Seq<char>,
    /// The command sequence under way, and the step whose reply is awaited.
    pub script: Seq<StepView>,
    pub next: int,
    pub purpose: Purpose,
}

pub open spec fn well_formed(s: SessionView) -> bool {
    s.phase == Phase::Script ==> 0 <= s.next < s.script.len()
}

pub open spec fn digit_char(d: int) -> char {
    if d == 0 { '0' }
    else if d == 1 { '1' }
    else if d == 2 { '2' }
    else if d == 3 { '3' }
    else if d == 4 { '4' }
    else if d == 5 { '5' }
    else if d == 6 { '6' }
    else if d == 7 { '7' }
    else if d == 8 { '8' }
    else { '9' }
}

/// The three digits of a reply code.
pub open spec fn code_digits(code: u16) -> Seq<char> {
    seq![digit_char(code as int / 100), digit_char((code as int / 10) % 10), digit_char(code as int % 10)]
}

/// `line` begins with the three-digit reply code `code`.
pub open spec fn has_code(line: Seq<char>, code: u16) -> bool {
    &&& 100 <= code <= 999
    &&& line.len() >= 3
    &&& line.subrange(0, 3) == code_digits(code)
}

pub open spec fn closed(s: SessionView) -> SessionView {
    SessionView { state: SessionState::Closed, phase: Phase::Idle, ..s }
}

/// The reaction to a timeout or a closed stream while a reply is awaited.
pub open spec fn lost(s: SessionView, e: Event) -> (SessionView, Reaction) {
    (closed(s), Reaction::Failed(if e is TimedOut { SmtpError::Timeout } else { SmtpError::ConnectionClosed }))
}

/// The capability list is over: upgrade to TLS where the policy asks for
/// it and it has not been done, else the session is ready.
pub open spec fn capabilities_done(s: SessionView) -> (SessionView, Reaction) {
    if !s.upgraded && s.tls == SmtpTlsMode::StartTls {
        if s.capabilities.starttls {
            (
                SessionView { state: SessionState::TlsUpgrading, phase: Phase::StartTlsReply, ..s },
                Reaction::Exchange(seq!["STARTTLS"@], Wait::Reply),
            )
        } else {
            (closed(s), Reaction::Failed(SmtpError::TlsNegotiationFailed))
        }
    } else {
        (SessionView { state: SessionState::Ready, phase: Phase::Idle, ..s }, Reaction::Done)
    }
}

/// The state reached when a command sequence completes.
pub open spec fn completed_state(p: Purpose) -> SessionState {
    match p {
        Purpose::Authenticate => SessionState::Authenticated,
        Purpose::Mail => SessionState::Ready,
        Purpose::Quit => SessionState::Closed,
    }
}

/// The error for a reply with the wrong code during a command sequence.
pub open spec fn rejection(p: Purpose, line: String) -> SmtpError {
    match p {
        Purpose::Authenticate => SmtpError::AuthenticationRejected(line),
        _ => SmtpError::ProtocolViolation(line),
    }
}

/// The session's answer to an event: its next state and the action.
pub open spec fn transition(s: SessionView, e: Event) -> (SessionView, Reaction) {
    if s.state == SessionState::Closed {
        (s, Reaction::Failed(SmtpError::SessionClosed))
    } else {
        match s.phase {
            Phase::Greeting => match e {
                Event::Line(l) => if has_code(l@, 220) {
                    (
                        SessionView { phase: Phase::Hello, ..s },
                        Reaction::Exchange(seq![ehlo_text(s.client)], Wait::Reply),
                    )
                } else {
                    (closed(s), Reaction::Failed(SmtpError::UnexpectedGreeting(l)))
                },
                Event::TimedOut | Event::StreamClosed => lost(s, e),
                _ => (closed(s), Reaction::Failed(SmtpError::SessionClosed)),
            },
            Phase::Hello => match e {
                Event::Line(l) => if has_code(l@, 250) {
                    (
                        SessionView {
                            state: if s.upgraded { SessionState::TlsUpgrading } else { SessionState::Greeted },
                            phase: Phase::CapabilityLines,
                            capabilities: no_capabilities(),
                            ..s
                        },
                        Reaction::Exchange(Seq::empty(), Wait::CapabilityLine),
                    )
                } else {
                    (closed(s), Reaction::Failed(SmtpError::UnexpectedHello(l)))
                },
                Event::TimedOut | Event::StreamClosed => lost(s, e),
                _ => (closed(s), Reaction::Failed(SmtpError::SessionClosed)),
            },
            Phase::CapabilityLines => match e {
                Event::Line(l) => match line_verdict(s.capabilities, l@) {
                    Verdict::Added(c) => (
                        SessionView { capabilities: c, ..s },
                        Reaction::Exchange(Seq::empty(), Wait::CapabilityLine),
                    ),
                    Verdict::Malformed => capabilities_done(s),
                    Verdict::Refused => (closed(s), Reaction::Failed(SmtpError::ProtocolViolation(l))),
                },
                Event::TimedOut | Event::StreamClosed => capabilities_done(s),
                _ => (closed(s), Reaction::Failed(SmtpError::SessionClosed)),
            },
            Phase::StartTlsReply => match e {
                Event::Line(l) => if has_code(l@, 220) {
                    (SessionView { phase: Phase::Handshake, ..s }, Reaction::UpgradeTls)
                } else {
                    (closed(s), Reaction::Failed(SmtpError::TlsNegotiationFailed))
                },
                Event::TimedOut | Event::StreamClosed => lost(s, e),
                _ => (closed(s), Reaction::Failed(SmtpError::SessionClosed)),
            },
            Phase::Handshake => match e {
                Event::TlsEstablished => (
                    SessionView { phase: Phase::Hello, upgraded: true, capabilities: no_capabilities(), ..s },
                    Reaction::Exchange(seq![ehlo_text(s.client)], Wait::Reply),
                ),
                _ => (closed(s), Reaction::Failed(SmtpError::TlsNegotiationFailed)),
            },
            Phase::Script => match e {
                Event::Line(l) => if has_code(l@, s.script[s.next].expect) {
                    if s.next + 1 == s.script.len() {
                        (
                            SessionView { state: completed_state(s.purpose), phase: Phase::Idle, ..s },
                            Reaction::Done,
                        )
                    } else {
                        (
                            SessionView { next: s.next + 1, ..s },
                            Reaction::Exchange(s.script[s.next + 1].send, Wait::Reply),
                        )
                    }
                } else {
                    (closed(s), Reaction::Failed(rejection(s.purpose, l)))
                },
                Event::TimedOut | Event::StreamClosed => lost(s, e),
                _ => (closed(s), Reaction::Failed(SmtpError::SessionClosed)),
            },
            Phase::Idle => (closed(s), Reaction::Failed(SmtpError::SessionClosed)),
        }
    }
}

/// The session is idle in a state that takes commands.
pub open spec fn accepts_commands(s: SessionView) -> bool {
    s.phase == Phase::Idle && (s.state == SessionState::Ready || s.state == SessionState::Authenticated)
}

/// Starts a command sequence: the first step's lines are sent.
pub open spec fn begin(s: SessionView, script: Seq<StepView>, p: Purpose) -> (SessionView, Reaction) {
    (
        SessionView { phase: Phase::Script, script, next: 0, purpose: p, ..s },
        Reaction::Exchange(script[0].send, Wait::Reply),
    )
}

pub open spec fn auth_script(username: Option<Seq<char>>, password: Seq<char>) -> Seq<StepView> {
    seq![StepView { send: seq![auth_text(base64_of(plain_credentials(username, password)))], expect: 235 }]
}

pub open spec fn rcpt_steps(cc: Seq<Email>) -> Seq<StepView> {
    cc.map_values(|e: Email| StepView { send: seq![rcpt_to_text(e)], expect: 250 })
}

/// MAIL FROM, RCPT TO for the recipient and each copy recipient, DATA, then
/// the message ended by a lone dot.
pub open spec fn mail_script(
    sender: Identity,
    to: Identity,
    cc: Seq<Email>,
    subject: Seq<char>,
    body: Seq<char>,
    date: Seq<char>,
) -> Seq<StepView> {
    seq![
        StepView { send: seq![mail_from_text(sender.email)], expect: 250 },
        StepView { send: seq![rcpt_to_text(to.email)], expect: 250 },
    ] + rcpt_steps(cc) + seq![
        StepView { send: seq!["DATA"@], expect: 354 },
        StepView { send: message_text(sender, to, cc, date, subject, body), expect: 250 },
    ]
}

pub open spec fn quit_script() -> Seq<StepView> {
    seq![StepView { send: seq!["QUIT"@], expect: 221 }]
}

fn digit_char_exec(d: u16) -> (r: char)
    requires
        d < 10,
    ensures
        r == digit_char(d as int),
{
    if d == 0 { '0' }
    else if d == 1 { '1' }
    else if d == 2 { '2' }
    else if d == 3 { '3' }
    else if d == 4 { '4' }
    else if d == 5 { '5' }
    else if d == 6 { '6' }
    else if d == 7 { '7' }
    else if d == 8 { '8' }
    else { '9' }
}

/// Whether `line` begins with the reply code `code`.
pub fn starts_with_code(line: &str, code: u16) -> (r: bool)
    ensures
        r == has_code(line@, code),
{
    if code < 100 || code > 999 {
        return false;
    }
    let cs = chars_of(line);
    if cs.len() < 3 {
        return false;
    }
    let r = cs[0] == digit_char_exec(code / 100) && cs[1] == digit_char_exec((code / 10) % 10)
        && cs[2] == digit_char_exec(code % 10);
    assert(r ==> cs@.subrange(0, 3) =~= code_digits(code));
    assert(cs@.subrange(0, 3) == code_digits(code) ==> cs@.subrange(0, 3)[0] == cs@[0] && cs@.subrange(0, 3)[1] == cs@[1]
        && cs@.subrange(0, 3)[2] == cs@[2]);
    r
}

fn single(line: String) -> (r: Vec<String>)
    ensures
        line_views(r@) == seq![line@],
{
    let mut r: Vec<String> = Vec::new();
    push_line(&mut r, line);
    assert(line_views(r@) =~= seq![line@]);
    r
}

/// An SMTP client session over one connection.
pub struct Session {
    state: SessionState,
    phase: Phase,
    capabilities: Capabilities,
    upgraded: bool,
    tls: SmtpTlsMode,
    client: String,
    sender: Identity,
    subject_template: String,
    script: Vec<Step>,
    next: usize,
    purpose: Purpose,
}

impl View for Session {
    type V = SessionView;

    closed spec fn view(&self) -> SessionView {
        SessionView {
            state: self.state,
            phase: self.phase,
            capabilities: self.capabilities,
            upgraded: self.upgraded,
            tls: self.tls,
            client: self.client@,
            sender: self.sender,
            subject_template: self.subject_template@,
            script: step_views(self.script@),
            next: self.next as int,
            purpose: self.purpose,
        }
    }
}

fn copy_lines(v: &Vec<String>) -> (r: Vec<String>)
    ensures
        line_views(r@) == line_views(v@),
{
    let mut r: Vec<String> = Vec::new();
    let mut i: usize = 0;
    while i < v.len()
        invariant
            i <= v@.len(),
            line_views(r@) == line_views(v@).subrange(0, i as int),
        decreases v@.len() - i,
    {
        push_line(&mut r, v[i].clone());
        i += 1;
        assert(line_views(r@) =~= line_views(v@).subrange(0, i as int));
    }
    assert(line_views(v@).subrange(0, v@.len() as int) =~= line_views(v@));
    r
}

fn completed_state_exec(p: Purpose) -> (r: SessionState)
    ensures
        r == completed_state(p),
{
    match p {
        Purpose::Authenticate => SessionState::Authenticated,
        Purpose::Mail => SessionState::Ready,
        Purpose::Quit => SessionState::Closed,
    }
}

proof fn lemma_step_views_push(s: Seq<Step>, x: Step)
    ensures
        step_views(s.push(x)) == step_views(s).push(x@),
{
    assert(step_views(s.push(x)) =~= step_views(s).push(x@));
}

fn push_step(steps: &mut Vec<Step>, send: Vec<String>, expect: u16)
    ensures
        step_views(final(steps)@) == step_views(old(steps)@).push(StepView { send: line_views(send@), expect }),
{
    let st = Step { send, expect };
    proof {
        lemma_step_views_push(steps@, st);
    }
    steps.push(st);
}

proof fn lemma_rcpt_steps_step(cc: Seq<Email>, k: int)
    requires
        0 <= k < cc.len(),
    ensures
        rcpt_steps(cc.subrange(0, k + 1)) == rcpt_steps(cc.subrange(0, k)).push(
            StepView { send: seq![rcpt_to_text(cc[k])], expect: 250 },
        ),
{
    assert(rcpt_steps(cc.subrange(0, k + 1)) =~= rcpt_steps(cc.subrange(0, k)).push(
        StepView { send: seq![rcpt_to_text(cc[k])], expect: 250 },
    ));
}

fn mail_steps(
    sender: &Identity,
    to: &Identity,
    cc: &Vec<Email>,
    subject: &str,
    body: &str,
    date: &str,
) -> (r: Vec<Step>)
    ensures
        step_views(r@) == mail_script(*sender, *to, cc@, subject@, body@, date@),
        r@.len() > 0,
{
    let mut r: Vec<Step> = Vec::new();
    push_step(&mut r, single(mail_from_command(&sender.email)), 250);
    push_step(&mut r, single(rcpt_to_command(&to.email)), 250);
    let ghost head = step_views(r@);
    assert(head + rcpt_steps(cc@.subrange(0, 0)) =~= head);
    let mut k: usize = 0;
    while k < cc.len()
        invariant
            k <= cc@.len(),
            step_views(r@) == head + rcpt_steps(cc@.subrange(0, k as int)),
        decreases cc@.len() - k,
    {
        push_step(&mut r, single(rcpt_to_command(&cc[k])), 250);
        proof {
            lemma_rcpt_steps_step(cc@, k as int);
            assert(head + rcpt_steps(cc@.subrange(0, k + 1)) =~= (head + rcpt_steps(cc@.subrange(0, k as int))).push(
                StepView { send: seq![rcpt_to_text(cc@[k as int])], expect: 250 },
            ));
        }
        k += 1;
    }
    assert(cc@.subrange(0, cc@.len() as int) =~= cc@);
    push_step(&mut r, single(String::from_str("DATA")), 354);
    push_step(&mut r, message_lines(sender, to, cc, date, subject, body), 250);
    assert(step_views(r@) =~= mail_script(*sender, *to, cc@, subject@, body@, date@));
    assert(step_views(r@).len() == r@.len());
    r
}

impl Session {
    /// A session on a freshly opened connection, awaiting the greeting.
    /// `client` is the name sent with EHLO. Implicit TLS is not supported.
    pub fn new(client: String, tls: SmtpTlsMode, sender: Identity, subject_template: String) -> (r: Result<
        Session,
        SmtpError,
    >)
        ensures
            tls == SmtpTlsMode::ForceTls ==> r == Err::<Session, SmtpError>(SmtpError::UnsupportedTlsMode),
            tls != SmtpTlsMode::ForceTls ==> (r matches Ok(s) && s@ == (SessionView {
                state: SessionState::Connected,
                phase: Phase::Greeting,
                capabilities: no_capabilities(),
                upgraded: false,
                tls,
                client: client@,
                sender,
                subject_template: subject_template@,
                script: Seq::empty(),
                next: 0,
                purpose: Purpose::Mail,
            })),
    {
        if tls == SmtpTlsMode::ForceTls {
            return Err(SmtpError::UnsupportedTlsMode);
        }
        let s = Session {
            state: SessionState::Connected,
            phase: Phase::Greeting,
            capabilities: Capabilities::none(),
            upgraded: false,
            tls,
            client,
            sender,
            subject_template,
            script: Vec::new(),
            next: 0,
            purpose: Purpose::Mail,
        };
        assert(step_views(s.script@) =~= Seq::<StepView>::empty());
        Ok(s)
    }

    /// Where the session stands.
    pub fn state(&self) -> (r: SessionState)
        ensures
            r == self@.state,
    {
        self.state
    }

    /// The capabilities of the latest EHLO exchange.
    pub fn capabilities(&self) -> (r: Capabilities)
        ensures
            r == self@.capabilities,
    {
        self.capabilities
    }

    fn close(&mut self)
        ensures
            final(self)@ == closed(old(self)@),
    {
        self.state = SessionState::Closed;
        self.phase = Phase::Idle;
    }

    fn lose(&mut self, e: Event) -> (r: Action)
        requires
            e is TimedOut || e is StreamClosed,
        ensures
            (final(self)@, r@) == lost(old(self)@, e),
    {
        self.close();
        match e {
            Event::TimedOut => Action::Failed(SmtpError::Timeout),
            _ => Action::Failed(SmtpError::ConnectionClosed),
        }
    }

    fn out_of_turn(&mut self, err: SmtpError) -> (r: Action)
        ensures
            final(self)@ == closed(old(self)@),
            r@ == Reaction::Failed(err),
    {
        self.close();
        Action::Failed(err)
    }

    fn ehlo(&self) -> (r: Action)
        ensures
            r@ == Reaction::Exchange(seq![ehlo_text(self@.client)], Wait::Reply),
    {
        Action::Exchange { send: single(ehlo_command(self.client.as_str())), wait: Wait::Reply }
    }

    fn finish_capabilities(&mut self) -> (r: Action)
        ensures
            (final(self)@, r@) == capabilities_done(old(self)@),
    {
        if !self.upgraded && self.tls == SmtpTlsMode::StartTls {
            if self.capabilities.starttls {
                self.state = SessionState::TlsUpgrading;
                self.phase = Phase::StartTlsReply;
                Action::Exchange { send: single(String::from_str("STARTTLS")), wait: Wait::Reply }
            } else {
                self.out_of_turn(SmtpError::TlsNegotiationFailed)
            }
        } else {
            self.state = SessionState::Ready;
            self.phase = Phase::Idle;
            Action::Done
        }
    }

    /// Takes in what happened since the last action and returns the next
    /// one, following [`transition`].
    pub fn step(&mut self, e: Event) -> (r: Action)
        requires
            well_formed(old(self)@),
        ensures
            (final(self)@, r@) == transition(old(self)@, e),
            well_formed(final(self)@),
    {
        if self.state == SessionState::Closed {
            return Action::Failed(SmtpError::SessionClosed);
        }
        match self.phase {
            Phase::Greeting => match e {
                Event::Line(l) => if starts_with_code(l.as_str(), 220) {
                    self.phase = Phase::Hello;
                    self.ehlo()
                } else {
                    self.out_of_turn(SmtpError::UnexpectedGreeting(l))
                },
                Event::TimedOut => self.lose(e),
                Event::StreamClosed => self.lose(e),
                _ => self.out_of_turn(SmtpError::SessionClosed),
            },
            Phase::Hello => match e {
                Event::Line(l) => if starts_with_code(l.as_str(), 250) {
                    self.state = if self.upgraded {
                        SessionState::TlsUpgrading
                    } else {
                        SessionState::Greeted
                    };
                    self.phase = Phase::CapabilityLines;
                    self.capabilities = Capabilities::none();
                    let none: Vec<String> = Vec::new();
                    assert(line_views(none@) =~= Seq::<Seq<char>>::empty());
                    Action::Exchange { send: none, wait: Wait::CapabilityLine }
                } else {
                    self.out_of_turn(SmtpError::UnexpectedHello(l))
                },
                Event::TimedOut => self.lose(e),
                Event::StreamClosed => self.lose(e),
                _ => self.out_of_turn(SmtpError::SessionClosed),
            },
            Phase::CapabilityLines => match e {
                Event::Line(l) => match self.capabilities.absorb(l.as_str()) {
                    Verdict::Added(c) => {
                        self.capabilities = c;
                        let none: Vec<String> = Vec::new();
                        assert(line_views(none@) =~= Seq::<Seq<char>>::empty());
                        Action::Exchange { send: none, wait: Wait::CapabilityLine }
                    },
                    Verdict::Malformed => self.finish_capabilities(),
                    Verdict::Refused => self.out_of_turn(SmtpError::ProtocolViolation(l)),
                },
                Event::TimedOut => self.finish_capabilities(),
                Event::StreamClosed => self.finish_capabilities(),
                _ => self.out_of_turn(SmtpError::SessionClosed),
            },
            Phase::StartTlsReply => match e {
                Event::Line(l) => if starts_with_code(l.as_str(), 220) {
                    self.phase = Phase::Handshake;
                    Action::UpgradeTls
                } else {
                    self.out_of_turn(SmtpError::TlsNegotiationFailed)
                },
                Event::TimedOut => self.lose(e),
                Event::StreamClosed => self.lose(e),
                _ => self.out_of_turn(SmtpError::SessionClosed),
            },
            Phase::Handshake => match e {
                Event::TlsEstablished => {
                    self.phase = Phase::Hello;
                    self.upgraded = true;
                    self.capabilities = Capabilities::none();
                    self.ehlo()
                },
                _ => self.out_of_turn(SmtpError::TlsNegotiationFailed),
            },
            Phase::Script => match e {
                Event::Line(l) => {
                    let len = self.script.len();
                    assert(self.next < len);
                    let expect = self.script[self.next].expect;
                    if starts_with_code(l.as_str(), expect) {
                        if self.next + 1 == len {
                            self.state = completed_state_exec(self.purpose);
                            self.phase = Phase::Idle;
                            Action::Done
                        } else {
                            self.next = self.next + 1;
                            Action::Exchange { send: copy_lines(&self.script[self.next].send), wait: Wait::Reply }
                        }
                    } else {
                        match self.purpose {
                            Purpose::Authenticate => self.out_of_turn(SmtpError::AuthenticationRejected(l)),
                            _ => self.out_of_turn(SmtpError::ProtocolViolation(l)),
                        }
                    }
                },
                Event::TimedOut => self.lose(e),
                Event::StreamClosed => self.lose(e),
                _ => self.out_of_turn(SmtpError::SessionClosed),
            },
            Phase::Idle => self.out_of_turn(SmtpError::SessionClosed),
        }
    }
}

impl Session {
    fn begin_script(&mut self, script: Vec<Step>, purpose: Purpose) -> (r: Action)
        requires
            script@.len() > 0,
        ensures
            (final(self)@, r@) == begin(old(self)@, step_views(script@), purpose),
            well_formed(final(self)@),
    {
        let first = copy_lines(&script[0].send);
        self.script = script;
        self.next = 0;
        self.purpose = purpose;
        self.phase = Phase::Script;
        Action::Exchange { send: first, wait: Wait::Reply }
    }

    /// Sends `AUTH PLAIN` with the credentials and requires code 235.
    /// Only a ready, not yet authenticated session takes it; otherwise the
    /// session is left as it is and the call fails with `SessionClosed`.
    pub fn authenticate(&mut self, username: Option<&str>, password: &str) -> (r: Action)
        requires
            well_formed(old(self)@),
        ensures
            well_formed(final(self)@),
            old(self)@.phase == Phase::Idle && old(self)@.state == SessionState::Ready ==> (final(self)@, r@)
                == begin(
                old(self)@,
                auth_script(
                    match username {
                        Some(u) => Some(u@),
                        None => None,
                    },
                    password@,
                ),
                Purpose::Authenticate,
            ),
            !(old(self)@.phase == Phase::Idle && old(self)@.state == SessionState::Ready) ==> final(self)@
                == old(self)@ && r@ == Reaction::Failed(SmtpError::SessionClosed),
    {
        if !(self.phase == Phase::Idle && self.state == SessionState::Ready) {
            return Action::Failed(SmtpError::SessionClosed);
        }
        let mut script: Vec<Step> = Vec::new();
        push_step(&mut script, single(auth_plain_command(username, password)), 235);
        assert(step_views(script@) =~= auth_script(
            match username {
                Some(u) => Some(u@),
                None => None,
            },
            password@,
        ));
        self.begin_script(script, Purpose::Authenticate)
    }

    /// Sends one message: MAIL FROM, RCPT TO for `to` and for each of `cc`,
    /// DATA, then the headers (with `date` and the subject rendered from the
    /// session's template and `title`), the body and the final dot. Each
    /// step requires its code; the first wrong reply fails the whole send.
    /// Only an idle, ready session takes it; otherwise the session is left as
    /// it is and the call fails with `SessionClosed`.
    pub fn send_mail(&mut self, to: &Identity, cc: &Vec<Email>, title: &str, body: &str, date: &str) -> (r:
        Action)
        requires
            well_formed(old(self)@),
        ensures
            well_formed(final(self)@),
            accepts_commands(old(self)@) ==> (final(self)@, r@) == begin(
                old(self)@,
                mail_script(
                    old(self)@.sender,
                    *to,
                    cc@,
                    rendered_subject(old(self)@.subject_template, title@),
                    body@,
                    date@,
                ),
                Purpose::Mail,
            ),
            !accepts_commands(old(self)@) ==> final(self)@ == old(self)@ && r@ == Reaction::Failed(
                SmtpError::SessionClosed,
            ),
    {
        if !(self.phase == Phase::Idle && (self.state == SessionState::Ready || self.state
            == SessionState::Authenticated)) {
            return Action::Failed(SmtpError::SessionClosed);
        }
        let subject = format_subject_title(self.subject_template.as_str(), title);
        let script = mail_steps(&self.sender, to, cc, subject.as_str(), body, date);
        self.begin_script(script, Purpose::Mail)
    }

    /// Sends QUIT and requires code 221; the session is then closed.
    /// Only an idle, ready session takes it; otherwise the session is left as
    /// it is and the call fails with `SessionClosed`.
    pub fn quit(&mut self) -> (r: Action)
        requires
            well_formed(old(self)@),
        ensures
            well_formed(final(self)@),
            accepts_commands(old(self)@) ==> (final(self)@, r@) == begin(old(self)@, quit_script(), Purpose::Quit),
            !accepts_commands(old(self)@) ==> final(self)@ == old(self)@ && r@ == Reaction::Failed(
                SmtpError::SessionClosed,
            ),
    {
        if !(self.phase == Phase::Idle && (self.state == SessionState::Ready || self.state
            == SessionState::Authenticated)) {
            return Action::Failed(SmtpError::SessionClosed);
        }
        let mut script: Vec<Step> = Vec::new();
        push_step(&mut script, single(String::from_str("QUIT")), 221);
        assert(step_views(script@) =~= quit_script());
        self.begin_script(script, Purpose::Quit)
    }
}

} // verus!
