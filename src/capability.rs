//! The capability set a server advertises in its EHLO reply, and the
//! parsing of the reply's lines into it.

use vstd::prelude::*;
use crate::error::SmtpError;
use crate::text::{chars_of, line_views};

verus! {

/// A known SMTP service extension.
#[derive(Clone, Copy, Debug, PartialEq, Eq, Structural)]
pub enum Extension {
    EightBitMime,
    Auth,
    Pipelining,
    Chunking,
    Dsn,
    StartTls,
    SmtpUtf8,
}

/// What one EHLO exchange told about the server: the extensions it offers
/// and, where it gave a usable one, its maximum message size.
#[derive(Clone, Copy, Debug, PartialEq, Eq)]
pub struct Capabilities {
    pub eight_bit_mime: bool,
    pub auth: bool,
    pub pipelining: bool,
    pub chunking: bool,
    pub dsn: bool,
    pub starttls: bool,
    pub smtputf8: bool,
    /// Absent where the server sent no `SIZE`, or no positive number with it.
    pub max_size: Option<u64>,
}

/// How one line after the EHLO hello bears on the capability set.
#[derive(Clone, Copy, Debug)]
pub enum Verdict {
    /// A `250` line: the set with its keyword taken into account.
    Added(Capabilities),
    /// No code/rest separator: the capability lines are over.
    Malformed,
    /// Another code than `250`: negotiation fails.
    Refused,
}

pub open spec fn no_capabilities() -> Capabilities {
    Capabilities {
        eight_bit_mime: false,
        auth: false,
        pipelining: false,
        chunking: false,
        dsn: false,
        starttls: false,
        smtputf8: false,
        max_size: None,
    }
}

pub open spec fn supported(c: Capabilities, e: Extension) -> bool {
    match e {
        Extension::EightBitMime => c.eight_bit_mime,
        Extension::Auth => c.auth,
        Extension::Pipelining => c.pipelining,
        Extension::Chunking => c.chunking,
        Extension::Dsn => c.dsn,
        Extension::StartTls => c.starttls,
        Extension::SmtpUtf8 => c.smtputf8,
    }
}

pub open spec fn with_extension(c: Capabilities, e: Extension) -> Capabilities {
    match e {
        Extension::EightBitMime => Capabilities { eight_bit_mime: true, ..c },
        Extension::Auth => Capabilities { auth: true, ..c },
        Extension::Pipelining => Capabilities { pipelining: true, ..c },
        Extension::Chunking => Capabilities { chunking: true, ..c },
        Extension::Dsn => Capabilities { dsn: true, ..c },
        Extension::StartTls => Capabilities { starttls: true, ..c },
        Extension::SmtpUtf8 => Capabilities { smtputf8: true, ..c },
    }
}

/// The keyword by which a server advertises `e`.
pub open spec fn extension_keyword(e: Extension) -> Seq<char> {
    match e {
        Extension::EightBitMime => seq!['8', 'B', 'I', 'T', 'M', 'I', 'M', 'E'],
        Extension::Auth => seq!['A', 'U', 'T', 'H'],
        Extension::Pipelining => seq!['P', 'I', 'P', 'E', 'L', 'I', 'N', 'I', 'N', 'G'],
        Extension::Chunking => seq!['C', 'H', 'U', 'N', 'K', 'I', 'N', 'G'],
        Extension::Dsn => seq!['D', 'S', 'N'],
        Extension::StartTls => seq!['S', 'T', 'A', 'R', 'T', 'T', 'L', 'S'],
        Extension::SmtpUtf8 => seq!['S', 'M', 'T', 'P', 'U', 'T', 'F', '8'],
    }
}

pub open spec fn size_keyword() -> Seq<char> {
    seq!['S', 'I', 'Z', 'E']
}

/// The extension whose keyword is exactly `word` (case-sensitive).
pub open spec fn named_extension(word: Seq<char>) -> Option<Extension> {
    if word == extension_keyword(Extension::EightBitMime) {
        Some(Extension::EightBitMime)
    } else if word == extension_keyword(Extension::Auth) {
        Some(Extension::Auth)
    } else if word == extension_keyword(Extension::Pipelining) {
        Some(Extension::Pipelining)
    } else if word == extension_keyword(Extension::Chunking) {
        Some(Extension::Chunking)
    } else if word == extension_keyword(Extension::Dsn) {
        Some(Extension::Dsn)
    } else if word == extension_keyword(Extension::StartTls) {
        Some(Extension::StartTls)
    } else if word == extension_keyword(Extension::SmtpUtf8) {
        Some(Extension::SmtpUtf8)
    } else {
        None
    }
}

pub open spec fn is_digit(c: char) -> bool {
    '0' <= c && c <= '9'
}

pub open spec fn all_digits(s: Seq<char>) -> bool {
    forall|i: int| 0 <= i < s.len() ==> is_digit(#[trigger] s[i])
}

pub open spec fn digit_value(c: char) -> nat {
    (c as u32 - '0' as u32) as nat
}

/// The number that the decimal digits `s` write.
pub open spec fn decimal_value(s: Seq<char>) -> nat
    decreases s.len(),
{
    if s.len() == 0 {
        0
    } else {
        decimal_value(s.drop_last()) * 10 + digit_value(s.last())
    }
}

/// The maximum message size that a `SIZE` parameter states: a positive
/// decimal number that fits in 64 bits, or nothing.
pub open spec fn parsed_size(s: Seq<char>) -> Option<u64> {
    if s.len() > 0 && all_digits(s) && 0 < decimal_value(s) <= u64::MAX {
        Some(decimal_value(s) as u64)
    } else {
        None
    }
}

/// The first position at or after `i` that holds a space (or, unless
/// `space_only`, a hyphen); the length of `s` where there is none.
pub open spec fn scan(s: Seq<char>, i: int, space_only: bool) -> int
    decreases s.len() - i,
{
    if i < 0 || i >= s.len() {
        s.len() as int
    } else if s[i] == ' ' || (!space_only && s[i] == '-') {
        i
    } else {
        scan(s, i + 1, space_only)
    }
}

/// The first word of a capability's text, up to the first space.
pub open spec fn keyword_of(rest: Seq<char>) -> Seq<char> {
    rest.subrange(0, scan(rest, 0, true))
}

/// What follows the first space of a capability's text.
pub open spec fn parameter_of(rest: Seq<char>) -> Seq<char> {
    let k = scan(rest, 0, true);
    if k < rest.len() {
        rest.subrange(k + 1, rest.len() as int)
    } else {
        Seq::empty()
    }
}

/// `c` updated by one capability's text: a known keyword sets its flag,
/// `SIZE` with a usable number sets the size, anything else changes nothing.
pub open spec fn with_keyword(c: Capabilities, rest: Seq<char>) -> Capabilities {
    let word = keyword_of(rest);
    match named_extension(word) {
        Some(e) => with_extension(c, e),
        None => if word == size_keyword() {
            match parsed_size(parameter_of(rest)) {
                Some(n) => Capabilities { max_size: Some(n), ..c },
                None => c,
            }
        } else {
            c
        },
    }
}

pub open spec fn ok_code() -> Seq<char> {
    seq!['2', '5', '0']
}

/// A capability line split at its first space or hyphen: `Some((code, rest))`.
pub open spec fn split_reply(line: Seq<char>) -> Option<(Seq<char>, Seq<char>)> {
    let i = scan(line, 0, false);
    if i < line.len() {
        Some((line.subrange(0, i), line.subrange(i + 1, line.len() as int)))
    } else {
        None
    }
}

pub open spec fn line_verdict(c: Capabilities, line: Seq<char>) -> Verdict {
    match split_reply(line) {
        None => Verdict::Malformed,
        Some((code, rest)) => if code == ok_code() {
            Verdict::Added(with_keyword(c, rest))
        } else {
            Verdict::Refused
        },
    }
}

/// The outcome of reading the capability lines `lines` (those after the
/// EHLO hello) into `c`: `None` where a line carries another code than 250.
/// A malformed line ends the block; what follows it is not read.
pub open spec fn negotiated(c: Capabilities, lines: Seq<Seq<char>>) -> Option<Capabilities>
    decreases lines.len(),
{
    if lines.len() == 0 {
        Some(c)
    } else {
        match line_verdict(c, lines[0]) {
            Verdict::Added(next) => negotiated(next, lines.drop_first()),
            Verdict::Malformed => Some(c),
            Verdict::Refused => None,
        }
    }
}

/// A line with a code/rest separator whose code is 250.
pub open spec fn is_capability_line(line: Seq<char>) -> bool {
    match split_reply(line) {
        Some((code, _)) => code == ok_code(),
        None => false,
    }
}

/// A line with a code/rest separator whose code is not 250.
pub open spec fn is_refused_line(line: Seq<char>) -> bool {
    match split_reply(line) {
        Some((code, _)) => code != ok_code(),
        None => false,
    }
}

/// The text of a line after its code and separator.
pub open spec fn capability_text(line: Seq<char>) -> Seq<char> {
    match split_reply(line) {
        Some((_, rest)) => rest,
        None => Seq::empty(),
    }
}

/// Some line of `lines` advertises `e` by its keyword.
pub open spec fn advertises(lines: Seq<Seq<char>>, e: Extension) -> bool {
    exists|i: int| 0 <= i < lines.len() && #[trigger] keyword_of(capability_text(lines[i])) == extension_keyword(e)
}

proof fn lemma_keywords_distinct(e1: Extension, e2: Extension)
    ensures
        e1 != e2 ==> extension_keyword(e1) != extension_keyword(e2),
        extension_keyword(e1) != size_keyword(),
{
    assert(extension_keyword(Extension::EightBitMime)[0] == '8');
    assert(extension_keyword(Extension::Auth)[0] == 'A');
    assert(extension_keyword(Extension::Pipelining)[0] == 'P');
    assert(extension_keyword(Extension::Chunking)[0] == 'C');
    assert(extension_keyword(Extension::Dsn)[0] == 'D');
    assert(extension_keyword(Extension::StartTls)[0] == 'S');
    assert(extension_keyword(Extension::StartTls)[1] == 'T');
    assert(extension_keyword(Extension::SmtpUtf8)[0] == 'S');
    assert(extension_keyword(Extension::SmtpUtf8)[1] == 'M');
    assert(size_keyword()[0] == 'S');
    assert(size_keyword()[1] == 'I');
}

proof fn lemma_named_extension(word: Seq<char>, e: Extension)
    ensures
        named_extension(word) == Some(e) <==> word == extension_keyword(e),
        word == size_keyword() ==> named_extension(word) is None,
{
    lemma_keywords_distinct(e, Extension::EightBitMime);
    lemma_keywords_distinct(e, Extension::Auth);
    lemma_keywords_distinct(e, Extension::Pipelining);
    lemma_keywords_distinct(e, Extension::Chunking);
    lemma_keywords_distinct(e, Extension::Dsn);
    lemma_keywords_distinct(e, Extension::StartTls);
    lemma_keywords_distinct(e, Extension::SmtpUtf8);
}

/// Taking one capability's text into the set adds exactly the extension
/// its keyword names, if any.
pub proof fn lemma_with_keyword_supported(c: Capabilities, rest: Seq<char>, e: Extension)
    ensures
        supported(with_keyword(c, rest), e) <==> (supported(c, e) || keyword_of(rest) == extension_keyword(e)),
{
    let word = keyword_of(rest);
    lemma_named_extension(word, e);
    match named_extension(word) {
        Some(e2) => {
            lemma_named_extension(word, e2);
            lemma_keywords_distinct(e, e2);
        },
        None => {},
    }
}

/// Every 250 line of a capability block is read: the negotiated set offers
/// an extension exactly where the starting set did or some line names it.
pub proof fn lemma_negotiation_reads_every_line(c: Capabilities, lines: Seq<Seq<char>>)
    requires
        forall|i: int| 0 <= i < lines.len() ==> is_capability_line(#[trigger] lines[i]),
    ensures
        negotiated(c, lines) is Some,
        forall|e: Extension|
            supported(#[trigger] negotiated(c, lines).unwrap(), e) <==> (supported(c, e) || advertises(lines, e)),
    decreases lines.len(),
{
    if lines.len() > 0 {
        assert(is_capability_line(lines[0]));
        let next = with_keyword(c, capability_text(lines[0]));
        let tail = lines.drop_first();
        assert forall|i: int| 0 <= i < tail.len() implies is_capability_line(#[trigger] tail[i]) by {
            assert(tail[i] == lines[i + 1]);
        }
        lemma_negotiation_reads_every_line(next, tail);
        assert forall|e: Extension|
            supported(#[trigger] negotiated(c, lines).unwrap(), e) <==> (supported(c, e) || advertises(lines, e)) by {
            lemma_with_keyword_supported(c, capability_text(lines[0]), e);
            if advertises(lines, e) {
                let i = choose|i: int| 0 <= i < lines.len() && #[trigger] keyword_of(capability_text(lines[i])) == extension_keyword(e);
                if i > 0 {
                    assert(tail[i - 1] == lines[i]);
                    assert(advertises(tail, e));
                }
            }
            if advertises(tail, e) {
                let i = choose|i: int| 0 <= i < tail.len() && #[trigger] keyword_of(capability_text(tail[i])) == extension_keyword(e);
                assert(tail[i] == lines[i + 1]);
                assert(advertises(lines, e));
            }
            if keyword_of(capability_text(lines[0])) == extension_keyword(e) {
                assert(advertises(lines, e));
            }
        }
    }
}

/// A line with another code than 250, reached before the block ended,
/// fails the whole negotiation.
pub proof fn lemma_refused_line_is_fatal(c: Capabilities, lines: Seq<Seq<char>>, k: int)
    requires
        0 <= k < lines.len(),
        forall|i: int| 0 <= i < k ==> is_capability_line(#[trigger] lines[i]),
        is_refused_line(lines[k]),
    ensures
        negotiated(c, lines) is None,
    decreases k,
{
    let tail = lines.drop_first();
    if k > 0 {
        assert(is_capability_line(lines[0]));
        assert forall|i: int| 0 <= i < k - 1 implies is_capability_line(#[trigger] tail[i]) by {
            assert(tail[i] == lines[i + 1]);
        }
        assert(tail[k - 1] == lines[k]);
        lemma_refused_line_is_fatal(with_keyword(c, capability_text(lines[0])), tail, k - 1);
    }
}

/// A `SIZE` line whose parameter is not a positive number leaves the size
/// as it was: where every `SIZE` line of a block is so, the negotiated size
/// is the starting one (unspecified, for a fresh set).
pub proof fn lemma_unusable_size_leaves_size(c: Capabilities, lines: Seq<Seq<char>>)
    requires
        forall|i: int| 0 <= i < lines.len() ==> is_capability_line(#[trigger] lines[i]),
        forall|i: int|
            0 <= i < lines.len() && keyword_of(capability_text(#[trigger] lines[i])) == size_keyword()
                ==> parsed_size(parameter_of(capability_text(lines[i]))) is None,
    ensures
        negotiated(c, lines) is Some,
        negotiated(c, lines).unwrap().max_size == c.max_size,
    decreases lines.len(),
{
    if lines.len() > 0 {
        assert(is_capability_line(lines[0]));
        let text = capability_text(lines[0]);
        let next = with_keyword(c, text);
        let tail = lines.drop_first();
        assert forall|i: int| 0 <= i < tail.len() implies is_capability_line(#[trigger] tail[i]) by {
            assert(tail[i] == lines[i + 1]);
        }
        assert forall|i: int|
            0 <= i < tail.len() && keyword_of(capability_text(#[trigger] tail[i])) == size_keyword()
                implies parsed_size(parameter_of(capability_text(tail[i]))) is None by {
            assert(tail[i] == lines[i + 1]);
        }
        lemma_named_extension(keyword_of(text), Extension::Auth);
        lemma_unusable_size_leaves_size(next, tail);
    }
}

proof fn lemma_decimal_prefix_monotone(s: Seq<char>, i: int, j: int)
    requires
        0 <= i <= j <= s.len(),
    ensures
        decimal_value(s.subrange(0, i)) <= decimal_value(s.subrange(0, j)),
    decreases j - i,
{
    if i < j {
        lemma_decimal_prefix_monotone(s, i, j - 1);
        assert(s.subrange(0, j).drop_last() =~= s.subrange(0, j - 1));
    }
}

/// First position at or after `from` holding a space (or a hyphen, unless
/// `space_only`); `s.len()` where none does.
fn scan_exec(s: &Vec<char>, from: usize, space_only: bool) -> (r: usize)
    requires
        from <= s@.len(),
    ensures
        r as int == scan(s@, from as int, space_only),
        r <= s@.len(),
{
    let mut i = from;
    while i < s.len()
        invariant
            from <= i <= s@.len(),
            scan(s@, from as int, space_only) == scan(s@, i as int, space_only),
        decreases s@.len() - i,
    {
        if s[i] == ' ' || (!space_only && s[i] == '-') {
            return i;
        }
        i += 1;
    }
    i
}

/// The characters of `s` from `from` up to `to`.
fn slice_chars(s: &Vec<char>, from: usize, to: usize) -> (r: Vec<char>)
    requires
        from <= to <= s@.len(),
    ensures
        r@ == s@.subrange(from as int, to as int),
{
    let mut r: Vec<char> = Vec::new();
    let mut i = from;
    while i < to
        invariant
            from <= i <= to <= s@.len(),
            r@ == s@.subrange(from as int, i as int),
        decreases to - i,
    {
        r.push(s[i]);
        i += 1;
        assert(r@ =~= s@.subrange(from as int, i as int));
    }
    r
}

fn same_chars(a: &Vec<char>, b: &Vec<char>) -> (r: bool)
    ensures
        r == (a@ == b@),
{
    if a.len() != b.len() {
        return false;
    }
    let mut i: usize = 0;
    while i < a.len()
        invariant
            a@.len() == b@.len(),
            i <= a@.len(),
            forall|k: int| 0 <= k < i ==> a@[k] == b@[k],
        decreases a@.len() - i,
    {
        if a[i] != b[i] {
            return false;
        }
        i += 1;
    }
    assert(a@ =~= b@);
    true
}

fn named_extension_exec(word: &Vec<char>) -> (r: Option<Extension>)
    ensures
        r == named_extension(word@),
{
    let eight_bit_mime = vec!['8', 'B', 'I', 'T', 'M', 'I', 'M', 'E'];
    let auth = vec!['A', 'U', 'T', 'H'];
    let pipelining = vec!['P', 'I', 'P', 'E', 'L', 'I', 'N', 'I', 'N', 'G'];
    let chunking = vec!['C', 'H', 'U', 'N', 'K', 'I', 'N', 'G'];
    let dsn = vec!['D', 'S', 'N'];
    let starttls = vec!['S', 'T', 'A', 'R', 'T', 'T', 'L', 'S'];
    let smtputf8 = vec!['S', 'M', 'T', 'P', 'U', 'T', 'F', '8'];
    assert(eight_bit_mime@ =~= extension_keyword(Extension::EightBitMime));
    assert(auth@ =~= extension_keyword(Extension::Auth));
    assert(pipelining@ =~= extension_keyword(Extension::Pipelining));
    assert(chunking@ =~= extension_keyword(Extension::Chunking));
    assert(dsn@ =~= extension_keyword(Extension::Dsn));
    assert(starttls@ =~= extension_keyword(Extension::StartTls));
    assert(smtputf8@ =~= extension_keyword(Extension::SmtpUtf8));
    if same_chars(word, &eight_bit_mime) {
        Some(Extension::EightBitMime)
    } else if same_chars(word, &auth) {
        Some(Extension::Auth)
    } else if same_chars(word, &pipelining) {
        Some(Extension::Pipelining)
    } else if same_chars(word, &chunking) {
        Some(Extension::Chunking)
    } else if same_chars(word, &dsn) {
        Some(Extension::Dsn)
    } else if same_chars(word, &starttls) {
        Some(Extension::StartTls)
    } else if same_chars(word, &smtputf8) {
        Some(Extension::SmtpUtf8)
    } else {
        None
    }
}

/// Reads a `SIZE` parameter: a positive decimal number that fits in 64
/// bits, or `None` for anything else.
pub fn parse_size(s: &Vec<char>) -> (r: Option<u64>)
    ensures
        r == parsed_size(s@),
{
    if s.len() == 0 {
        return None;
    }
    let mut v: u64 = 0;
    let mut i: usize = 0;
    while i < s.len()
        invariant
            i <= s@.len(),
            all_digits(s@.subrange(0, i as int)),
            v as nat == decimal_value(s@.subrange(0, i as int)),
        decreases s@.len() - i,
    {
        let c = s[i];
        if !('0' <= c && c <= '9') {
            assert(!all_digits(s@)) by {
                assert(!is_digit(s@[i as int]));
            }
            return None;
        }
        let d = (c as u32 - '0' as u32) as u64;
        assert(s@.subrange(0, i + 1).drop_last() =~= s@.subrange(0, i as int));
        if v > (u64::MAX - d) / 10 {
            proof {
                assert(v * 10 + d > u64::MAX) by (nonlinear_arith)
                    requires
                        v > (u64::MAX - d) / 10,
                        d <= 9,
                ;
                lemma_decimal_prefix_monotone(s@, i + 1, s@.len() as int);
                assert(s@.subrange(0, s@.len() as int) =~= s@);
            }
            return None;
        }
        assert(v * 10 + d <= u64::MAX) by (nonlinear_arith)
            requires
                v <= (u64::MAX - d) / 10,
                d <= 9,
        ;
        v = v * 10 + d;
        i += 1;
        assert(all_digits(s@.subrange(0, i as int))) by {
            assert forall|k: int| 0 <= k < i implies is_digit(#[trigger] s@.subrange(0, i as int)[k]) by {
                if k < i - 1 {
                    assert(s@.subrange(0, i as int)[k] == s@.subrange(0, i - 1)[k]);
                }
            }
        }
    }
    assert(s@.subrange(0, s@.len() as int) =~= s@);
    if v == 0 {
        None
    } else {
        Some(v)
    }
}

impl Capabilities {
    /// The empty set: no extension, no size.
    pub fn none() -> (r: Capabilities)
        ensures
            r == no_capabilities(),
    {
        Capabilities {
            eight_bit_mime: false,
            auth: false,
            pipelining: false,
            chunking: false,
            dsn: false,
            starttls: false,
            smtputf8: false,
            max_size: None,
        }
    }

    /// Whether the server offered `e`.
    pub fn supports(&self, e: Extension) -> (r: bool)
        ensures
            r == supported(*self, e),
    {
        match e {
            Extension::EightBitMime => self.eight_bit_mime,
            Extension::Auth => self.auth,
            Extension::Pipelining => self.pipelining,
            Extension::Chunking => self.chunking,
            Extension::Dsn => self.dsn,
            Extension::StartTls => self.starttls,
            Extension::SmtpUtf8 => self.smtputf8,
        }
    }

    fn add(&self, e: Extension) -> (r: Capabilities)
        ensures
            r == with_extension(*self, e),
    {
        let mut r = *self;
        match e {
            Extension::EightBitMime => r.eight_bit_mime = true,
            Extension::Auth => r.auth = true,
            Extension::Pipelining => r.pipelining = true,
            Extension::Chunking => r.chunking = true,
            Extension::Dsn => r.dsn = true,
            Extension::StartTls => r.starttls = true,
            Extension::SmtpUtf8 => r.smtputf8 = true,
        }
        r
    }

    /// The set updated by one capability's text (the part after the code).
    pub fn with_keyword(&self, rest: &Vec<char>) -> (r: Capabilities)
        ensures
            r == with_keyword(*self, rest@),
    {
        let k = scan_exec(rest, 0, true);
        let word = slice_chars(rest, 0, k);
        match named_extension_exec(&word) {
            Some(e) => self.add(e),
            None => {
                let size = vec!['S', 'I', 'Z', 'E'];
                assert(size@ =~= size_keyword());
                if same_chars(&word, &size) {
                    let param = if k < rest.len() {
                        slice_chars(rest, k + 1, rest.len())
                    } else {
                        Vec::new()
                    };
                    assert(param@ =~= parameter_of(rest@));
                    match parse_size(&param) {
                        Some(n) => Capabilities { max_size: Some(n), ..*self },
                        None => *self,
                    }
                } else {
                    *self
                }
            },
        }
    }

    /// Classifies one line that follows the EHLO hello and, for a `250`
    /// line, returns the set updated by it.
    pub fn absorb(&self, line: &str) -> (r: Verdict)
        ensures
            r == line_verdict(*self, line@),
    {
        let cs = chars_of(line);
        let i = scan_exec(&cs, 0, false);
        if i >= cs.len() {
            return Verdict::Malformed;
        }
        let code = slice_chars(&cs, 0, i);
        let ok = vec!['2', '5', '0'];
        assert(ok@ =~= ok_code());
        if same_chars(&code, &ok) {
            let rest = slice_chars(&cs, i + 1, cs.len());
            Verdict::Added(self.with_keyword(&rest))
        } else {
            Verdict::Refused
        }
    }
}

/// Reads a block of capability lines (those after the EHLO hello) into a
/// fresh capability set. A line with another code than 250 fails the
/// negotiation with that line; a malformed line ends the block.
pub fn negotiate_capabilities(lines: &Vec<String>) -> (r: Result<Capabilities, SmtpError>)
    ensures
        match negotiated(no_capabilities(), line_views(lines@)) {
            Some(c) => r == Ok::<Capabilities, SmtpError>(c),
            None => exists|k: int|
                0 <= k < lines@.len() && r == Err::<Capabilities, SmtpError>(
                    SmtpError::ProtocolViolation(#[trigger] lines@[k]),
                ),
        },
{
    let ghost all = line_views(lines@);
    let mut c = Capabilities::none();
    let mut i: usize = 0;
    assert(all.subrange(0, all.len() as int) =~= all);
    while i < lines.len()
        invariant
            i <= lines@.len(),
            all == line_views(lines@),
            negotiated(no_capabilities(), all) == negotiated(c, all.subrange(i as int, all.len() as int)),
        decreases lines@.len() - i,
    {
        let ghost tail = all.subrange(i as int, all.len() as int);
        assert(tail[0] == lines@[i as int]@);
        assert(tail.drop_first() =~= all.subrange(i + 1, all.len() as int));
        match c.absorb(lines[i].as_str()) {
            Verdict::Added(next) => {
                c = next;
            },
            Verdict::Malformed => {
                return Ok(c);
            },
            Verdict::Refused => {
                return Err(SmtpError::ProtocolViolation(lines[i].clone()));
            },
        }
        i += 1;
    }
    assert(all.subrange(i as int, all.len() as int).len() == 0);
    Ok(c)
}

} // verus!
