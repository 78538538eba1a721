//! Rendering of a notification subject from its template.

use vstd::prelude::*;
use vstd::string::*;
use crate::text::{chars_of, find_first, first_occurrence, lemma_first_occurrence_unique, occurs_at};

verus! {

/// The placeholder that a subject template may hold: `{title}`.
pub open spec fn title_token() -> Seq<char> {
    seq!['{', 't', 'i', 't', 'l', 'e', '}']
}

/// `subject` with its first `{title}` replaced by `title`; `subject` itself
/// where the placeholder does not occur.
pub open spec fn rendered_subject(subject: Seq<char>, title: Seq<char>) -> Seq<char> {
    if exists|i: int| first_occurrence(subject, title_token(), i) {
        let i = choose|i: int| first_occurrence(subject, title_token(), i);
        subject.subrange(0, i) + title + subject.subrange(i + 7, subject.len() as int)
    } else {
        subject
    }
}

/// Replaces the first occurrence of `{title}` in `subject` with `title`.
/// A template without the placeholder comes back unchanged.
pub fn format_subject_title(subject: &str, title: &str) -> (r: String)
    ensures
        r@ == rendered_subject(subject@, title@),
{
    let hay = chars_of(subject);
    let n = hay.len();
    let token = vec!['{', 't', 'i', 't', 'l', 'e', '}'];
    assert(token@ =~= title_token());
    match find_first(&hay, &token) {
        None => {
            assert(!exists|i: int| first_occurrence(subject@, title_token(), i)) by {
                assert forall|i: int| !first_occurrence(subject@, title_token(), i) by {
                    assert(!occurs_at(hay@, token@, i));
                }
            }
            String::from_str(subject)
        },
        Some(i) => {
            proof {
                assert(occurs_at(hay@, token@, i as int));
                let c = choose|c: int| first_occurrence(subject@, title_token(), c);
                lemma_first_occurrence_unique(subject@, title_token(), i as int, c);
            }
            let mut r = String::from_str(subject.substring_char(0, i));
            r.append(title);
            r.append(subject.substring_char(i + 7, n));
            r
        },
    }
}

} // verus!
