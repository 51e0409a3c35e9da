use vstd::prelude::*;
use crate::sanitize::{sanitize, sanitized};
use crate::text::{chars_of, contains, find, first_from, matches_at, push_all, string_of};

verus! {

/// The marker line after which a message carries its typesetting source.
pub open spec fn trigger() -> Seq<char> {
    seq!['t', 'e', 'x', 'g', 'e', 'n', '\n']
}

/// Everything after the first trigger in `t`, or none where `t` has no trigger.
pub open spec fn payload_of(t: Seq<char>) -> Option<Seq<char>> {
    let k = first_from(t, 0, trigger());
    if k >= 0 {
        Some(t.subrange(k + trigger().len(), t.len() as int))
    } else {
        None
    }
}

/// The payload that the raw text of a message yields once sanitized.
pub open spec fn job_payload(raw: Seq<char>) -> Option<Seq<char>> {
    match sanitized(raw) {
        Some(t) => payload_of(t),
        None => None,
    }
}

/// The full document: the preamble, then the payload inside a document environment.
pub open spec fn document_source(preamble: Seq<char>, payload: Seq<char>) -> Seq<char> {
    preamble + "\n\\begin{document}\n"@ + payload + "\n\\end{document}"@
}

/// Everything after the first trigger line of sanitized text.
pub fn extract_payload(t: &str) -> (r: Option<String>)
    ensures
        match r {
            Some(p) => payload_of(t@) == Some(p@),
            None => payload_of(t@) is None,
        },
        r is None <==> !contains(t@, trigger()),
{
    let chars = chars_of(t);
    let marker = vec!['t', 'e', 'x', 'g', 'e', 'n', '\n'];
    assert(marker@ =~= trigger());
    match find(&chars, &marker) {
        Some(k) => {
            assert(matches_at(chars@, k as int, marker@));
            assert(k + marker.len() <= chars.len());
            let mut rest: Vec<char> = Vec::new();
            let mut i: usize = k + marker.len();
            while i < chars.len()
                invariant
                    k + marker.len() <= i <= chars.len(),
                    rest@ == chars@.subrange(k + marker.len(), i as int),
                decreases chars.len() - i,
            {
                rest.push(chars[i]);
                i += 1;
                assert(rest@ =~= chars@.subrange(k + marker.len(), i as int));
            }
            Some(string_of(&rest))
        },
        None => None,
    }
}

/// The document that wraps `payload` in the preamble and a document environment.
pub fn build_source(preamble: &str, payload: &str) -> (r: String)
    ensures
        r@ == document_source(preamble@, payload@),
{
    let mut out = chars_of(preamble);
    push_all(&mut out, &chars_of("\n\\begin{document}\n"));
    push_all(&mut out, &chars_of(payload));
    push_all(&mut out, &chars_of("\n\\end{document}"));
    string_of(&out)
}

/// A proof that text without the trigger yields no payload, whatever else it holds.
pub proof fn lemma_no_trigger_no_payload(t: Seq<char>)
    requires
        !contains(t, trigger()),
    ensures
        payload_of(t) is None,
{
    lemma_first_match(t, 0, trigger());
}

proof fn lemma_first_match(s: Seq<char>, i: int, pat: Seq<char>)
    ensures
        first_from(s, i, pat) >= 0 ==> matches_at(s, first_from(s, i, pat), pat),
    decreases s.len() + 1 - i,
{
    if i < 0 || i + pat.len() > s.len() {
    } else if matches_at(s, i, pat) {
    } else {
        lemma_first_match(s, i + 1, pat);
    }
}

/// Who may see a status.
#[derive(Clone, Copy, Debug, PartialEq, Eq, Structural)]
pub enum Visibility {
    Public,
    Unlisted,
    Private,
    Direct,
}

pub open spec fn reply_visibility(v: Visibility) -> Visibility {
    if v == Visibility::Direct {
        Visibility::Direct
    } else {
        Visibility::Unlisted
    }
}

/// The visibility of a reply: direct stays direct, anything else becomes unlisted.
pub fn resolve_visibility(v: Visibility) -> (r: Visibility)
    ensures
        r == reply_visibility(v),
{
    match v {
        Visibility::Direct => Visibility::Direct,
        _ => Visibility::Unlisted,
    }
}

/// What a notification is about.
#[derive(Clone, Copy, Debug, PartialEq, Eq, Structural)]
pub enum EventKind {
    Mention,
    Follow,
    Other,
}

/// A status that a notification refers to.
pub struct Status {
    pub id: String,
    pub author: String,
    pub content: String,
    pub visibility: Visibility,
}

/// A notification from the event source.
pub struct Notification {
    pub kind: EventKind,
    pub account_id: Option<String>,
    pub status: Option<Status>,
}

/// The work that an accepted mention asks for.
#[derive(Debug, PartialEq, Eq)]
pub struct JobRequest {
    pub source: String,
    pub reply_to: String,
    pub author: String,
    pub visibility: Visibility,
}

/// What to do with a notification.
#[derive(Debug, PartialEq, Eq)]
pub enum Intake {
    Ignore,
    Follow { account_id: String },
    Render(JobRequest),
}

/// Decides what a notification asks for: a follow is followed back; a
/// mention whose sanitized text holds the trigger becomes a job whose source
/// wraps what follows the trigger; everything else is ignored.
pub fn intake(n: &Notification, preamble: &str) -> (r: Intake)
    ensures
        n.kind == EventKind::Other ==> r is Ignore,
        n.kind == EventKind::Follow ==> match n.account_id {
            Some(a) => r matches Intake::Follow { account_id } && account_id@ == a@,
            None => r is Ignore,
        },
        n.kind == EventKind::Mention ==> match n.status {
            None => r is Ignore,
            Some(st) => match job_payload(st.content@) {
                None => r is Ignore,
                Some(p) => r matches Intake::Render(j) && j.source@ == document_source(
                    preamble@,
                    p,
                ) && j.reply_to@ == st.id@ && j.author@ == st.author@ && j.visibility
                    == reply_visibility(st.visibility),
            },
        },
        n.status matches Some(st) && sanitized(st.content@) matches Some(t) && !contains(
            t,
            trigger(),
        ) ==> !(r is Render),
{
    match n.kind {
        EventKind::Other => Intake::Ignore,
        EventKind::Follow => match &n.account_id {
            Some(a) => Intake::Follow { account_id: a.clone() },
            None => Intake::Ignore,
        },
        EventKind::Mention => match &n.status {
            None => Intake::Ignore,
            Some(st) => match sanitize(st.content.as_str()) {
                None => Intake::Ignore,
                Some(t) => match extract_payload(t.as_str()) {
                    None => Intake::Ignore,
                    Some(p) => Intake::Render(
                        JobRequest {
                            source: build_source(preamble, p.as_str()),
                            reply_to: st.id.clone(),
                            author: st.author.clone(),
                            visibility: resolve_visibility(st.visibility),
                        },
                    ),
                },
            },
        },
    }
}

} // verus!
