use vstd::prelude::*;
use crate::job::{JobRequest, Visibility};
use crate::text::{chars_of, push_all, string_of};

verus! {

/// Issues job identifiers: each one once, in increasing order.
pub struct JobCounter {
    next: u64,
}

/// One issue of the counter: `before` hands out `id` and becomes `after`.
pub open spec fn issue_step(before: JobCounter, after: JobCounter, id: Option<u64>) -> bool {
    if before.upcoming() < u64::MAX {
        id matches Some(k) && k == before.upcoming() && after.upcoming() == before.upcoming() + 1
    } else {
        id is None && after.upcoming() == before.upcoming()
    }
}

impl JobCounter {
    /// The identifier that the next issue hands out.
    pub closed spec fn upcoming(&self) -> nat {
        self.next as nat
    }

    /// A counter whose first identifier is 0.
    pub fn new() -> (r: JobCounter)
        ensures
            r.upcoming() == 0,
    {
        JobCounter { next: 0 }
    }

    /// The next identifier, or none once every `u64` has been handed out.
    pub fn issue(&mut self) -> (r: Option<u64>)
        ensures
            issue_step(*old(self), *final(self), r),
    {
        if self.next < u64::MAX {
            let id = self.next;
            self.next = self.next + 1;
            Some(id)
        } else {
            None
        }
    }
}

/// Identifiers issued one after another by a counter are strictly increasing,
/// hence pairwise distinct.
pub proof fn lemma_issued_ids_increase(states: Seq<JobCounter>, ids: Seq<u64>)
    requires
        states.len() == ids.len() + 1,
        forall|i: int| 0 <= i < ids.len() ==> issue_step(states[i], states[i + 1], Some(ids[i])),
    ensures
        forall|i: int, j: int| 0 <= i < j < ids.len() ==> ids[i] < ids[j],
{
    assert forall|i: int| 0 <= i < ids.len() implies ids[i] == states[0].upcoming() + i by {
        lemma_counter_offset(states, ids, i);
    }
}

proof fn lemma_counter_offset(states: Seq<JobCounter>, ids: Seq<u64>, i: int)
    requires
        states.len() == ids.len() + 1,
        forall|k: int| 0 <= k < ids.len() ==> issue_step(states[k], states[k + 1], Some(ids[k])),
        0 <= i < ids.len(),
    ensures
        ids[i] == states[0].upcoming() + i,
        states[i + 1].upcoming() == states[0].upcoming() + i + 1,
    decreases i,
{
    assert(issue_step(states[i], states[i + 1], Some(ids[i])));
    if i > 0 {
        lemma_counter_offset(states, ids, i - 1);
    }
}

/// What the compile step came to.
#[derive(Clone, Copy, Debug, PartialEq, Eq, Structural)]
pub enum CompileOutcome {
    Success,
    CompileFailed,
    TimedOut,
}

/// Where a job stands.
#[derive(Clone, Copy, Debug, PartialEq, Eq, Structural)]
pub enum Stage {
    Creating,
    Writing,
    Compiling,
    Uploading,
    Polling,
    Posting,
    Removing,
    Finished,
}

/// What the last action came to, as reported by whoever performed it.
#[derive(Debug, PartialEq, Eq)]
pub enum Report {
    Done,
    Failed,
    Compiled(CompileOutcome),
    Uploaded { media_id: String, ready: bool },
    Polled { ready: bool },
}

/// The next thing to do for a job.
#[derive(Debug, PartialEq, Eq)]
pub enum Action {
    CreateWorkspace { dir: String },
    WriteSource { path: String, text: String },
    Compile { dir: String, timeout_sec: u64 },
    Upload { path: String },
    Poll { media_id: String },
    Post { target: String, media_id: String, reply_to: String, visibility: Visibility },
    RemoveWorkspace { dir: String },
    Finish,
}

/// One job, from its workspace's creation to its removal.
pub struct Job {
    pub id: u64,
    pub dir: String,
    pub request: JobRequest,
    pub timeout_sec: u64,
    pub stage: Stage,
    pub media_id: String,
}

/// The stages in which the job's workspace exists and is not yet being removed.
pub open spec fn owns_workspace(s: Stage) -> bool {
    s == Stage::Writing || s == Stage::Compiling || s == Stage::Uploading || s == Stage::Polling
        || s == Stage::Posting
}

/// The stage that follows `s` on report `r`.
pub open spec fn next_stage(s: Stage, r: Report) -> Stage {
    match s {
        Stage::Creating => if r is Done {
            Stage::Writing
        } else {
            Stage::Finished
        },
        Stage::Writing => if r is Done {
            Stage::Compiling
        } else {
            Stage::Removing
        },
        Stage::Compiling => if r == Report::Compiled(CompileOutcome::Success) {
            Stage::Uploading
        } else {
            Stage::Removing
        },
        Stage::Uploading => match r {
            Report::Uploaded { ready, .. } => if ready {
                Stage::Posting
            } else {
                Stage::Polling
            },
            _ => Stage::Removing,
        },
        Stage::Polling => match r {
            Report::Polled { ready } => if ready {
                Stage::Posting
            } else {
                Stage::Polling
            },
            Report::Failed => Stage::Polling,
            _ => Stage::Removing,
        },
        Stage::Posting => Stage::Removing,
        Stage::Removing => Stage::Finished,
        Stage::Finished => Stage::Finished,
    }
}

/// Once created, a workspace is left only through its removal: from a stage
/// that owns it every report leads to another such stage or to `Removing`;
/// a failed or timed-out compile goes straight to `Removing`, never to an
/// upload; `Removing` always ends the job; and a job ends only there, or
/// where the workspace could not be created.
pub proof fn lemma_workspace_always_removed(s: Stage, r: Report)
    ensures
        owns_workspace(s) ==> owns_workspace(next_stage(s, r)) || next_stage(s, r)
            == Stage::Removing,
        s == Stage::Compiling && r != Report::Compiled(CompileOutcome::Success) ==> next_stage(
            s,
            r,
        ) == Stage::Removing,
        s == Stage::Removing ==> next_stage(s, r) == Stage::Finished,
        next_stage(s, r) == Stage::Finished ==> s == Stage::Removing || s == Stage::Finished || (s
            == Stage::Creating && !(r is Done)),
{
}

pub open spec fn dir_name(id: u64) -> Seq<char> {
    "request_"@ + decimal(id as nat)
}

/// The decimal digits of `n`, most significant first.
pub open spec fn decimal(n: nat) -> Seq<char>
    decreases n,
{
    if n < 10 {
        seq![digit(n)]
    } else {
        decimal(n / 10) + seq![digit(n % 10)]
    }
}

pub open spec fn digit(d: nat) -> char {
    (('0' as u32) + d) as char
}

/// Relies on `u64`'s `ToString`: its decimal digits, most significant first.
#[verifier::external_body]
fn decimal_string(n: u64) -> (r: String)
    ensures
        r@ == decimal(n as nat),
{
    n.to_string()
}

/// `dir`, a slash, then `name`.
fn join(dir: &String, name: &str) -> (r: String)
    ensures
        r@ == dir@ + "/"@ + name@,
{
    let mut out = chars_of(dir.as_str());
    push_all(&mut out, &chars_of("/"));
    push_all(&mut out, &chars_of(name));
    string_of(&out)
}

/// `@` and the handle, the address of a reply.
fn mention_of(author: &String) -> (r: String)
    ensures
        r@ == "@"@ + author@,
{
    let mut out = chars_of("@");
    push_all(&mut out, &chars_of(author.as_str()));
    string_of(&out)
}

/// The reply that a stage-changing step to `Posting` sends.
pub open spec fn is_post_of(a: Action, job: Job, media_id: Seq<char>) -> bool {
    a matches Action::Post { target, media_id: m, reply_to, visibility } && target@ == "@"@
        + job.request.author@ && m@ == media_id && reply_to@ == job.request.reply_to@
        && visibility == job.request.visibility
}

impl Job {
    /// A job for `request` under identifier `id`; its first action creates
    /// the workspace `request_<id>`.
    pub fn start(id: u64, request: JobRequest, timeout_sec: u64) -> (r: (Job, Action))
        ensures
            r.0.id == id,
            r.0.dir@ == dir_name(id),
            r.0.request == request,
            r.0.timeout_sec == timeout_sec,
            r.0.stage == Stage::Creating,
            r.1 matches Action::CreateWorkspace { dir } && dir@ == dir_name(id),
    {
        let mut dir_chars = chars_of("request_");
        push_all(&mut dir_chars, &chars_of(decimal_string(id).as_str()));
        let dir = string_of(&dir_chars);
        let action = Action::CreateWorkspace { dir: dir.clone() };
        (Job { id, dir, request, timeout_sec, stage: Stage::Creating, media_id: String::new() }, action)
    }

    /// Takes the report on the last action and returns the next one. A
    /// workspace, once created, is always removed: every failure, a failed or
    /// timed-out compile included, leads to its removal, and so does a posted
    /// reply. A pending upload is polled until it is ready.
    pub fn step(&mut self, report: Report) -> (a: Action)
        ensures
            final(self).stage == next_stage(old(self).stage, report),
            final(self).id == old(self).id,
            final(self).dir == old(self).dir,
            final(self).request == old(self).request,
            final(self).timeout_sec == old(self).timeout_sec,
            final(self).stage == Stage::Removing && old(self).stage != Stage::Removing
                ==> (a matches Action::RemoveWorkspace { dir } && dir@ == old(self).dir@),
            final(self).stage == Stage::Finished ==> a is Finish,
            old(self).stage == Stage::Creating && final(self).stage == Stage::Writing
                ==> (a matches Action::WriteSource { path, text } && path@ == old(self).dir@
                + "/"@ + "file.tex"@ && text@ == old(self).request.source@),
            old(self).stage == Stage::Writing && final(self).stage == Stage::Compiling
                ==> (a matches Action::Compile { dir, timeout_sec } && dir@ == old(self).dir@
                && timeout_sec == old(self).timeout_sec),
            final(self).stage == Stage::Uploading ==> (a matches Action::Upload { path } && path@
                == old(self).dir@ + "/"@ + "file.png"@),
            old(self).stage == Stage::Uploading && final(self).stage == Stage::Polling
                ==> (report matches Report::Uploaded { media_id, .. } && final(self).media_id@
                == media_id@),
            old(self).stage == Stage::Polling ==> final(self).media_id == old(self).media_id,
            final(self).stage == Stage::Polling ==> (a matches Action::Poll { media_id }
                && media_id@ == final(self).media_id@),
            final(self).stage == Stage::Posting ==> is_post_of(
                a,
                *old(self),
                final(self).media_id@,
            ),
            old(self).stage == Stage::Uploading && final(self).stage == Stage::Posting
                ==> (report matches Report::Uploaded { media_id, .. } && final(self).media_id@
                == media_id@),
    {
        match self.stage {
            Stage::Creating => {
                if let Report::Done = report {
                    self.stage = Stage::Writing;
                    Action::WriteSource {
                        path: join(&self.dir, "file.tex"),
                        text: self.request.source.clone(),
                    }
                } else {
                    self.stage = Stage::Finished;
                    Action::Finish
                }
            },
            Stage::Writing => {
                if let Report::Done = report {
                    self.stage = Stage::Compiling;
                    Action::Compile { dir: self.dir.clone(), timeout_sec: self.timeout_sec }
                } else {
                    self.remove()
                }
            },
            Stage::Compiling => {
                if let Report::Compiled(CompileOutcome::Success) = report {
                    self.stage = Stage::Uploading;
                    Action::Upload { path: join(&self.dir, "file.png") }
                } else {
                    self.remove()
                }
            },
            Stage::Uploading => {
                match report {
                    Report::Uploaded { media_id, ready } => {
                        self.media_id = media_id;
                        if ready {
                            self.stage = Stage::Posting;
                            self.post()
                        } else {
                            self.stage = Stage::Polling;
                            Action::Poll { media_id: self.media_id.clone() }
                        }
                    },
                    _ => self.remove(),
                }
            },
            Stage::Polling => {
                match report {
                    Report::Polled { ready } => {
                        if ready {
                            self.stage = Stage::Posting;
                            self.post()
                        } else {
                            Action::Poll { media_id: self.media_id.clone() }
                        }
                    },
                    Report::Failed => Action::Poll { media_id: self.media_id.clone() },
                    _ => self.remove(),
                }
            },
            Stage::Posting => self.remove(),
            Stage::Removing => {
                self.stage = Stage::Finished;
                Action::Finish
            },
            Stage::Finished => Action::Finish,
        }
    }

    fn remove(&mut self) -> (a: Action)
        ensures
            *final(self) == (Job { stage: Stage::Removing, ..*old(self) }),
            a matches Action::RemoveWorkspace { dir } && dir@ == old(self).dir@,
    {
        self.stage = Stage::Removing;
        Action::RemoveWorkspace { dir: self.dir.clone() }
    }

    fn post(&self) -> (a: Action)
        ensures
            is_post_of(a, *self, self.media_id@),
    {
        Action::Post {
            target: mention_of(&self.request.author),
            media_id: self.media_id.clone(),
            reply_to: self.request.reply_to.clone(),
            visibility: self.request.visibility,
        }
    }
}

} // verus!
