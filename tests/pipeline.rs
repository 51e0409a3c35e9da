use texgen_bot::job::{
    build_source, extract_payload, intake, resolve_visibility, EventKind, Intake, JobRequest,
    Notification, Status, Visibility,
};
use texgen_bot::pipeline::{Action, CompileOutcome, Job, JobCounter, Report, Stage};
use texgen_bot::sanitize::sanitize;

fn mention(content: &str, visibility: Visibility) -> Notification {
    Notification {
        kind: EventKind::Mention,
        account_id: Some("42".to_string()),
        status: Some(Status {
            id: "1001".to_string(),
            author: "alice".to_string(),
            content: content.to_string(),
            visibility,
        }),
    }
}

fn request() -> JobRequest {
    JobRequest {
        source: "SRC".to_string(),
        reply_to: "1001".to_string(),
        author: "alice".to_string(),
        visibility: Visibility::Unlisted,
    }
}

fn compiled_job() -> Job {
    let (mut job, _) = Job::start(7, request(), 30);
    job.step(Report::Done);
    job.step(Report::Done);
    job
}

#[test]
fn sanitize_turns_break_tags_into_newlines() {
    assert_eq!(sanitize("<p>texgen<br>Hello</p>"), Some("texgen\nHello".to_string()));
    assert_eq!(sanitize("a<br />b<br/>c<br  >d"), Some("a\nb\nc\nd".to_string()));
}

#[test]
fn sanitize_strips_tags_before_decoding() {
    assert_eq!(sanitize("&lt;b&gt;x&lt;/b&gt;"), Some("<b>x</b>".to_string()));
    assert_eq!(sanitize("<span class=\"h\">x</span>"), Some("x".to_string()));
}

#[test]
fn sanitize_keeps_unclosed_tag_across_line() {
    assert_eq!(sanitize("a <b\n> c"), Some("a <b\n> c".to_string()));
}

#[test]
fn sanitize_decodes_entities_once_in_order() {
    assert_eq!(sanitize("&amp;lt;"), Some("&lt;".to_string()));
    assert_eq!(sanitize("&quot;x&apos;"), Some("\"x'".to_string()));
}

#[test]
fn sanitize_trims_whitespace() {
    assert_eq!(sanitize("  \t hi there \n "), Some("hi there".to_string()));
    assert_eq!(sanitize("   "), Some(String::new()));
}

#[test]
fn sanitize_rejects_denylisted_constructs() {
    assert_eq!(sanitize("\\directlua{os.exit()}"), None);
    assert_eq!(sanitize("x \\usepackage{shellesc}"), None);
    assert_eq!(sanitize("x\\end{document}y"), None);
}

#[test]
fn sanitize_rejects_constructs_hidden_by_markup() {
    assert_eq!(sanitize("\\direct<span>lua</span>{x}"), None);
    assert_eq!(sanitize("\\use<b></b>package"), None);
    assert_eq!(sanitize("<p>\\end{document}</p>"), None);
}

#[test]
fn sanitize_is_idempotent_on_plain_text() {
    let once = sanitize("  plain text \n with lines  ").unwrap();
    assert_eq!(sanitize(&once), Some(once.clone()));
}

#[test]
fn extract_payload_takes_text_after_trigger() {
    assert_eq!(extract_payload("texgen\nHello"), Some("Hello".to_string()));
    assert_eq!(extract_payload("hi @bot texgen\n$x^2$\ntexgen\nz"), Some("$x^2$\ntexgen\nz".to_string()));
    assert_eq!(extract_payload("texgen\n"), Some(String::new()));
}

#[test]
fn extract_payload_without_trigger_is_none() {
    assert_eq!(extract_payload("texgen Hello"), None);
    assert_eq!(extract_payload(""), None);
}

#[test]
fn build_source_wraps_payload() {
    assert_eq!(
        build_source("PRE", "Hello"),
        "PRE\n\\begin{document}\nHello\n\\end{document}".to_string()
    );
}

#[test]
fn resolve_visibility_never_public() {
    assert_eq!(resolve_visibility(Visibility::Direct), Visibility::Direct);
    assert_eq!(resolve_visibility(Visibility::Public), Visibility::Unlisted);
    assert_eq!(resolve_visibility(Visibility::Private), Visibility::Unlisted);
    assert_eq!(resolve_visibility(Visibility::Unlisted), Visibility::Unlisted);
}

#[test]
fn intake_mention_with_trigger_renders() {
    let r = intake(&mention("<p>texgen<br>Hello</p>", Visibility::Public), "PRE");
    assert_eq!(
        r,
        Intake::Render(JobRequest {
            source: "PRE\n\\begin{document}\nHello\n\\end{document}".to_string(),
            reply_to: "1001".to_string(),
            author: "alice".to_string(),
            visibility: Visibility::Unlisted,
        })
    );
}

#[test]
fn intake_direct_mention_stays_direct() {
    match intake(&mention("texgen\nx", Visibility::Direct), "PRE") {
        Intake::Render(j) => assert_eq!(j.visibility, Visibility::Direct),
        other => panic!("unexpected {:?}", other),
    }
}

#[test]
fn intake_without_trigger_ignores() {
    assert_eq!(intake(&mention("just saying hi", Visibility::Public), "PRE"), Intake::Ignore);
}

#[test]
fn intake_rejected_content_ignores() {
    assert_eq!(intake(&mention("texgen\n\\directlua{}", Visibility::Public), "PRE"), Intake::Ignore);
}

#[test]
fn intake_follow_follows_back() {
    let n = Notification { kind: EventKind::Follow, account_id: Some("42".to_string()), status: None };
    assert_eq!(intake(&n, "PRE"), Intake::Follow { account_id: "42".to_string() });
    let mut with_status = mention("texgen\nHello", Visibility::Public);
    with_status.kind = EventKind::Follow;
    assert_eq!(intake(&with_status, "PRE"), Intake::Follow { account_id: "42".to_string() });
}

#[test]
fn intake_other_and_incomplete_ignore() {
    let mut n = mention("texgen\nHello", Visibility::Public);
    n.kind = EventKind::Other;
    assert_eq!(intake(&n, "PRE"), Intake::Ignore);
    let f = Notification { kind: EventKind::Follow, account_id: None, status: None };
    assert_eq!(intake(&f, "PRE"), Intake::Ignore);
    let m = Notification { kind: EventKind::Mention, account_id: None, status: None };
    assert_eq!(intake(&m, "PRE"), Intake::Ignore);
}

#[test]
fn counter_issues_increasing_ids() {
    let mut c = JobCounter::new();
    let a = c.issue().unwrap();
    let b = c.issue().unwrap();
    let d = c.issue().unwrap();
    assert_eq!((a, b, d), (0, 1, 2));
}

#[test]
fn job_success_path_posts_once_and_removes() {
    let (mut job, first) = Job::start(7, request(), 30);
    assert_eq!(first, Action::CreateWorkspace { dir: "request_7".to_string() });
    assert_eq!(
        job.step(Report::Done),
        Action::WriteSource { path: "request_7/file.tex".to_string(), text: "SRC".to_string() }
    );
    assert_eq!(job.step(Report::Done), Action::Compile { dir: "request_7".to_string(), timeout_sec: 30 });
    assert_eq!(
        job.step(Report::Compiled(CompileOutcome::Success)),
        Action::Upload { path: "request_7/file.png".to_string() }
    );
    assert_eq!(
        job.step(Report::Uploaded { media_id: "m1".to_string(), ready: true }),
        Action::Post {
            target: "@alice".to_string(),
            media_id: "m1".to_string(),
            reply_to: "1001".to_string(),
            visibility: Visibility::Unlisted,
        }
    );
    assert_eq!(job.step(Report::Done), Action::RemoveWorkspace { dir: "request_7".to_string() });
    assert_eq!(job.step(Report::Done), Action::Finish);
    assert_eq!(job.stage, Stage::Finished);
}

#[test]
fn job_pending_upload_is_polled_until_ready() {
    let mut job = compiled_job();
    job.step(Report::Compiled(CompileOutcome::Success));
    assert_eq!(
        job.step(Report::Uploaded { media_id: "m9".to_string(), ready: false }),
        Action::Poll { media_id: "m9".to_string() }
    );
    assert_eq!(job.step(Report::Failed), Action::Poll { media_id: "m9".to_string() });
    assert_eq!(job.step(Report::Polled { ready: false }), Action::Poll { media_id: "m9".to_string() });
    match job.step(Report::Polled { ready: true }) {
        Action::Post { media_id, target, .. } => {
            assert_eq!(media_id, "m9");
            assert_eq!(target, "@alice");
        }
        other => panic!("unexpected {:?}", other),
    }
}

#[test]
fn job_timeout_removes_without_publishing() {
    let mut job = compiled_job();
    assert_eq!(
        job.step(Report::Compiled(CompileOutcome::TimedOut)),
        Action::RemoveWorkspace { dir: "request_7".to_string() }
    );
    assert_eq!(job.step(Report::Done), Action::Finish);
}

#[test]
fn job_compile_failure_removes_workspace() {
    let mut job = compiled_job();
    assert_eq!(
        job.step(Report::Compiled(CompileOutcome::CompileFailed)),
        Action::RemoveWorkspace { dir: "request_7".to_string() }
    );
}

#[test]
fn job_upload_failure_removes_workspace() {
    let mut job = compiled_job();
    job.step(Report::Compiled(CompileOutcome::Success));
    assert_eq!(job.step(Report::Failed), Action::RemoveWorkspace { dir: "request_7".to_string() });
    assert_eq!(job.step(Report::Failed), Action::Finish);
}

#[test]
fn job_write_failure_removes_workspace() {
    let (mut job, _) = Job::start(12, request(), 5);
    job.step(Report::Done);
    assert_eq!(job.step(Report::Failed), Action::RemoveWorkspace { dir: "request_12".to_string() });
}

#[test]
fn job_failed_creation_finishes_without_removal() {
    let (mut job, _) = Job::start(3, request(), 5);
    assert_eq!(job.step(Report::Failed), Action::Finish);
    assert_eq!(job.step(Report::Done), Action::Finish);
}
