use volf::config::{Config, GithubData};
use volf::errors::VolfError;
use volf::pullrequest::{Progress, Pull};
use volf::server::{BuildOutcome, BuildResult, ServerHandle};
use volf::webhook::{
    accept, event_kind, Comment, Delivery, Event, EventKind, Handled, Issue, IssueComment, Ping,
    PullRequest, PullRequestInner, PullRequestIssue, PullRequestRef, Push, Repository, User,
};

fn tag(event: &Event) -> &'static str {
    match event.kind() {
        EventKind::IssueComment => "issue_comment",
        EventKind::PullRequest => "pull_request",
        EventKind::Push => "push",
        EventKind::Ping => "ping",
    }
}

fn signed_by(names: &[&str], event: &Event) -> Delivery {
    Delivery {
        event: tag(event).to_string(),
        id: "id".to_string(),
        vouchers: names.iter().map(|n| n.to_string()).collect(),
    }
}

fn deliver(srv: &mut ServerHandle, event: Event) -> Handled {
    let names: Vec<String> = event.repo().into_iter().cloned().collect();
    let names: Vec<&str> = names.iter().map(|n| n.as_str()).collect();
    let delivery = signed_by(&names, &event);
    srv.handle_event(&delivery, &event)
}

fn opened(action: &str, repo: &str, number: u64, title: &str) -> Event {
    Event::PullRequest(pull_request(action, repo, number, title))
}

fn said(action: &str, repo: &str, number: Option<u64>, body: &str, sender: &str) -> Event {
    Event::IssueComment(comment(action, repo, number, body, sender))
}

fn config() -> Config {
    Config {
        port: 8080,
        github: GithubData::default(),
        repositories: vec![
            volf::config::Repository {
                name: "org/lib".to_string(),
                required_builds: vec![],
                optional_builds: vec![],
                github_secret: "Jefe".to_string(),
            },
            volf::config::Repository {
                name: "org/app".to_string(),
                required_builds: vec![],
                optional_builds: vec![],
                github_secret: "key".to_string(),
            },
        ],
    }
}

fn user(login: &str) -> User {
    User { login: login.to_string() }
}

fn repository(full_name: &str) -> Repository {
    Repository { full_name: full_name.to_string() }
}

fn end(sha: &str) -> PullRequestRef {
    PullRequestRef { sha: sha.to_string(), user: user("carol"), repo: repository("org/app") }
}

fn pull_request(action: &str, repo: &str, number: u64, title: &str) -> PullRequest {
    PullRequest {
        action: action.to_string(),
        number,
        pull_request: PullRequestInner {
            title: title.to_string(),
            state: "open".to_string(),
            user: user("carol"),
            head: end("aaaa"),
            base: end("bbbb"),
        },
        repository: repository(repo),
        sender: user("carol"),
        body: "please merge".to_string(),
    }
}

fn comment(action: &str, repo: &str, number: Option<u64>, body: &str, sender: &str) -> IssueComment {
    IssueComment {
        action: action.to_string(),
        comment: Comment { user: user(sender), body: body.to_string() },
        issue: Issue {
            number: number.unwrap_or(7),
            body: "issue text".to_string(),
            pull_request: number.map(|n| PullRequestIssue { number: n }),
        },
        repository: repository(repo),
        sender: user(sender),
    }
}

fn opened_42() -> ServerHandle {
    let mut srv = ServerHandle::new(vec![], config());
    assert_eq!(deliver(&mut srv, opened("opened", "org/app", 42, "fix bug")), Handled::Created);
    srv
}

#[test]
fn event_kind_knows_the_four_types() {
    assert_eq!(event_kind("issue_comment"), Ok(EventKind::IssueComment));
    assert_eq!(event_kind("pull_request"), Ok(EventKind::PullRequest));
    assert_eq!(event_kind("push"), Ok(EventKind::Push));
    assert_eq!(event_kind("ping"), Ok(EventKind::Ping));
}

#[test]
fn event_kind_refuses_other_types_by_name() {
    assert_eq!(event_kind("status"), Err(VolfError::SpammyGithub("status".to_string())));
    assert_eq!(event_kind(""), Err(VolfError::SpammyGithub("".to_string())));
    assert_eq!(event_kind("Ping"), Err(VolfError::SpammyGithub("Ping".to_string())));
    assert_eq!(
        event_kind("pull_request_review"),
        Err(VolfError::SpammyGithub("pull_request_review".to_string()))
    );
}

#[test]
fn events_know_their_kind() {
    assert_eq!(Event::Ping(Ping { zen: "z".to_string() }).kind(), EventKind::Ping);
    assert_eq!(
        Event::PullRequest(pull_request("opened", "org/app", 1, "t")).kind(),
        EventKind::PullRequest
    );
    assert_eq!(
        Event::IssueComment(comment("created", "org/app", Some(1), "r+", "alice")).kind(),
        EventKind::IssueComment
    );
}

#[test]
fn opened_pull_request_is_ready_and_unapproved() {
    let srv = opened_42();
    assert_eq!(srv.len(), 1);
    let pr = srv.find("org/app", 42).expect("tracked");
    assert_eq!(pr.repo(), "org/app");
    assert_eq!(pr.num(), 42);
    assert_eq!(pr.title(), "fix bug");
    assert_eq!(*pr.state(), Progress::Ready);
    assert_eq!(*pr.approver(), None);
    assert_eq!(*pr, Pull::new("org/app", 42, "fix bug"));
}

#[test]
fn reopened_pull_request_is_created_too() {
    let mut srv = ServerHandle::new(vec![], config());
    assert_eq!(deliver(&mut srv, opened("reopened", "org/app", 5, "again")), Handled::Created);
    assert_eq!(*srv.find("org/app", 5).unwrap().state(), Progress::Ready);
}

#[test]
fn other_pull_request_actions_are_ignored() {
    let mut srv = ServerHandle::new(vec![], config());
    for action in ["closed", "assigned", "synchronize", "Opened", ""].iter() {
        assert_eq!(deliver(&mut srv, opened(action, "org/app", 5, "t")), Handled::Ignored);
    }
    assert_eq!(srv.len(), 0);
}

#[test]
fn opening_a_tracked_pull_request_again_changes_nothing() {
    let mut srv = opened_42();
    srv.command("org/app", 42, "r+".to_string(), "alice".to_string());
    let again = opened("opened", "org/app", 42, "another title");
    assert_eq!(deliver(&mut srv, again), Handled::Ignored);
    assert_eq!(srv.len(), 1);
    let pr = srv.find("org/app", 42).unwrap();
    assert_eq!(pr.title(), "fix bug");
    assert_eq!(*pr.state(), Progress::Pending);
}

#[test]
fn approving_comment_queues_the_pull_request() {
    let mut srv = opened_42();
    let event = said("created", "org/app", Some(42), "r+", "alice");
    assert_eq!(deliver(&mut srv, event), Handled::Commanded);
    let pr = srv.find("org/app", 42).unwrap();
    assert_eq!(*pr.state(), Progress::Pending);
    assert_eq!(*pr.approver(), Some("alice".to_string()));
}

#[test]
fn tick_after_approval_promotes_once() {
    let mut srv = opened_42();
    deliver(&mut srv, said("created", "org/app", Some(42), "r+", "alice"));
    let builds = srv.queue();
    assert_eq!(builds.len(), 1);
    assert_eq!(builds[0].repo, "org/app");
    assert_eq!(builds[0].number, 42);
    assert_eq!(*srv.find("org/app", 42).unwrap().state(), Progress::Testing);
    assert!(srv.queue().is_empty());
    assert_eq!(*srv.find("org/app", 42).unwrap().state(), Progress::Testing);
}

#[test]
fn failed_build_then_retry_queues_again() {
    let mut srv = opened_42();
    deliver(&mut srv, said("created", "org/app", Some(42), "r+", "alice"));
    srv.queue();
    let res = BuildResult {
        repo: "org/app".to_string(),
        number: 42,
        sha: "deadbeef".to_string(),
        success: false,
    };
    assert_eq!(srv.handle_build_result(&res, false), BuildOutcome::Failed);
    match srv.find("org/app", 42).unwrap().state() {
        Progress::Failure(reason) => assert_eq!(reason, "build failed at deadbeef"),
        other => panic!("unexpected state {:?}", other),
    }
    let retry = said("created", "org/app", Some(42), "retry", "alice");
    assert_eq!(deliver(&mut srv, retry), Handled::Commanded);
    assert_eq!(*srv.find("org/app", 42).unwrap().state(), Progress::Pending);
}

#[test]
fn passed_build_removes_the_pull_request() {
    let mut srv = opened_42();
    deliver(&mut srv, said("created", "org/app", Some(42), "r+", "alice"));
    srv.queue();
    let res = BuildResult {
        repo: "org/app".to_string(),
        number: 42,
        sha: "deadbeef".to_string(),
        success: true,
    };
    assert_eq!(srv.handle_build_result(&res, true), BuildOutcome::Passed);
    assert!(srv.find("org/app", 42).is_none());
    assert_eq!(srv.len(), 0);
    let late = said("created", "org/app", Some(42), "r+", "alice");
    assert_eq!(deliver(&mut srv, late), Handled::Untracked);
}

#[test]
fn passed_build_removes_a_pull_request_that_was_queued_again() {
    let mut srv = opened_42();
    deliver(&mut srv, said("created", "org/app", Some(42), "r+", "alice"));
    srv.queue();
    let mut res = BuildResult {
        repo: "org/app".to_string(),
        number: 42,
        sha: "deadbeef".to_string(),
        success: false,
    };
    srv.handle_build_result(&res, false);
    deliver(&mut srv, said("created", "org/app", Some(42), "retry", "alice"));
    res.success = true;
    assert_eq!(srv.handle_build_result(&res, true), BuildOutcome::Passed);
    assert!(srv.find("org/app", 42).is_none());
    assert_eq!(srv.len(), 0);
}

#[test]
fn comment_on_unknown_number_changes_nothing() {
    let mut srv = opened_42();
    let event = said("created", "org/app", Some(999), "r+", "alice");
    assert_eq!(deliver(&mut srv, event), Handled::Untracked);
    assert_eq!(srv.len(), 1);
    assert_eq!(*srv.find("org/app", 42).unwrap(), Pull::new("org/app", 42, "fix bug"));
    assert!(srv.find("org/app", 999).is_none());
}

#[test]
fn comment_in_another_repository_is_untracked() {
    let mut srv = opened_42();
    let event = said("created", "org/lib", Some(42), "r+", "alice");
    assert_eq!(deliver(&mut srv, event), Handled::Untracked);
    assert_eq!(*srv.find("org/app", 42).unwrap().state(), Progress::Ready);
}

#[test]
fn comment_on_a_plain_issue_is_ignored() {
    let mut srv = opened_42();
    let event = said("created", "org/app", None, "r+", "alice");
    assert_eq!(deliver(&mut srv, event), Handled::Ignored);
    assert_eq!(*srv.find("org/app", 42).unwrap().state(), Progress::Ready);
}

#[test]
fn edited_or_deleted_comment_is_ignored() {
    let mut srv = opened_42();
    for action in ["edited", "deleted", "Created", ""].iter() {
        let event = said(action, "org/app", Some(42), "r+", "alice");
        assert_eq!(deliver(&mut srv, event), Handled::Ignored);
    }
    assert_eq!(*srv.find("org/app", 42).unwrap().state(), Progress::Ready);
}

#[test]
fn commands_are_given_in_the_name_of_the_sender() {
    let mut srv = opened_42();
    let mut data = comment("created", "org/app", Some(42), "r+", "alice");
    data.comment.user = user("mallory");
    assert_eq!(deliver(&mut srv, Event::IssueComment(data)), Handled::Commanded);
    assert_eq!(*srv.find("org/app", 42).unwrap().approver(), Some("alice".to_string()));
}

#[test]
fn comment_goes_to_the_pull_request_number_not_the_issue_number() {
    let mut srv = opened_42();
    let mut data = comment("created", "org/app", Some(42), "r+", "alice");
    data.issue.number = 41;
    assert_eq!(deliver(&mut srv, Event::IssueComment(data)), Handled::Commanded);
    assert_eq!(*srv.find("org/app", 42).unwrap().state(), Progress::Pending);
}

#[test]
fn push_and_ping_change_nothing() {
    let mut srv = opened_42();
    let push = Push {
        after: "bbbb".to_string(),
        before: "aaaa".to_string(),
        repository: repository("org/app"),
        sender: user("carol"),
    };
    assert_eq!(deliver(&mut srv, Event::Push(push)), Handled::Ignored);
    let ping = Ping { zen: "Keep it logically awesome.".to_string() };
    assert_eq!(deliver(&mut srv, Event::Ping(ping)), Handled::Ignored);
    assert_eq!(srv.len(), 1);
    assert_eq!(*srv.find("org/app", 42).unwrap(), Pull::new("org/app", 42, "fix bug"));
}

const FOX: &[u8] = b"The quick brown fox jumps over the lazy dog";
const FOX_SIGNATURE: &str = "sha1=de7c9b85b8b78aa6bc8a7a36f70a90701c9db4d9";

fn some(s: &str) -> Option<String> {
    Some(s.to_string())
}

#[test]
fn signed_delivery_is_let_in() {
    let cfg = config();
    let delivery = accept(&cfg, some("ping"), some("id-1"), some(FOX_SIGNATURE), FOX);
    assert_eq!(
        delivery,
        Some(Delivery {
            event: "ping".to_string(),
            id: "id-1".to_string(),
            vouchers: vec!["org/app".to_string()],
        })
    );
}

#[test]
fn delivery_names_the_repositories_that_signed_it() {
    let mut cfg = config();
    let body = b"what do ya want for nothing?";
    let signature = "sha1=effcdf6ae5eb2fa2d27416d5f184df9c259a7c79";
    let delivery = accept(&cfg, some("push"), some("id-2"), some(signature), body);
    assert_eq!(delivery.expect("let in").vouchers, vec!["org/lib".to_string()]);
    assert_eq!(cfg.vouchers_for(body, signature), vec!["org/lib".to_string()]);
    assert_eq!(cfg.vouchers_for(FOX, signature), Vec::<String>::new());
    cfg.repositories.push(volf::config::Repository {
        name: "org/twin".to_string(),
        required_builds: vec![],
        optional_builds: vec![],
        github_secret: "Jefe".to_string(),
    });
    assert_eq!(
        cfg.vouchers_for(body, signature),
        vec!["org/lib".to_string(), "org/twin".to_string()]
    );
}

#[test]
fn event_about_a_repository_that_did_not_sign_changes_nothing() {
    let mut srv = opened_42();
    let approval = said("created", "org/app", Some(42), "r+", "mallory");
    let by_lib = signed_by(&["org/lib"], &approval);
    assert!(!by_lib.covers_event(&approval));
    assert!(!by_lib.vouched_by("org/app"));
    assert!(by_lib.vouched_by("org/lib"));
    assert_eq!(srv.handle_event(&by_lib, &approval), Handled::Refused);
    assert_eq!(*srv.find("org/app", 42).unwrap(), Pull::new("org/app", 42, "fix bug"));
    let opening = opened("opened", "org/app", 43, "sneaked in");
    assert_eq!(srv.handle_event(&signed_by(&["org/lib"], &opening), &opening), Handled::Refused);
    assert_eq!(srv.handle_event(&signed_by(&[], &opening), &opening), Handled::Refused);
    assert_eq!(srv.len(), 1);
    let by_both = signed_by(&["org/lib", "org/app"], &approval);
    assert!(by_both.covers_event(&approval));
    assert_eq!(srv.handle_event(&by_both, &approval), Handled::Commanded);
    assert_eq!(*srv.find("org/app", 42).unwrap().state(), Progress::Pending);
}

#[test]
fn signed_delivery_for_another_repository_changes_nothing() {
    let cfg = config();
    let mut srv = ServerHandle::new(vec![Pull::new("org/app", 42, "fix bug")], config());
    let body = b"what do ya want for nothing?";
    let signature = "sha1=effcdf6ae5eb2fa2d27416d5f184df9c259a7c79";
    let delivery = accept(&cfg, some("issue_comment"), some("id"), some(signature), body)
        .expect("signed by org/lib");
    let approval = said("created", "org/app", Some(42), "r+", "mallory");
    assert_eq!(srv.handle_event(&delivery, &approval), Handled::Refused);
    assert_eq!(*srv.find("org/app", 42).unwrap(), Pull::new("org/app", 42, "fix bug"));
}

#[test]
fn event_of_another_type_than_the_header_names_changes_nothing() {
    let mut srv = opened_42();
    let approval = said("created", "org/app", Some(42), "r+", "alice");
    for named in ["pull_request", "push", "ping", "status", ""].iter() {
        let delivery = Delivery {
            event: named.to_string(),
            id: "id".to_string(),
            vouchers: vec!["org/app".to_string()],
        };
        assert!(!delivery.covers_event(&approval));
        assert_eq!(srv.handle_event(&delivery, &approval), Handled::Refused);
    }
    assert_eq!(*srv.find("org/app", 42).unwrap(), Pull::new("org/app", 42, "fix bug"));
}

#[test]
fn events_know_their_repository() {
    let ping = Event::Ping(Ping { zen: "z".to_string() });
    assert_eq!(ping.repo(), None);
    assert!(signed_by(&[], &ping).covers_event(&ping));
    assert_eq!(opened("opened", "org/app", 1, "t").repo(), Some(&"org/app".to_string()));
    let comment = said("created", "org/lib", Some(1), "r+", "alice");
    assert_eq!(comment.repo(), Some(&"org/lib".to_string()));
}

#[test]
fn delivery_with_a_missing_header_is_turned_away() {
    let cfg = config();
    assert_eq!(accept(&cfg, None, some("id"), some(FOX_SIGNATURE), FOX), None);
    assert_eq!(accept(&cfg, some("ping"), None, some(FOX_SIGNATURE), FOX), None);
    assert_eq!(accept(&cfg, some("ping"), some("id"), None, FOX), None);
    assert_eq!(accept(&cfg, None, None, None, FOX), None);
}

#[test]
fn delivery_with_a_wrong_signature_is_turned_away() {
    let cfg = config();
    let wrong = [
        "sha1=de7c9b85b8b78aa6bc8a7a36f70a90701c9db4d8",
        "sha1=DE7C9B85B8B78AA6BC8A7A36F70A90701C9DB4D9",
        "de7c9b85b8b78aa6bc8a7a36f70a90701c9db4d9",
        "sha1=de7c9b85b8b78aa6bc8a7a36f70a90701c9db4d",
        "sha1=de7c9b85b8b78aa6bc8a7a36f70a90701c9db4d90",
        "sha1=",
        "",
        "The quick brown fox jumps over the lazy dog",
    ];
    for signature in wrong.iter() {
        assert_eq!(accept(&cfg, some("ping"), some("id"), some(signature), FOX), None);
    }
    let tampered = b"The quick brown fox jumps over the lazy cog";
    assert_eq!(accept(&cfg, some("ping"), some("id"), some(FOX_SIGNATURE), tampered), None);
}

#[test]
fn nothing_is_let_in_without_watched_repositories() {
    let cfg = Config::default();
    assert_eq!(accept(&cfg, some("ping"), some("id"), some(FOX_SIGNATURE), FOX), None);
}
