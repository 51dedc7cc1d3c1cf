use volf::api::client::{
    comments, fault, hook, issues, ping, Credentials, Github, Request, DEFAULT_HOST, MAX_PART,
};
use volf::api::pulls::{Commit, Pull, PullOptions, PullRequest, PullRequests};
use volf::api::repos::{Repo, RepoListOptions, Repositories, Repository};
use volf::text::decimal;

#[test]
fn decimal_writes_numbers_without_leading_zeros() {
    assert_eq!(decimal(0), "0");
    assert_eq!(decimal(7), "7");
    assert_eq!(decimal(10), "10");
    assert_eq!(decimal(42), "42");
    assert_eq!(decimal(1234567890), "1234567890");
    assert_eq!(decimal(u64::MAX), "18446744073709551615");
    for n in 0..2000u64 {
        assert_eq!(decimal(n), n.to_string());
    }
}

#[test]
fn github_lives_at_the_default_host_unless_told_otherwise() {
    let github = Github::new("volf", Credentials::Anonymous);
    assert_eq!(DEFAULT_HOST, "https://api.github.com");
    assert_eq!(github.host, "https://api.github.com");
    assert_eq!(github.agent, "volf");
    assert_eq!(github.credentials, Credentials::Anonymous);
    let own = Github::host("https://git.example.com/api/v3", "bot", Credentials::Anonymous);
    assert_eq!(own.host, "https://git.example.com/api/v3");
    assert_eq!(own.agent, "bot");
}

#[test]
fn request_says_who_asks() {
    let github = Github::new("volf", Credentials::Token("abc123".to_string()));
    assert_eq!(
        github.request_to("https://example.com/x".to_string()),
        Request {
            url: "https://example.com/x".to_string(),
            authorization: Some("token abc123".to_string()),
            agent: "volf".to_string(),
        }
    );
    let client = Github::new("bot", Credentials::Client("id".to_string(), "s".to_string()));
    assert_eq!(client.request_to("u".to_string()).authorization, None);
    assert_eq!(client.request_to("u".to_string()).agent, "bot");
}

#[test]
fn anonymous_request_goes_out_as_it_is() {
    let github = Github::new("volf", Credentials::Anonymous);
    assert_eq!(
        github.authenticate("/user/repos"),
        Some(Request {
            url: "https://api.github.com/user/repos".to_string(),
            authorization: None,
            agent: "volf".to_string(),
        })
    );
}

#[test]
fn token_goes_into_the_authorization_header() {
    let github = Github::new("volf", Credentials::Token("abc123".to_string()));
    assert_eq!(
        github.authenticate("/repos/org/app/pulls"),
        Some(Request {
            url: "https://api.github.com/repos/org/app/pulls".to_string(),
            authorization: Some("token abc123".to_string()),
            agent: "volf".to_string(),
        })
    );
}

#[test]
fn client_id_and_secret_go_into_the_query() {
    let credentials = Credentials::Client("my id".to_string(), "s&cret=1".to_string());
    let github = Github::new("volf", credentials);
    assert_eq!(
        github.authenticate("/user/repos"),
        Some(Request {
            url: "https://api.github.com/user/repos?client_id=my+id&client_secret=s%26cret%3D1"
                .to_string(),
            authorization: None,
            agent: "volf".to_string(),
        })
    );
    let request = github.authenticate("/user/repos?page=2#top").expect("an address");
    assert_eq!(
        request.url,
        "https://api.github.com/user/repos?page=2&client_id=my+id&client_secret=s%26cret%3D1#top"
    );
}

#[test]
fn client_request_to_what_is_no_address_fails() {
    let credentials = || Credentials::Client("id".to_string(), "secret".to_string());
    let github = Github::host("not an address", "volf", credentials());
    assert_eq!(github.authenticate("/user/repos"), None);
    let empty = Github::host("", "volf", credentials());
    assert_eq!(empty.authenticate(""), None);
    let anonymous = Github::host("not an address", "volf", Credentials::Anonymous);
    assert_eq!(anonymous.authenticate("/x").expect("unchecked").url, "not an address/x");
}

#[test]
fn client_request_with_an_overlong_part_fails() {
    let long = "a".repeat(MAX_PART + 1);
    let github = Github::new("volf", Credentials::Client(long, "secret".to_string()));
    assert_eq!(github.authenticate("/user/repos"), None);
    let fitting = "a".repeat(1000);
    let github = Github::new("volf", Credentials::Client(fitting.clone(), "secret".to_string()));
    let request = github.authenticate("/user/repos").expect("an address");
    assert!(request.url.ends_with(&format!("client_id={}&client_secret=secret", fitting)));
}

#[test]
fn six_statuses_report_a_fault() {
    for status in [409u16, 400, 422, 401, 404, 403].iter() {
        assert!(fault(*status));
    }
    for status in [200u16, 201, 204, 301, 304, 402, 405, 410, 418, 429, 500, 502, 0].iter() {
        assert!(!fault(*status));
    }
    let mut faults = 0;
    for status in 0..=u16::MAX {
        if fault(status) {
            faults += 1;
        }
    }
    assert_eq!(faults, 6);
}

#[test]
fn pull_request_paths_name_owner_repository_and_number() {
    let github = Github::new("volf", Credentials::Anonymous);
    let prs = PullRequests::new(&github, "org", "app");
    assert_eq!(prs.path(""), "/repos/org/app/pulls");
    assert_eq!(prs.path("?state=open"), "/repos/org/app/pulls?state=open");
    let pr = prs.get(42);
    assert_eq!(pr.owner, "org");
    assert_eq!(pr.repo, "app");
    assert_eq!(pr.number, 42);
    assert_eq!(pr.path(""), "/repos/org/app/pulls/42");
    assert_eq!(pr.path("/merge"), "/repos/org/app/pulls/42/merge");
    let direct = PullRequest::new(&github, "o", "r", 0);
    assert_eq!(direct.path("/files"), "/repos/o/r/pulls/0/files");
    assert_eq!(*direct.github, github);
}

#[test]
fn repository_paths() {
    let github = Github::new("volf", Credentials::Anonymous);
    assert_eq!(Repositories::new(&github).path(""), "/user/repos");
    assert_eq!(Repositories::new(&github).path("?type=owner"), "/user/repos?type=owner");
    let repo = Repository::new(&github, "org", "app");
    assert_eq!(repo.owner, "org");
    assert_eq!(repo.repo, "app");
    assert_eq!(repo.pulls().path("/7"), "/repos/org/app/pulls/7");
}

#[test]
fn uris_of_comments_issues_and_hooks() {
    assert_eq!(comments("org/app", 42), "/repos/org/app/issues/42/comments");
    assert_eq!(issues("org/app"), "/repos/org/app/issues");
    assert_eq!(hook("org/app", 9000), "/repos/org/app/hooks/9000");
    assert_eq!(ping("org/app", 9000), "/repos/org/app/hooks/9000/pings");
}

#[test]
fn pull_options_keep_what_they_are_given() {
    let options = PullOptions::new("title", "feature", "master", Some("text"));
    assert_eq!(
        options,
        PullOptions {
            title: "title".to_string(),
            head: "feature".to_string(),
            base: "master".to_string(),
            body: Some("text".to_string()),
        }
    );
    assert_eq!(PullOptions::new("t", "h", "b", None).body, None);
}

#[test]
fn list_options_serialize_to_a_query() {
    let mut options = RepoListOptions::default();
    assert_eq!(options.serialize(), None);
    options.set("type", "owner");
    assert_eq!(options.serialize(), Some("type=owner".to_string()));
    options.set("sort", "full name&more");
    assert_eq!(options.serialize(), Some("type=owner&sort=full+name%26more".to_string()));
    options.set("type", "all");
    assert_eq!(options.serialize(), Some("type=all&sort=full+name%26more".to_string()));
    options.set("q", "\u{e9}t\u{e9}");
    assert_eq!(
        options.serialize(),
        Some("type=all&sort=full+name%26more&q=%C3%A9t%C3%A9".to_string())
    );
}

#[test]
fn form_writes_every_byte_as_the_syntax_says() {
    for b in 0..128u8 {
        let text = (b as char).to_string();
        let expected = match b {
            b'*' | b'-' | b'.' | b'_' | b'0'..=b'9' | b'A'..=b'Z' | b'a'..=b'z' => text.clone(),
            b' ' => "+".to_string(),
            _ => format!("%{:02X}", b),
        };
        let mut options = RepoListOptions::default();
        options.set(&text, &text);
        assert_eq!(options.serialize(), Some(format!("{}={}", expected, expected)));
    }
    let mut options = RepoListOptions::default();
    options.set("", "");
    assert_eq!(options.serialize(), Some("=".to_string()));
    options.set("a", "");
    assert_eq!(options.serialize(), Some("=&a=".to_string()));
    options.set("\u{20ac}", "\u{1f600}");
    assert_eq!(options.serialize(), Some("=&a=&%E2%82%AC=%F0%9F%98%80".to_string()));
}

#[test]
fn records_of_the_interface_hold_plain_values() {
    let commit = || Commit { label: "org:master".to_string(), sha: "abc".to_string() };
    let pull = Pull {
        id: 1,
        url: "https://api.github.com/repos/org/app/pulls/42".to_string(),
        number: 42,
        state: "open".to_string(),
        title: "fix bug".to_string(),
        body: "text".to_string(),
        created_at: "2017-01-01".to_string(),
        updated_at: "2017-01-02".to_string(),
        closed_at: None,
        merged_at: None,
        head: commit(),
        base: commit(),
        merge_commit_sha: None,
        mergeable: Some(true),
        comments: Some(3),
    };
    assert_eq!(pull.number, 42);
    assert_eq!(pull.head, commit());
    let repo = Repo {
        id: 7,
        full_name: "org/app".to_string(),
        default_branch: "master".to_string(),
        created_at: "2016".to_string(),
        updated_at: "2017".to_string(),
    };
    assert_eq!(repo.full_name, "org/app");
}
