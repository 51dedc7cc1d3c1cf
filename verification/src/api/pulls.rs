//! Pull requests at the platform's REST interface.

use crate::api::client::Github;
use crate::pullrequest::text_view;
use crate::text::{decimal, decimal_of};
use vstd::prelude::*;
use vstd::string::StringExecFns;

verus! {

/// One end of a pull request, as the interface reports it.
#[derive(Debug, PartialEq, Eq)]
pub struct Commit {
    pub label: String,
    pub sha: String,
}

/// A pull request, as the interface reports it.
#[derive(Debug, PartialEq, Eq)]
pub struct Pull {
    pub id: u64,
    pub url: String,
    pub number: u64,
    pub state: String,
    pub title: String,
    pub body: String,
    pub created_at: String,
    pub updated_at: String,
    pub closed_at: Option<String>,
    pub merged_at: Option<String>,
    pub head: Commit,
    pub base: Commit,
    pub merge_commit_sha: Option<String>,
    pub mergeable: Option<bool>,
    pub comments: Option<u64>,
}

/// What it takes to open a pull request.
#[derive(Debug, PartialEq, Eq)]
pub struct PullOptions {
    pub title: String,
    pub head: String,
    pub base: String,
    pub body: Option<String>,
}

/// The view of an optional text.
pub open spec fn str_view(o: Option<&str>) -> Option<Seq<char>> {
    match o {
        Some(s) => Some(s@),
        None => None,
    }
}

impl PullOptions {
    /// The options for a pull request called `title` that brings `head` into
    /// `base`, with `body` as its text.
    pub fn new(title: &str, head: &str, base: &str, body: Option<&str>) -> (options: PullOptions)
        ensures
            options.title@ == title@,
            options.head@ == head@,
            options.base@ == base@,
            text_view(options.body) == str_view(body),
    {
        PullOptions {
            title: title.to_owned(),
            head: head.to_owned(),
            base: base.to_owned(),
            body: match body {
                Some(text) => Some(text.to_owned()),
                None => None,
            },
        }
    }
}

/// One pull request at the interface.
pub struct PullRequest<'a> {
    pub github: &'a Github,
    pub owner: String,
    pub repo: String,
    pub number: u64,
}

/// Where the pull requests of `owner`'s repository `repo` are found.
pub open spec fn pulls_path(owner: Seq<char>, repo: Seq<char>) -> Seq<char> {
    "/repos/"@ + owner + "/"@ + repo + "/pulls"@
}

impl<'a> PullRequest<'a> {
    /// Pull request `number` of `owner`'s repository `repo`.
    pub fn new(github: &'a Github, owner: &str, repo: &str, number: u64) -> (pr: PullRequest<'a>)
        ensures
            pr.github == github,
            pr.owner@ == owner@,
            pr.repo@ == repo@,
            pr.number == number,
    {
        PullRequest { github, owner: owner.to_owned(), repo: repo.to_owned(), number }
    }

    /// What [`PullRequest::path`] returns.
    pub open spec fn path_of(self, more: Seq<char>) -> Seq<char> {
        pulls_path(self.owner@, self.repo@) + "/"@ + decimal_of(self.number as nat) + more
    }

    /// Where this pull request is found, with `more` behind it.
    pub fn path(&self, more: &str) -> (path: String)
        ensures
            path@ == self.path_of(more@),
    {
        let mut path = String::from_str("/repos/");
        path.append(self.owner.as_str());
        path.append("/");
        path.append(self.repo.as_str());
        path.append("/pulls");
        path.append("/");
        path.append(decimal(self.number).as_str());
        path.append(more);
        path
    }
}

/// The pull requests of one repository at the interface.
pub struct PullRequests<'a> {
    pub github: &'a Github,
    pub owner: String,
    pub repo: String,
}

impl<'a> PullRequests<'a> {
    /// The pull requests of `owner`'s repository `repo`.
    pub fn new(github: &'a Github, owner: &str, repo: &str) -> (prs: PullRequests<'a>)
        ensures
            prs.github == github,
            prs.owner@ == owner@,
            prs.repo@ == repo@,
    {
        PullRequests { github, owner: owner.to_owned(), repo: repo.to_owned() }
    }

    /// Where these pull requests are found, with `more` behind it.
    pub fn path(&self, more: &str) -> (path: String)
        ensures
            path@ == pulls_path(self.owner@, self.repo@) + more@,
    {
        let mut path = String::from_str("/repos/");
        path.append(self.owner.as_str());
        path.append("/");
        path.append(self.repo.as_str());
        path.append("/pulls");
        path.append(more);
        path
    }

    /// Pull request `number` of this repository.
    pub fn get(&self, number: u64) -> (pr: PullRequest<'a>)
        ensures
            pr.github == self.github,
            pr.owner@ == self.owner@,
            pr.repo@ == self.repo@,
            pr.number == number,
    {
        PullRequest::new(self.github, self.owner.as_str(), self.repo.as_str(), number)
    }
}

} // verus!
