//! The events that the platform delivers, and what each does to the queue.
//!
//! A delivery comes with three headers: the type of the event, an identifier
//! of the delivery, and a signature on its body. [`accept`] decides whether
//! a delivery is let in at all, and finds the watched repositories whose
//! secret signed it. What is let in is decoded by the caller into an
//! [`Event`], and [`ServerHandle::handle_event`] carries it out if the
//! delivery covers it: an event about a repository that did not sign the
//! delivery changes nothing.

use crate::config::Config;
use crate::config::Repository as Watched;
use crate::errors::{VolfError, VolfResult};
use crate::pullrequest::{Pull, PullView};
use crate::queue::{commented, opened, tracks, admits, sound};
use crate::server::ServerHandle;
use crate::signature::{signed_by, verify_signature};
use crate::text::same_text;
use vstd::prelude::*;
use vstd::utf8::encode_utf8;

verus! {

/// A user of the platform.
#[derive(Debug, PartialEq, Eq)]
pub struct User {
    /// The user's unique name.
    pub login: String,
}

/// A repository, as events name it.
#[derive(Debug, PartialEq, Eq)]
pub struct Repository {
    /// Owner and name, joined by a slash.
    pub full_name: String,
}

/// A comment.
#[derive(Debug, PartialEq, Eq)]
pub struct Comment {
    /// Who wrote it.
    pub user: User,
    /// What it says.
    pub body: String,
}

/// What an issue holds if it is a pull request.
#[derive(Debug, PartialEq, Eq)]
pub struct PullRequestIssue {
    /// The pull request's number.
    pub number: u64,
}

/// An issue.
#[derive(Debug, PartialEq, Eq)]
pub struct Issue {
    /// The issue's number.
    pub number: u64,
    /// The text of the issue.
    pub body: String,
    /// Set if the issue is a pull request.
    pub pull_request: Option<PullRequestIssue>,
}

/// One end of a pull request: where it comes from, or where it goes.
#[derive(Debug, PartialEq, Eq)]
pub struct PullRequestRef {
    /// The changeset.
    pub sha: String,
    /// The owner.
    pub user: User,
    /// The repository that holds the changeset.
    pub repo: Repository,
}

/// A pull request, as the event about it describes it.
#[derive(Debug, PartialEq, Eq)]
pub struct PullRequestInner {
    /// The title.
    pub title: String,
    /// Open or closed.
    pub state: String,
    /// Who opened it.
    pub user: User,
    /// Where the changes come from.
    pub head: PullRequestRef,
    /// Where the changes are to go.
    pub base: PullRequestRef,
}

/// Something happened to a pull request.
#[derive(Debug, PartialEq, Eq)]
pub struct PullRequest {
    /// What happened: `opened`, `reopened`, `closed`, and others.
    pub action: String,
    /// The pull request's number.
    pub number: u64,
    /// The pull request.
    pub pull_request: PullRequestInner,
    /// The repository that the pull request belongs to.
    pub repository: Repository,
    /// Who did it.
    pub sender: User,
    /// The text of the pull request.
    pub body: String,
}

/// Changes were pushed.
#[derive(Debug, PartialEq, Eq)]
pub struct Push {
    /// The changeset after the push.
    pub after: String,
    /// The changeset before the push.
    pub before: String,
    /// The repository pushed to.
    pub repository: Repository,
    /// Who pushed.
    pub sender: User,
}

/// Somebody commented on an issue.
#[derive(Debug, PartialEq, Eq)]
pub struct IssueComment {
    /// What happened to the comment: `created`, and others.
    pub action: String,
    /// The comment.
    pub comment: Comment,
    /// The issue commented on.
    pub issue: Issue,
    /// The repository of the issue.
    pub repository: Repository,
    /// Who did it.
    pub sender: User,
}

/// The platform checks that the hook is alive.
#[derive(Debug, PartialEq, Eq)]
pub struct Ping {
    /// A saying that the platform sends along.
    pub zen: String,
}

/// The types of event that the bot has a use for.
#[derive(Debug, Clone, Copy, PartialEq, Eq, Structural)]
pub enum EventKind {
    /// `issue_comment`
    IssueComment,
    /// `pull_request`
    PullRequest,
    /// `push`
    Push,
    /// `ping`
    Ping,
}

/// A decoded event.
#[derive(Debug, PartialEq, Eq)]
pub enum Event {
    IssueComment(IssueComment),
    PullRequest(PullRequest),
    Push(Push),
    Ping(Ping),
}

/// What became of an event.
#[derive(Debug, Clone, Copy, PartialEq, Eq, Structural)]
pub enum Handled {
    /// A pull request was opened, and is tracked from now on.
    Created,
    /// A comment on a tracked pull request was read for commands.
    Commanded,
    /// A comment on a pull request that is not tracked: nothing changed.
    Untracked,
    /// Nothing in the event concerns the queue: nothing changed.
    Ignored,
    /// The delivery does not cover the event: its header names another type
    /// of event, or its signature is not that of the event's repository.
    /// Nothing changed.
    Refused,
}

/// The type of event that `tag` names, if the bot has a use for it.
pub open spec fn kind_of(tag: Seq<char>) -> Option<EventKind> {
    if tag == "issue_comment"@ {
        Some(EventKind::IssueComment)
    } else if tag == "pull_request"@ {
        Some(EventKind::PullRequest)
    } else if tag == "push"@ {
        Some(EventKind::Push)
    } else if tag == "ping"@ {
        Some(EventKind::Ping)
    } else {
        None
    }
}

/// Whether `action` on a pull request makes the bot track it.
pub open spec fn opens(action: Seq<char>) -> bool {
    action == "opened"@ || action == "reopened"@
}

impl PullRequest {
    /// The entity that this event creates.
    pub open spec fn entity(self) -> PullView {
        PullView::fresh(self.repository.full_name@, self.number, self.pull_request.title@)
    }

    /// The queue after this event.
    pub open spec fn effect(self, q: Seq<PullView>) -> Seq<PullView> {
        if opens(self.action@) {
            opened(q, self.repository.full_name@, self.number, self.pull_request.title@)
        } else {
            q
        }
    }

    /// What becomes of this event.
    pub open spec fn outcome(self, q: Seq<PullView>) -> Handled {
        if opens(self.action@) && admits(q, self.entity()) {
            Handled::Created
        } else {
            Handled::Ignored
        }
    }
}

impl IssueComment {
    /// The pull request that a new comment was made on: none unless the
    /// comment was just created, on an issue that is a pull request.
    pub open spec fn target(self) -> Option<u64> {
        match self.issue.pull_request {
            Some(pr) => if self.action@ == "created"@ {
                Some(pr.number)
            } else {
                None
            },
            None => None,
        }
    }

    /// The queue after this event.
    pub open spec fn effect(self, q: Seq<PullView>) -> Seq<PullView> {
        match self.target() {
            Some(num) => commented(
                q,
                self.repository.full_name@,
                num,
                self.comment.body@,
                self.sender.login@,
            ),
            None => q,
        }
    }

    /// What becomes of this event.
    pub open spec fn outcome(self, q: Seq<PullView>) -> Handled {
        match self.target() {
            Some(num) => if tracks(q, self.repository.full_name@, num) {
                Handled::Commanded
            } else {
                Handled::Untracked
            },
            None => Handled::Ignored,
        }
    }
}

impl Event {
    /// The type of this event.
    pub open spec fn kind_spec(&self) -> EventKind {
        match self {
            Event::IssueComment(_) => EventKind::IssueComment,
            Event::PullRequest(_) => EventKind::PullRequest,
            Event::Push(_) => EventKind::Push,
            Event::Ping(_) => EventKind::Ping,
        }
    }

    /// The repository that this event is about. A ping is about none.
    pub open spec fn repository(self) -> Option<Seq<char>> {
        match self {
            Event::IssueComment(data) => Some(data.repository.full_name@),
            Event::PullRequest(data) => Some(data.repository.full_name@),
            Event::Push(data) => Some(data.repository.full_name@),
            Event::Ping(_) => None,
        }
    }

    /// The queue after this event. A push and a ping change nothing.
    pub open spec fn effect(self, q: Seq<PullView>) -> Seq<PullView> {
        match self {
            Event::IssueComment(data) => data.effect(q),
            Event::PullRequest(data) => data.effect(q),
            Event::Push(_) => q,
            Event::Ping(_) => q,
        }
    }

    /// What becomes of this event.
    pub open spec fn outcome(self, q: Seq<PullView>) -> Handled {
        match self {
            Event::IssueComment(data) => data.outcome(q),
            Event::PullRequest(data) => data.outcome(q),
            Event::Push(_) => Handled::Ignored,
            Event::Ping(_) => Handled::Ignored,
        }
    }

    /// The type of this event.
    #[verifier::when_used_as_spec(kind_spec)]
    pub fn kind(&self) -> (kind: EventKind)
        ensures
            kind == self.kind_spec(),
    {
        match self {
            Event::IssueComment(_) => EventKind::IssueComment,
            Event::PullRequest(_) => EventKind::PullRequest,
            Event::Push(_) => EventKind::Push,
            Event::Ping(_) => EventKind::Ping,
        }
    }
}

impl Event {
    /// The full name of the repository that this event is about.
    pub fn repo(&self) -> (name: Option<&String>)
        ensures
            match name {
                Some(n) => self.repository() == Some(n@),
                None => self.repository() is None,
            },
    {
        match self {
            Event::IssueComment(data) => Some(&data.repository.full_name),
            Event::PullRequest(data) => Some(&data.repository.full_name),
            Event::Push(data) => Some(&data.repository.full_name),
            Event::Ping(_) => None,
        }
    }
}

/// Tells the type of an event by the name that the platform gives it. An
/// event that the bot has no use for is an error of its own kind: the hooks
/// send more than they need to.
pub fn event_kind(event: &str) -> (kind: VolfResult<EventKind>)
    ensures
        match kind {
            Ok(k) => kind_of(event@) == Some(k),
            Err(VolfError::SpammyGithub(name)) => kind_of(event@) is None && name@ == event@,
            Err(_) => false,
        },
{
    if same_text(event, "issue_comment") {
        Ok(EventKind::IssueComment)
    } else if same_text(event, "pull_request") {
        Ok(EventKind::PullRequest)
    } else if same_text(event, "push") {
        Ok(EventKind::Push)
    } else if same_text(event, "ping") {
        Ok(EventKind::Ping)
    } else {
        Err(VolfError::SpammyGithub(event.to_owned()))
    }
}

/// The views of a run of names.
pub open spec fn names_view(names: Seq<String>) -> Seq<Seq<char>> {
    names.map_values(|n: String| n@)
}

/// The names of those among `repos` whose secret signs `body` with
/// `signature`, in the order of `repos`.
pub open spec fn vouchers_among(repos: Seq<Watched>, body: Seq<u8>, signature: Seq<u8>) -> Seq<
    Seq<char>,
>
    decreases repos.len(),
{
    if repos.len() == 0 {
        Seq::empty()
    } else if signed_by(encode_utf8(repos.last().github_secret@), body, signature) {
        vouchers_among(repos.drop_last(), body, signature).push(repos.last().name@)
    } else {
        vouchers_among(repos.drop_last(), body, signature)
    }
}

/// A name is among the vouchers exactly if a watched repository of that name
/// has a secret that signs the body with the signature.
pub proof fn lemma_vouchers(
    repos: Seq<Watched>,
    body: Seq<u8>,
    signature: Seq<u8>,
    name: Seq<char>,
)
    ensures
        vouchers_among(repos, body, signature).contains(name) <==> exists|i: int|
            0 <= i < repos.len() && (#[trigger] repos[i]).name@ == name && signed_by(
                encode_utf8(repos[i].github_secret@),
                body,
                signature,
            ),
    decreases repos.len(),
{
    if repos.len() > 0 {
        let before = repos.drop_last();
        let last = repos.last();
        let found = vouchers_among(before, body, signature);
        lemma_vouchers(before, body, signature, name);
        let signs = signed_by(encode_utf8(last.github_secret@), body, signature);
        if signs {
            assert(found.push(last.name@).contains(name) <==> found.contains(name) || last.name@
                == name) by {
                if found.contains(name) {
                    let k = choose|k: int| 0 <= k < found.len() && found[k] == name;
                    assert(found.push(last.name@)[k] == name);
                }
                if last.name@ == name {
                    assert(found.push(last.name@)[found.len() as int] == name);
                }
            }
        }
        if exists|i: int|
            0 <= i < repos.len() && (#[trigger] repos[i]).name@ == name && signed_by(
                encode_utf8(repos[i].github_secret@),
                body,
                signature,
            ) {
            let i = choose|i: int|
                0 <= i < repos.len() && (#[trigger] repos[i]).name@ == name && signed_by(
                    encode_utf8(repos[i].github_secret@),
                    body,
                    signature,
                );
            if i < before.len() {
                assert(before[i] == repos[i]);
            }
        }
        if exists|i: int|
            0 <= i < before.len() && (#[trigger] before[i]).name@ == name && signed_by(
                encode_utf8(before[i].github_secret@),
                body,
                signature,
            ) {
            let i = choose|i: int|
                0 <= i < before.len() && (#[trigger] before[i]).name@ == name && signed_by(
                    encode_utf8(before[i].github_secret@),
                    body,
                    signature,
                );
            assert(repos[i] == before[i]);
        }
    }
}

/// A delivery that was let in: what its headers said, and who signed it.
#[derive(Debug, PartialEq, Eq)]
pub struct Delivery {
    /// The name of the event's type.
    pub event: String,
    /// The identifier of the delivery.
    pub id: String,
    /// The full names of the watched repositories whose secret signed the
    /// delivery.
    pub vouchers: Vec<String>,
}

impl Delivery {
    /// Whether this delivery covers `event`: its header names the type of
    /// the event, and the repository that the event is about is one of
    /// those that signed the delivery.
    pub open spec fn covers(self, event: Event) -> bool {
        &&& kind_of(self.event@) == Some(event.kind_spec())
        &&& match event.repository() {
            Some(name) => names_view(self.vouchers@).contains(name),
            None => true,
        }
    }

    /// Whether the repository called `name` signed this delivery.
    pub fn vouched_by(&self, name: &str) -> (ok: bool)
        ensures
            ok == names_view(self.vouchers@).contains(name@),
    {
        let mut i: usize = 0;
        while i < self.vouchers.len()
            invariant
                i <= self.vouchers.len(),
                forall|j: int| 0 <= j < i ==> names_view(self.vouchers@)[j] != name@,
            decreases self.vouchers.len() - i,
        {
            if same_text(self.vouchers[i].as_str(), name) {
                assert(names_view(self.vouchers@)[i as int] == name@);
                return true;
            }
            i = i + 1;
        }
        false
    }

    /// Whether this delivery covers `event`.
    pub fn covers_event(&self, event: &Event) -> (ok: bool)
        ensures
            ok == self.covers(*event),
    {
        let named = match event_kind(self.event.as_str()) {
            Ok(kind) => kind == event.kind(),
            Err(_) => false,
        };
        named && match event.repo() {
            Some(name) => self.vouched_by(name.as_str()),
            None => true,
        }
    }
}

/// A delivery that was let in covers an event about a repository only if
/// the signature is the one that belongs on the body under the secret of a
/// watched repository of that name.
pub proof fn lemma_covered_is_signed(
    cfg: Config,
    delivery: Delivery,
    event: Event,
    body: Seq<u8>,
    signature: Seq<u8>,
)
    requires
        names_view(delivery.vouchers@) == cfg.vouchers(body, signature),
        delivery.covers(event),
        event.repository() is Some,
    ensures
        exists|i: int|
            0 <= i < cfg.repositories@.len() && (#[trigger] cfg.repositories@[i]).name@
                == event.repository().unwrap() && signed_by(
                encode_utf8(cfg.repositories@[i].github_secret@),
                body,
                signature,
            ),
{
    lemma_vouchers(cfg.repositories@, body, signature, event.repository().unwrap());
}

impl Config {
    /// The names of the watched repositories whose secret signs `body` with
    /// `signature`, in the order of the configuration.
    pub open spec fn vouchers(self, body: Seq<u8>, signature: Seq<u8>) -> Seq<Seq<char>> {
        vouchers_among(self.repositories@, body, signature)
    }

    /// Finds the watched repositories whose secret signs `body` with
    /// `signature`.
    pub fn vouchers_for(&self, body: &[u8], signature: &str) -> (names: Vec<String>)
        ensures
            names_view(names@) == self.vouchers(body@, encode_utf8(signature@)),
    {
        let mut names: Vec<String> = Vec::new();
        let mut i: usize = 0;
        assert(self.repositories@.take(0) =~= Seq::empty());
        assert(names_view(names@) =~= Seq::empty());
        while i < self.repositories.len()
            invariant
                i <= self.repositories.len(),
                names_view(names@) == vouchers_among(
                    self.repositories@.take(i as int),
                    body@,
                    encode_utf8(signature@),
                ),
            decreases self.repositories.len() - i,
        {
            let repo = &self.repositories[i];
            proof {
                let sofar = self.repositories@.take(i + 1);
                assert(sofar.drop_last() =~= self.repositories@.take(i as int));
                assert(sofar.last() == *repo);
            }
            if verify_signature(repo.github_secret.as_str().as_bytes(), body, signature.as_bytes()) {
                let name = repo.name.clone();
                assert(names_view(names@.push(name)) =~= names_view(names@).push(repo.name@));
                names.push(name);
            }
            i = i + 1;
        }
        assert(self.repositories@.take(i as int) =~= self.repositories@);
        names
    }
}

/// Whether a delivery with these headers and this body is let in: all three
/// headers are there, and the signature signs the body with the secret of a
/// watched repository.
pub open spec fn acceptable(
    cfg: Config,
    event: Option<String>,
    id: Option<String>,
    signature: Option<String>,
    body: Seq<u8>,
) -> bool {
    &&& event is Some
    &&& id is Some
    &&& signature matches Some(s) && cfg.vouchers(body, encode_utf8(s@)).len() > 0
}

/// Decides whether a delivery is let in, before anything in its body is
/// looked at, and finds the watched repositories that signed it. A delivery
/// that is turned away is not told why.
pub fn accept(
    cfg: &Config,
    event: Option<String>,
    id: Option<String>,
    signature: Option<String>,
    body: &[u8],
) -> (delivery: Option<Delivery>)
    ensures
        delivery is Some <==> acceptable(*cfg, event, id, signature, body@),
        delivery matches Some(d) ==> {
            &&& Some(d.event) == event
            &&& Some(d.id) == id
            &&& signature matches Some(s) && names_view(d.vouchers@) == cfg.vouchers(
                body@,
                encode_utf8(s@),
            )
        },
{
    match (event, id, signature) {
        (Some(event), Some(id), Some(signature)) => {
            let vouchers = cfg.vouchers_for(body, signature.as_str());
            if vouchers.len() > 0 {
                Some(Delivery { event, id, vouchers })
            } else {
                None
            }
        },
        _ => None,
    }
}

impl ServerHandle {
    /// A push changes nothing.
    fn handle_push(&self, data: &Push) -> (handled: Handled)
        ensures
            handled == Handled::Ignored,
    {
        Handled::Ignored
    }

    /// A ping changes nothing.
    fn handle_ping(&self, data: &Ping) -> (handled: Handled)
        ensures
            handled == Handled::Ignored,
    {
        Handled::Ignored
    }

    /// A pull request that was opened or reopened is tracked from now on,
    /// as a fresh entity at the end of the queue. If it is tracked already
    /// nothing changes, and nothing else that happens to a pull request
    /// changes anything either.
    fn handle_pull_request(&mut self, data: &PullRequest) -> (handled: Handled)
        ensures
            handled == data.outcome(old(self)@),
            final(self)@ == data.effect(old(self)@),
            final(self).config() == old(self).config(),
            sound(final(self)@),
    {
        if same_text(data.action.as_str(), "opened") || same_text(
            data.action.as_str(),
            "reopened",
        ) {
            let pr = Pull::new(
                data.repository.full_name.as_str(),
                data.number,
                data.pull_request.title.as_str(),
            );
            if self.insert(pr) {
                Handled::Created
            } else {
                Handled::Ignored
            }
        } else {
            self.soundness();
            Handled::Ignored
        }
    }

    /// A new comment on a tracked pull request is read for commands, which
    /// are carried out in the name of whoever sent the comment. A comment on
    /// anything else changes nothing.
    fn handle_issue_comment(&mut self, data: &IssueComment) -> (handled: Handled)
        ensures
            handled == data.outcome(old(self)@),
            final(self)@ == data.effect(old(self)@),
            final(self).config() == old(self).config(),
            sound(final(self)@),
    {
        match &data.issue.pull_request {
            Some(pr) => {
                if same_text(data.action.as_str(), "created") {
                    let known = self.command(
                        data.repository.full_name.as_str(),
                        pr.number,
                        data.comment.body.clone(),
                        data.sender.login.clone(),
                    );
                    if known {
                        Handled::Commanded
                    } else {
                        Handled::Untracked
                    }
                } else {
                    self.soundness();
                    Handled::Ignored
                }
            },
            None => {
                self.soundness();
                Handled::Ignored
            },
        }
    }

    /// Carries out the event that came with `delivery`, if the delivery
    /// covers it. An event of another type than the delivery's header
    /// names, and an event about a repository whose secret did not sign the
    /// delivery, change nothing.
    pub fn handle_event(&mut self, delivery: &Delivery, event: &Event) -> (handled: Handled)
        ensures
            handled == if delivery.covers(*event) {
                event.outcome(old(self)@)
            } else {
                Handled::Refused
            },
            final(self)@ == if delivery.covers(*event) {
                event.effect(old(self)@)
            } else {
                old(self)@
            },
            final(self).config() == old(self).config(),
            sound(final(self)@),
    {
        if !delivery.covers_event(event) {
            self.soundness();
            return Handled::Refused;
        }
        match event {
            Event::IssueComment(data) => self.handle_issue_comment(data),
            Event::PullRequest(data) => self.handle_pull_request(data),
            Event::Push(data) => {
                self.soundness();
                self.handle_push(data)
            },
            Event::Ping(data) => {
                self.soundness();
                self.handle_ping(data)
            },
        }
    }
}

} // verus!
