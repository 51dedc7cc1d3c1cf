//! What the bot is configured with: the repositories it watches, and the
//! secrets it shares with the platform.

use crate::pullrequest::{commands, parse_commands, Pull, PullView};
use crate::text::{same_text, split_two, two_fields};
use crate::webhook::Comment;
use vstd::prelude::*;

verus! {

/// A watched repository.
#[derive(Debug, Clone, PartialEq, Eq)]
pub struct Repository {
    /// The repository's full `owner/name`.
    pub name: String,
    /// The builds that must pass before a merge.
    pub required_builds: Vec<String>,
    /// The builds that are started but need not pass.
    pub optional_builds: Vec<String>,
    /// The secret that the platform signs this repository's deliveries with.
    pub github_secret: String,
}

/// The bot's credentials on the platform.
#[derive(Debug, Clone, PartialEq, Eq)]
pub struct GithubData {
    /// Personal access token of the bot's host.
    pub access_token: String,
    /// Client id of the bot's application.
    pub app_client_id: String,
    /// Client secret of the bot's application.
    pub app_client_secret: String,
}

/// The whole configuration.
#[derive(Debug, Clone, PartialEq, Eq)]
pub struct Config {
    /// The port to listen on.
    pub port: u32,
    /// The bot's credentials on the platform.
    pub github: GithubData,
    /// The repositories to watch.
    pub repositories: Vec<Repository>,
}

/// The port of a configuration that names none.
pub const DEFAULT_PORT: u32 = 54857;

impl Default for GithubData {
    fn default() -> (data: GithubData)
        ensures
            data.access_token@.len() == 0,
            data.app_client_id@.len() == 0,
            data.app_client_secret@.len() == 0,
    {
        GithubData {
            access_token: String::new(),
            app_client_id: String::new(),
            app_client_secret: String::new(),
        }
    }
}

impl Default for Config {
    fn default() -> (cfg: Config)
        ensures
            cfg.port == DEFAULT_PORT,
            cfg.repositories@.len() == 0,
            cfg.github.access_token@.len() == 0,
            cfg.github.app_client_id@.len() == 0,
            cfg.github.app_client_secret@.len() == 0,
    {
        Config { port: DEFAULT_PORT, github: GithubData::default(), repositories: Vec::new() }
    }
}

/// An open pull request as the platform lists it, with the comments made on
/// it so far, oldest first.
#[derive(Debug, PartialEq, Eq)]
pub struct OpenPull {
    /// The pull request's number.
    pub number: u64,
    /// The pull request's title.
    pub title: String,
    /// The comments on it, oldest first.
    pub comments: Vec<Comment>,
}

/// What a run of comments makes of an entity: the commands of each comment
/// are applied in the name of its author, one comment after the other.
pub open spec fn replayed(pr: PullView, comments: Seq<Comment>) -> PullView
    decreases comments.len(),
{
    if comments.len() == 0 {
        pr
    } else {
        replayed(pr, comments.drop_last()).apply_all(
            commands(comments.last().body@),
            comments.last().user.login@,
        )
    }
}

impl Repository {
    /// The owner and the bare name that the repository's full name is made
    /// of; nothing if the full name holds no slash.
    pub fn owner_and_name(&self) -> (parts: Option<(String, String)>)
        ensures
            match parts {
                Some((owner, name)) => two_fields(self.name@, '/') == Some((owner@, name@)),
                None => two_fields(self.name@, '/') is None,
            },
    {
        split_two(self.name.as_str(), '/')
    }

    /// The entity that stands for `open` once its history has been replayed.
    pub open spec fn restored(self, open: OpenPull) -> PullView {
        replayed(PullView::fresh(self.name@, open.number, open.title@), open.comments@)
    }

    /// Builds this repository's entities from what the platform lists as
    /// open: one entity for each pull request, in the order of the listing,
    /// each brought to the state that the comments on it ask for.
    pub fn synchronize(&self, listing: &Vec<OpenPull>) -> (prs: Vec<Pull>)
        ensures
            prs@.len() == listing@.len(),
            forall|i: int| 0 <= i < prs@.len() ==> (#[trigger] prs@[i])@ == self.restored(listing@[i]),
    {
        let mut prs: Vec<Pull> = Vec::new();
        let mut i: usize = 0;
        while i < listing.len()
            invariant
                i <= listing.len(),
                prs@.len() == i,
                forall|k: int| 0 <= k < i ==> (#[trigger] prs@[k])@ == self.restored(listing@[k]),
            decreases listing.len() - i,
        {
            let open = &listing[i];
            let mut pr = Pull::new(self.name.as_str(), open.number, open.title.as_str());
            let mut j: usize = 0;
            while j < open.comments.len()
                invariant
                    j <= open.comments.len(),
                    pr@ == replayed(
                        PullView::fresh(self.name@, open.number, open.title@),
                        open.comments@.take(j as int),
                    ),
                decreases open.comments.len() - j,
            {
                let comment = &open.comments[j];
                proof {
                    assert(open.comments@.take(j + 1).drop_last() =~= open.comments@.take(j as int));
                }
                parse_commands(&mut pr, comment.body.clone(), comment.user.login.clone());
                j = j + 1;
            }
            assert(open.comments@.take(j as int) =~= open.comments@);
            prs.push(pr);
            i = i + 1;
        }
        prs
    }
}

impl Config {
    /// The names of the watched repositories, in the order of the
    /// configuration.
    pub open spec fn names(self) -> Seq<Seq<char>> {
        self.repositories@.map_values(|r: Repository| r.name@)
    }

    /// Whether entry `i` is the first repository called `name`.
    pub open spec fn first_named(self, i: int, name: Seq<char>) -> bool {
        &&& 0 <= i < self.repositories@.len()
        &&& self.repositories@[i].name@ == name
        &&& forall|j: int| 0 <= j < i ==> (#[trigger] self.repositories@[j]).name@ != name
    }

    /// Whether a repository called `name` is watched.
    pub open spec fn watches(self, name: Seq<char>) -> bool {
        exists|i: int| 0 <= i < self.repositories@.len() && (#[trigger] self.repositories@[i]).name@ == name
    }

    /// The watched repository called `name`: the first of that name.
    pub fn repository(&self, name: &str) -> (found: Option<&Repository>)
        ensures
            found is Some <==> self.watches(name@),
            found matches Some(repo) ==> exists|i: int|
                self.first_named(i, name@) && *repo == self.repositories@[i],
    {
        let mut i: usize = 0;
        while i < self.repositories.len()
            invariant
                i <= self.repositories.len(),
                forall|j: int| 0 <= j < i ==> (#[trigger] self.repositories@[j]).name@ != name@,
            decreases self.repositories.len() - i,
        {
            if same_text(self.repositories[i].name.as_str(), name) {
                assert(self.first_named(i as int, name@));
                return Some(&self.repositories[i]);
            }
            i = i + 1;
        }
        None
    }

    /// The secret that deliveries for the repository called `name` are
    /// signed with, if the repository is watched.
    pub fn secret(&self, name: &str) -> (secret: Option<&String>)
        ensures
            secret is Some <==> self.watches(name@),
            secret matches Some(s) ==> exists|i: int|
                self.first_named(i, name@) && *s == self.repositories@[i].github_secret,
    {
        match self.repository(name) {
            Some(repo) => Some(&repo.github_secret),
            None => None,
        }
    }
}

} // verus!
