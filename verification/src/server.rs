//! The bot's state: the queue of tracked pull requests and the
//! configuration, behind the operations that keep the queue sound.
//!
//! Whoever shares a [`ServerHandle`] between threads takes one lock for the
//! whole of it. No operation here waits for anything: what has to be done
//! outside (starting a build, merging) is handed back to the caller, to be
//! done once the lock is released.

use crate::config::{Config, Repository};
use crate::pullrequest::{commands, parse_commands, Pull, PullView};
use crate::queue::{
    admits, busy, candidate, commented, failed, first_candidate, first_holds, holds,
    lemma_commands_keep, lemma_failed_sound, lemma_next_up_is, lemma_offer_sound,
    lemma_position_is, lemma_ticked_sound, lemma_update_sound, lemma_without_sound, lookup,
    next_up, offer, offer_all, running, sound, ticked, ticked_all, tracks, without,
};
use crate::text::same_text;
use vstd::prelude::*;
use vstd::string::StringExecFns;

verus! {

/// The views of a run of entities.
pub open spec fn views(prs: Seq<Pull>) -> Seq<PullView> {
    prs.map_values(|pr: Pull| pr@)
}

/// The view of an entity that may be missing.
pub open spec fn found_view(found: Option<&Pull>) -> Option<PullView> {
    match found {
        Some(pr) => Some(pr@),
        None => None,
    }
}

/// The view of an entity that may be missing.
pub open spec fn taken_view(taken: Option<Pull>) -> Option<PullView> {
    match taken {
        Some(pr) => Some(pr@),
        None => None,
    }
}

/// What the build system reports when a build has ended.
#[derive(Debug, PartialEq, Eq)]
pub struct BuildResult {
    /// The repository's full `owner/name`.
    pub repo: String,
    /// The pull request's number.
    pub number: u64,
    /// The changeset that was built.
    pub sha: String,
    /// Whether the build passed.
    pub success: bool,
}

/// What a build result asks for.
#[derive(Debug, Clone, Copy, PartialEq, Eq, Structural)]
pub enum BuildOutcome {
    /// The pull request is not tracked: nothing to do.
    Untracked,
    /// The build passed: the pull request is merged and closed, and with
    /// that it leaves the queue.
    Passed,
    /// The build failed, and the entity now says so.
    Failed,
    /// The build failed, but the entity had no build running: nothing
    /// changed.
    Stale,
}

/// A build to start: the pull request that a tick promoted.
#[derive(Debug, PartialEq, Eq)]
pub struct Build {
    /// The repository's full `owner/name`.
    pub repo: String,
    /// The pull request's number.
    pub number: u64,
}

/// The views of a run of builds.
pub open spec fn builds_view(builds: Seq<Build>) -> Seq<(Seq<char>, u64)> {
    builds.map_values(|b: Build| (b.repo@, b.number))
}

/// The reason recorded for a failed build of changeset `sha`.
pub open spec fn failure_reason(sha: Seq<char>) -> Seq<char> {
    "build failed at "@ + sha
}

/// What a build result asks for, given the queue it meets.
pub open spec fn outcome_of(q: Seq<PullView>, res: BuildResult) -> BuildOutcome {
    match lookup(q, res.repo@, res.number) {
        None => BuildOutcome::Untracked,
        Some(pr) => if res.success {
            BuildOutcome::Passed
        } else if pr.can_fail() {
            BuildOutcome::Failed
        } else {
            BuildOutcome::Stale
        },
    }
}

/// The pull requests that ticks for `repos`, one after the other, promote.
pub open spec fn promotions(q: Seq<PullView>, repos: Seq<Seq<char>>) -> Seq<(Seq<char>, u64)>
    decreases repos.len(),
{
    if repos.len() == 0 {
        Seq::empty()
    } else {
        let before = ticked_all(q, repos.drop_last());
        match next_up(before, repos.last()) {
            Some(i) => promotions(q, repos.drop_last()).push((repos.last(), before[i].num)),
            None => promotions(q, repos.drop_last()),
        }
    }
}

/// Where a request to the bot's server goes.
#[derive(Debug, Clone, Copy, PartialEq, Eq, Structural)]
pub enum Route {
    /// A delivery of the platform.
    Github,
    /// The result of a build.
    Ci,
    /// Nowhere: the request is turned away.
    NotAllowed,
}

/// Where a request for `uri` goes; `post` says whether its method is POST.
pub open spec fn route_of(uri: Seq<char>, post: bool) -> Route {
    if post && uri == "/github"@ {
        Route::Github
    } else if post && uri == "/ci"@ {
        Route::Ci
    } else {
        Route::NotAllowed
    }
}

/// Where a request for `uri` goes; `post` says whether its method is POST.
pub fn route(uri: &str, post: bool) -> (to: Route)
    ensures
        to == route_of(uri@, post),
{
    if post && same_text(uri, "/github") {
        Route::Github
    } else if post && same_text(uri, "/ci") {
        Route::Ci
    } else {
        Route::NotAllowed
    }
}

/// The first entry that is pull request `num` of `repo`.
fn index_of(prs: &Vec<Pull>, repo: &str, num: u64) -> (found: Option<usize>)
    ensures
        match found {
            Some(i) => first_holds(views(prs@), i as int, repo@, num),
            None => !tracks(views(prs@), repo@, num),
        },
{
    let mut i: usize = 0;
    while i < prs.len()
        invariant
            i <= prs.len(),
            forall|j: int| 0 <= j < i ==> !holds(views(prs@), j, repo@, num),
        decreases prs.len() - i,
    {
        if prs[i].is(repo, num) {
            return Some(i);
        }
        i = i + 1;
    }
    None
}

/// Whether a build of `repo` is running.
fn is_busy(prs: &Vec<Pull>, repo: &str) -> (b: bool)
    ensures
        b == busy(views(prs@), repo@),
{
    let mut i: usize = 0;
    while i < prs.len()
        invariant
            i <= prs.len(),
            forall|j: int| 0 <= j < i ==> !running(views(prs@), j, repo@),
        decreases prs.len() - i,
    {
        if prs[i].is_testing() && prs[i].in_repo(repo) {
            assert(running(views(prs@), i as int, repo@));
            return true;
        }
        i = i + 1;
    }
    false
}

/// The first entry of `repo` that may be promoted.
fn first_eligible(prs: &Vec<Pull>, repo: &str) -> (found: Option<usize>)
    ensures
        match found {
            Some(i) => first_candidate(views(prs@), i as int, repo@),
            None => forall|j: int| !candidate(views(prs@), j, repo@),
        },
{
    let mut i: usize = 0;
    while i < prs.len()
        invariant
            i <= prs.len(),
            forall|j: int| 0 <= j < i ==> !candidate(views(prs@), j, repo@),
        decreases prs.len() - i,
    {
        if prs[i].eligible() && prs[i].in_repo(repo) {
            return Some(i);
        }
        i = i + 1;
    }
    None
}

/// One scheduler tick for `repo` on a bare queue.
fn promote(prs: &mut Vec<Pull>, repo: &str) -> (promoted: Option<u64>)
    requires
        sound(views(old(prs)@)),
    ensures
        views(final(prs)@) == ticked(views(old(prs)@), repo@),
        promoted == match next_up(views(old(prs)@), repo@) {
            Some(i) => Some(views(old(prs)@)[i].num),
            None => None::<u64>,
        },
        sound(views(final(prs)@)),
{
    let ghost q = views(prs@);
    if is_busy(prs, repo) {
        return None;
    }
    match first_eligible(prs, repo) {
        None => None,
        Some(i) => {
            proof {
                lemma_next_up_is(q, i as int, repo@);
                lemma_ticked_sound(q, repo@);
            }
            prs[i].test();
            assert(views(prs@) =~= q.update(i as int, q[i as int].test()));
            Some(prs[i].num())
        },
    }
}

/// The bot's state.
pub struct ServerHandle {
    /// The tracked pull requests, in the order in which they were inserted.
    prs: Vec<Pull>,
    /// The configuration.
    cfg: Config,
}

impl View for ServerHandle {
    type V = Seq<PullView>;

    /// The queue: the tracked entities in insertion order.
    closed spec fn view(&self) -> Seq<PullView> {
        views(self.prs@)
    }
}

impl ServerHandle {
    #[verifier::type_invariant]
    spec fn inv(&self) -> bool {
        sound(views(self.prs@))
    }

    /// The configuration that the handle was made with.
    pub closed spec fn config(&self) -> Config {
        self.cfg
    }

    /// A handle on the entities `prs` and the configuration `cfg`. The
    /// entities are offered to an empty queue in turn, so that one that
    /// would make the queue unsound is left out.
    pub fn new(prs: Vec<Pull>, cfg: Config) -> (handle: ServerHandle)
        ensures
            handle@ == offer_all(Seq::empty(), views(prs@)),
            handle.config() == cfg,
            sound(handle@),
    {
        let mut handle = ServerHandle { prs: Vec::new(), cfg };
        let ghost all = views(prs@);
        assert(handle@ =~= Seq::empty());
        for pr in it: prs
            invariant
                it.seq() == prs@,
                all == views(prs@),
                handle@ == offer_all(Seq::empty(), all.take(it.index() as int)),
                handle.config() == cfg,
                sound(handle@),
        {
            proof {
                assert(all.take(it.index() + 1).drop_last() =~= all.take(it.index() as int));
            }
            handle.insert(pr);
        }
        assert(all.take(all.len() as int) =~= all);
        handle
    }

    /// The queue of every handle is sound: no entity is tracked twice, and
    /// no repository has two builds running. Nothing happens at run time:
    /// the call hands what holds of every handle to the caller's proof.
    pub fn soundness(&self)
        ensures
            sound(self@),
    {
        proof {
            use_type_invariant(self);
        }
    }

    /// The configuration.
    pub fn cfg(&self) -> (cfg: &Config)
        ensures
            *cfg == self.config(),
    {
        &self.cfg
    }

    /// How many pull requests are tracked.
    pub fn len(&self) -> (n: usize)
        ensures
            n == self@.len(),
    {
        self.prs.len()
    }

    /// The tracked pull request at place `i` of the queue.
    pub fn get(&self, i: usize) -> (found: Option<&Pull>)
        ensures
            found_view(found) == if i < self@.len() {
                Some(self@[i as int])
            } else {
                None
            },
    {
        if i < self.prs.len() {
            Some(&self.prs[i])
        } else {
            None
        }
    }

    /// The tracked pull request `num` of `repo`.
    pub fn find(&self, repo: &str, num: u64) -> (found: Option<&Pull>)
        ensures
            found_view(found) == lookup(self@, repo@, num),
    {
        match index_of(&self.prs, repo, num) {
            Some(i) => {
                proof {
                    lemma_position_is(self@, i as int, repo@, num);
                }
                Some(&self.prs[i])
            },
            None => None,
        }
    }

    /// Offers a pull request to the queue. It is appended, unless it is
    /// tracked already, or claims a running build in a repository that has
    /// one. Returns whether it was appended.
    pub fn insert(&mut self, pr: Pull) -> (inserted: bool)
        ensures
            inserted == admits(old(self)@, pr@),
            final(self)@ == offer(old(self)@, pr@),
            final(self).config() == old(self).config(),
            sound(final(self)@),
    {
        proof {
            use_type_invariant(&*self);
            lemma_offer_sound(self@, pr@);
        }
        if index_of(&self.prs, pr.repo().as_str(), pr.num()).is_some() {
            return false;
        }
        if pr.is_testing() && is_busy(&self.prs, pr.repo().as_str()) {
            return false;
        }
        assert(views(self.prs@.push(pr)) =~= views(self.prs@).push(pr@));
        let mut prs: Vec<Pull> = Vec::new();
        std::mem::swap(&mut prs, &mut self.prs);
        prs.push(pr);
        self.prs = prs;
        true
    }

    /// Takes pull request `num` of `repo` out of the queue, and returns it.
    pub fn remove(&mut self, repo: &str, num: u64) -> (taken: Option<Pull>)
        ensures
            taken_view(taken) == lookup(old(self)@, repo@, num),
            final(self)@ == without(old(self)@, repo@, num),
            final(self).config() == old(self).config(),
            sound(final(self)@),
    {
        proof {
            use_type_invariant(&*self);
            lemma_without_sound(self@, repo@, num);
        }
        match index_of(&self.prs, repo, num) {
            Some(i) => {
                proof {
                    lemma_position_is(self@, i as int, repo@, num);
                    assert(views(self.prs@.remove(i as int)) =~= views(self.prs@).remove(i as int));
                }
                let mut prs: Vec<Pull> = Vec::new();
                std::mem::swap(&mut prs, &mut self.prs);
                let pr = prs.remove(i);
                self.prs = prs;
                Some(pr)
            },
            None => None,
        }
    }

    /// Carries out the commands that `user` gave in `comment` on pull
    /// request `num` of `repo`. Returns whether the pull request is tracked:
    /// if it is not, nothing changes.
    pub fn command(&mut self, repo: &str, num: u64, comment: String, user: String) -> (known: bool)
        ensures
            known == tracks(old(self)@, repo@, num),
            final(self)@ == commented(old(self)@, repo@, num, comment@, user@),
            final(self).config() == old(self).config(),
            sound(final(self)@),
    {
        proof {
            use_type_invariant(&*self);
        }
        let ghost q = self@;
        match index_of(&self.prs, repo, num) {
            Some(i) => {
                proof {
                    lemma_position_is(q, i as int, repo@, num);
                    lemma_commands_keep(q[i as int], commands(comment@), user@);
                    lemma_update_sound(
                        q,
                        i as int,
                        q[i as int].apply_all(commands(comment@), user@),
                    );
                }
                let mut prs: Vec<Pull> = Vec::new();
                std::mem::swap(&mut prs, &mut self.prs);
                parse_commands(&mut prs[i], comment, user);
                assert(views(prs@) =~= q.update(
                    i as int,
                    q[i as int].apply_all(commands(comment@), user@),
                ));
                self.prs = prs;
                true
            },
            None => false,
        }
    }

    /// One scheduler tick for `repo`. While a build of the repository is
    /// running nothing happens. Otherwise the first of its pull requests
    /// that may be promoted, in insertion order, is given the build slot.
    /// Returns the number of the promoted pull request: its build is to be
    /// started.
    pub fn queue_repo(&mut self, repo: &Repository) -> (promoted: Option<u64>)
        ensures
            final(self)@ == ticked(old(self)@, repo.name@),
            promoted == match next_up(old(self)@, repo.name@) {
                Some(i) => Some(old(self)@[i].num),
                None => None::<u64>,
            },
            final(self).config() == old(self).config(),
            sound(final(self)@),
    {
        proof {
            use_type_invariant(&*self);
        }
        let mut prs: Vec<Pull> = Vec::new();
        std::mem::swap(&mut prs, &mut self.prs);
        let promoted = promote(&mut prs, repo.name.as_str());
        self.prs = prs;
        promoted
    }

    /// One scheduler tick for each watched repository, in the order of the
    /// configuration. Returns the builds to start.
    pub fn queue(&mut self) -> (builds: Vec<Build>)
        ensures
            final(self)@ == ticked_all(old(self)@, old(self).config().names()),
            builds_view(builds@) == promotions(old(self)@, old(self).config().names()),
            final(self).config() == old(self).config(),
            sound(final(self)@),
    {
        proof {
            use_type_invariant(&*self);
        }
        let ghost q = self@;
        let ghost names = self.cfg.names();
        let mut builds: Vec<Build> = Vec::new();
        let mut prs: Vec<Pull> = Vec::new();
        std::mem::swap(&mut prs, &mut self.prs);
        let mut k: usize = 0;
        assert(builds_view(builds@) =~= Seq::empty());
        while k < self.cfg.repositories.len()
            invariant
                k <= self.cfg.repositories.len(),
                self.cfg == old(self).cfg,
                names == self.cfg.names(),
                self.prs@.len() == 0,
                sound(views(prs@)),
                views(prs@) == ticked_all(q, names.take(k as int)),
                builds_view(builds@) == promotions(q, names.take(k as int)),
            decreases self.cfg.repositories.len() - k,
        {
            let name = self.cfg.repositories[k].name.as_str();
            proof {
                assert(names.take(k + 1).drop_last() =~= names.take(k as int));
                assert(names.take(k + 1).last() == name@);
            }
            match promote(&mut prs, name) {
                Some(number) => {
                    let build = Build { repo: String::from_str(name), number };
                    assert(builds_view(builds@.push(build)) =~= builds_view(builds@).push(
                        (name@, number),
                    ));
                    builds.push(build);
                },
                None => {},
            }
            k = k + 1;
        }
        assert(names.take(k as int) =~= names);
        self.prs = prs;
        builds
    }

    /// What a build result asks for, as the queue stands. Nothing changes:
    /// the caller learns whether there is anything to merge.
    pub fn build_outcome(&self, res: &BuildResult) -> (outcome: BuildOutcome)
        ensures
            outcome == outcome_of(self@, *res),
    {
        match index_of(&self.prs, res.repo.as_str(), res.number) {
            None => BuildOutcome::Untracked,
            Some(i) => {
                proof {
                    lemma_position_is(self@, i as int, res.repo@, res.number);
                }
                if res.success {
                    BuildOutcome::Passed
                } else if self.prs[i].is_testing() {
                    BuildOutcome::Failed
                } else {
                    BuildOutcome::Stale
                }
            },
        }
    }

    /// Takes in the result of a build. A result for a pull request that is
    /// not tracked changes nothing. A failure is recorded on the entity if
    /// its build was running. After a success the pull request is merged
    /// and closed, which is the caller's to do; `merged` says whether that
    /// was done. If it was, the pull request leaves the queue; if it was
    /// not, the queue stays as it is.
    pub fn handle_build_result(&mut self, res: &BuildResult, merged: bool) -> (outcome:
        BuildOutcome)
        ensures
            outcome == outcome_of(old(self)@, *res),
            final(self)@ == if res.success {
                if merged {
                    without(old(self)@, res.repo@, res.number)
                } else {
                    old(self)@
                }
            } else {
                failed(old(self)@, res.repo@, res.number, failure_reason(res.sha@))
            },
            final(self).config() == old(self).config(),
            sound(final(self)@),
    {
        proof {
            use_type_invariant(&*self);
        }
        let ghost q = self@;
        match index_of(&self.prs, res.repo.as_str(), res.number) {
            None => BuildOutcome::Untracked,
            Some(i) => {
                proof {
                    lemma_position_is(q, i as int, res.repo@, res.number);
                }
                if res.success {
                    if merged {
                        proof {
                            lemma_without_sound(q, res.repo@, res.number);
                            assert(views(self.prs@.remove(i as int)) =~= q.remove(i as int));
                        }
                        let mut prs: Vec<Pull> = Vec::new();
                        std::mem::swap(&mut prs, &mut self.prs);
                        prs.remove(i);
                        self.prs = prs;
                    }
                    BuildOutcome::Passed
                } else {
                    let mut reason = String::from_str("build failed at ");
                    reason.append(res.sha.as_str());
                    proof {
                        lemma_failed_sound(q, res.repo@, res.number, reason@);
                    }
                    let mut prs: Vec<Pull> = Vec::new();
                    std::mem::swap(&mut prs, &mut self.prs);
                    let applied = prs[i].fail(reason.as_str());
                    assert(views(prs@) =~= q.update(i as int, q[i as int].fail(reason@)));
                    self.prs = prs;
                    if applied {
                        BuildOutcome::Failed
                    } else {
                        BuildOutcome::Stale
                    }
                }
            },
        }
    }
}

} // verus!
