//! The merge queue as a mathematical object.
//!
//! A queue is the sequence of the tracked entities in the order in which they
//! were inserted. This module says what each step does to such a sequence,
//! and proves what holds of every queue that the steps can reach: no entity
//! is tracked twice, and no repository has two builds running.

use crate::pullrequest::{commands, PullView};
use vstd::prelude::*;

verus! {

/// Whether entry `i` of `q` is entity `num` of `repo`.
pub open spec fn holds(q: Seq<PullView>, i: int, repo: Seq<char>, num: u64) -> bool {
    0 <= i < q.len() && q[i].is(repo, num)
}

/// Whether entity `num` of `repo` is tracked.
pub open spec fn tracks(q: Seq<PullView>, repo: Seq<char>, num: u64) -> bool {
    exists|i: int| holds(q, i, repo, num)
}

/// Whether entry `i` is the first that is entity `num` of `repo`.
pub open spec fn first_holds(q: Seq<PullView>, i: int, repo: Seq<char>, num: u64) -> bool {
    holds(q, i, repo, num) && forall|j: int| 0 <= j < i ==> !holds(q, j, repo, num)
}

/// Where entity `num` of `repo` stands in the queue, if it is tracked.
pub open spec fn position(q: Seq<PullView>, repo: Seq<char>, num: u64) -> int {
    choose|i: int| first_holds(q, i, repo, num)
}

/// The tracked entity `num` of `repo`, if there is one.
pub open spec fn lookup(q: Seq<PullView>, repo: Seq<char>, num: u64) -> Option<PullView> {
    if tracks(q, repo, num) {
        Some(q[position(q, repo, num)])
    } else {
        None
    }
}

/// No entity is tracked twice.
pub open spec fn distinct(q: Seq<PullView>) -> bool {
    forall|i: int, j: int|
        0 <= i < j < q.len() ==> !(#[trigger] q[i]).is((#[trigger] q[j]).repo, q[j].num)
}

/// Whether entry `i` of `q` is a running build of `repo`.
pub open spec fn running(q: Seq<PullView>, i: int, repo: Seq<char>) -> bool {
    0 <= i < q.len() && q[i].repo == repo && q[i].state is Testing
}

/// Whether a build of `repo` is running.
pub open spec fn busy(q: Seq<PullView>, repo: Seq<char>) -> bool {
    exists|i: int| running(q, i, repo)
}

/// No repository has two builds running.
pub open spec fn single_flight(q: Seq<PullView>) -> bool {
    forall|i: int, j: int|
        0 <= i < j < q.len() && (#[trigger] q[i]).state is Testing && (#[trigger] q[j]).state
            is Testing ==> q[i].repo != q[j].repo
}

/// What holds of every queue: see [`distinct`] and [`single_flight`].
pub open spec fn sound(q: Seq<PullView>) -> bool {
    distinct(q) && single_flight(q)
}

/// Whether entry `i` of `q` belongs to `repo` and may be promoted.
pub open spec fn candidate(q: Seq<PullView>, i: int, repo: Seq<char>) -> bool {
    0 <= i < q.len() && q[i].repo == repo && q[i].eligible()
}

/// Whether entry `i` is the first of `repo` that may be promoted.
pub open spec fn first_candidate(q: Seq<PullView>, i: int, repo: Seq<char>) -> bool {
    candidate(q, i, repo) && forall|j: int| 0 <= j < i ==> !candidate(q, j, repo)
}

/// The entry that a tick of `repo` promotes: none while a build of the
/// repository is running, else the first of its entities that may be
/// promoted, in insertion order.
pub open spec fn next_up(q: Seq<PullView>, repo: Seq<char>) -> Option<int> {
    if !busy(q, repo) && exists|i: int| candidate(q, i, repo) {
        Some(choose|i: int| first_candidate(q, i, repo))
    } else {
        None
    }
}

/// Whether the queue takes the entity `pr`: it does unless the entity is
/// tracked already, or claims a running build in a repository that has one.
pub open spec fn admits(q: Seq<PullView>, pr: PullView) -> bool {
    !tracks(q, pr.repo, pr.num) && !(pr.state is Testing && busy(q, pr.repo))
}

/// The queue after the entity `pr` was offered to it: the entity is appended
/// if the queue takes it, else the queue stays as it is.
pub open spec fn offer(q: Seq<PullView>, pr: PullView) -> Seq<PullView> {
    if admits(q, pr) {
        q.push(pr)
    } else {
        q
    }
}

/// The queue after each of `prs` was offered to it in turn.
pub open spec fn offer_all(q: Seq<PullView>, prs: Seq<PullView>) -> Seq<PullView>
    decreases prs.len(),
{
    if prs.len() == 0 {
        q
    } else {
        offer(offer_all(q, prs.drop_last()), prs.last())
    }
}

/// The queue after a pull request was opened: a fresh entity is offered.
pub open spec fn opened(q: Seq<PullView>, repo: Seq<char>, num: u64, title: Seq<char>) -> Seq<
    PullView,
> {
    offer(q, PullView::fresh(repo, num, title))
}

/// The queue after `user` commented `comment` on pull request `num` of
/// `repo`: the commands in the comment are applied to the entity, if it is
/// tracked.
pub open spec fn commented(
    q: Seq<PullView>,
    repo: Seq<char>,
    num: u64,
    comment: Seq<char>,
    user: Seq<char>,
) -> Seq<PullView> {
    if tracks(q, repo, num) {
        let i = position(q, repo, num);
        q.update(i, q[i].apply_all(commands(comment), user))
    } else {
        q
    }
}

/// The queue after a scheduler tick for `repo`.
pub open spec fn ticked(q: Seq<PullView>, repo: Seq<char>) -> Seq<PullView> {
    match next_up(q, repo) {
        Some(i) => q.update(i, q[i].test()),
        None => q,
    }
}

/// The queue after a scheduler tick for each of `repos` in turn.
pub open spec fn ticked_all(q: Seq<PullView>, repos: Seq<Seq<char>>) -> Seq<PullView>
    decreases repos.len(),
{
    if repos.len() == 0 {
        q
    } else {
        ticked(ticked_all(q, repos.drop_last()), repos.last())
    }
}

/// The queue after a build of pull request `num` of `repo` failed for
/// `reason`.
pub open spec fn failed(q: Seq<PullView>, repo: Seq<char>, num: u64, reason: Seq<char>) -> Seq<
    PullView,
> {
    if tracks(q, repo, num) {
        let i = position(q, repo, num);
        q.update(i, q[i].fail(reason))
    } else {
        q
    }
}

/// The queue without entity `num` of `repo`.
pub open spec fn without(q: Seq<PullView>, repo: Seq<char>, num: u64) -> Seq<PullView> {
    if tracks(q, repo, num) {
        q.remove(position(q, repo, num))
    } else {
        q
    }
}

/// A tracked entity has a first entry, and that is its position.
pub proof fn lemma_position(q: Seq<PullView>, repo: Seq<char>, num: u64)
    requires
        tracks(q, repo, num),
    ensures
        first_holds(q, position(q, repo, num), repo, num),
{
    let i = choose|i: int| holds(q, i, repo, num);
    lemma_first_before(q, i, repo, num);
}

proof fn lemma_first_before(q: Seq<PullView>, i: int, repo: Seq<char>, num: u64)
    requires
        holds(q, i, repo, num),
    ensures
        exists|k: int| first_holds(q, k, repo, num),
    decreases i,
{
    if exists|j: int| 0 <= j < i && holds(q, j, repo, num) {
        let j = choose|j: int| 0 <= j < i && holds(q, j, repo, num);
        lemma_first_before(q, j, repo, num);
    } else {
        assert(first_holds(q, i, repo, num));
    }
}

/// An entry that is the first of its entity is the entity's position.
pub proof fn lemma_position_is(q: Seq<PullView>, i: int, repo: Seq<char>, num: u64)
    requires
        first_holds(q, i, repo, num),
    ensures
        tracks(q, repo, num),
        position(q, repo, num) == i,
        lookup(q, repo, num) == Some(q[i]),
{
    let k = position(q, repo, num);
    assert(holds(q, i, repo, num));
    assert(first_holds(q, k, repo, num));
    if k < i {
        assert(holds(q, k, repo, num));
    } else if i < k {
        assert(holds(q, i, repo, num));
    }
}

/// When a repository is idle and has a candidate, a first one exists, and a
/// tick picks it.
pub proof fn lemma_next_up(q: Seq<PullView>, repo: Seq<char>)
    ensures
        next_up(q, repo) matches Some(i) ==> first_candidate(q, i, repo) && !busy(q, repo),
        next_up(q, repo) is None ==> busy(q, repo) || forall|i: int| !candidate(q, i, repo),
{
    if !busy(q, repo) && exists|i: int| candidate(q, i, repo) {
        let i = choose|i: int| candidate(q, i, repo);
        lemma_first_candidate_before(q, i, repo);
    }
}

proof fn lemma_first_candidate_before(q: Seq<PullView>, i: int, repo: Seq<char>)
    requires
        candidate(q, i, repo),
    ensures
        exists|k: int| first_candidate(q, k, repo),
    decreases i,
{
    if exists|j: int| 0 <= j < i && candidate(q, j, repo) {
        let j = choose|j: int| 0 <= j < i && candidate(q, j, repo);
        lemma_first_candidate_before(q, j, repo);
    } else {
        assert(first_candidate(q, i, repo));
    }
}

/// An idle repository's first candidate is the one a tick picks.
pub proof fn lemma_next_up_is(q: Seq<PullView>, i: int, repo: Seq<char>)
    requires
        !busy(q, repo),
        first_candidate(q, i, repo),
    ensures
        next_up(q, repo) == Some(i),
{
    assert(candidate(q, i, repo));
    let k = choose|k: int| first_candidate(q, k, repo);
    assert(first_candidate(q, k, repo));
    if k < i {
        assert(candidate(q, k, repo));
    } else if i < k {
        assert(candidate(q, i, repo));
    }
}

/// Changing one entity leaves no entity tracked twice, as long as the entity
/// keeps its identity.
pub proof fn lemma_update_distinct(q: Seq<PullView>, i: int, pr: PullView)
    requires
        distinct(q),
        0 <= i < q.len(),
        pr.is(q[i].repo, q[i].num),
    ensures
        distinct(q.update(i, pr)),
{
    let r = q.update(i, pr);
    assert forall|a: int, b: int| 0 <= a < b < r.len() implies !(#[trigger] r[a]).is(
        (#[trigger] r[b]).repo,
        r[b].num,
    ) by {
        assert(!q[a].is(q[b].repo, q[b].num));
    }
}

/// Changing one entity keeps the queue sound, as long as the entity keeps its
/// identity and does not start a build by the change.
pub proof fn lemma_update_sound(q: Seq<PullView>, i: int, pr: PullView)
    requires
        sound(q),
        0 <= i < q.len(),
        pr.is(q[i].repo, q[i].num),
        pr.state is Testing ==> q[i].state is Testing,
    ensures
        sound(q.update(i, pr)),
{
    let r = q.update(i, pr);
    lemma_update_distinct(q, i, pr);
    assert forall|a: int, b: int|
        0 <= a < b < r.len() && (#[trigger] r[a]).state is Testing && (#[trigger] r[b]).state
            is Testing implies r[a].repo != r[b].repo by {
        assert(q[a].state is Testing && q[b].state is Testing);
    }
}

/// Commands never start a build and never change who an entity is.
pub proof fn lemma_commands_keep(pr: PullView, cmds: Seq<crate::pullrequest::Command>, user: Seq<char>)
    ensures
        pr.apply_all(cmds, user).is(pr.repo, pr.num),
        pr.apply_all(cmds, user).state is Testing ==> pr.state is Testing,
    decreases cmds.len(),
{
    if cmds.len() > 0 {
        lemma_commands_keep(pr, cmds.drop_last(), user);
    }
}

/// Offering an entity keeps the queue sound.
pub proof fn lemma_offer_sound(q: Seq<PullView>, pr: PullView)
    requires
        sound(q),
    ensures
        sound(offer(q, pr)),
{
    if admits(q, pr) {
        let r = q.push(pr);
        assert forall|a: int, b: int| 0 <= a < b < r.len() implies !(#[trigger] r[a]).is(
            (#[trigger] r[b]).repo,
            r[b].num,
        ) by {
            if b == q.len() {
                assert(!holds(q, a, pr.repo, pr.num));
            } else {
                assert(!q[a].is(q[b].repo, q[b].num));
            }
        }
        assert forall|a: int, b: int|
            0 <= a < b < r.len() && (#[trigger] r[a]).state is Testing && (#[trigger] r[b]).state
                is Testing implies r[a].repo != r[b].repo by {
            if b == q.len() {
                assert(!running(q, a, pr.repo));
            } else {
                assert(q[a].state is Testing && q[b].state is Testing);
            }
        }
    }
}

/// A comment keeps the queue sound.
pub proof fn lemma_commented_sound(
    q: Seq<PullView>,
    repo: Seq<char>,
    num: u64,
    comment: Seq<char>,
    user: Seq<char>,
)
    requires
        sound(q),
    ensures
        sound(commented(q, repo, num, comment, user)),
{
    if tracks(q, repo, num) {
        lemma_position(q, repo, num);
        let i = position(q, repo, num);
        lemma_commands_keep(q[i], commands(comment), user);
        lemma_update_sound(q, i, q[i].apply_all(commands(comment), user));
    }
}

/// A tick keeps the queue sound: it starts a build only in a repository that
/// has none running.
pub proof fn lemma_ticked_sound(q: Seq<PullView>, repo: Seq<char>)
    requires
        sound(q),
    ensures
        sound(ticked(q, repo)),
{
    lemma_next_up(q, repo);
    match next_up(q, repo) {
        Some(i) => {
            let r = q.update(i, q[i].test());
            lemma_update_distinct(q, i, q[i].test());
            assert forall|a: int, b: int|
                0 <= a < b < r.len() && (#[trigger] r[a]).state is Testing && (
                #[trigger] r[b]).state is Testing implies r[a].repo != r[b].repo by {
                if a == i {
                    assert(!running(q, b, repo));
                } else if b == i {
                    assert(!running(q, a, repo));
                } else {
                    assert(q[a].state is Testing && q[b].state is Testing);
                }
            }
        },
        None => {},
    }
}

/// Ticks for several repositories keep the queue sound.
pub proof fn lemma_ticked_all_sound(q: Seq<PullView>, repos: Seq<Seq<char>>)
    requires
        sound(q),
    ensures
        sound(ticked_all(q, repos)),
    decreases repos.len(),
{
    if repos.len() > 0 {
        lemma_ticked_all_sound(q, repos.drop_last());
        lemma_ticked_sound(ticked_all(q, repos.drop_last()), repos.last());
    }
}

/// A failed build keeps the queue sound.
pub proof fn lemma_failed_sound(q: Seq<PullView>, repo: Seq<char>, num: u64, reason: Seq<char>)
    requires
        sound(q),
    ensures
        sound(failed(q, repo, num, reason)),
{
    if tracks(q, repo, num) {
        lemma_position(q, repo, num);
        let i = position(q, repo, num);
        lemma_update_sound(q, i, q[i].fail(reason));
    }
}

/// Removing an entity keeps the queue sound, and the entity is gone.
pub proof fn lemma_without_sound(q: Seq<PullView>, repo: Seq<char>, num: u64)
    requires
        sound(q),
    ensures
        sound(without(q, repo, num)),
        !tracks(without(q, repo, num), repo, num),
{
    let r = without(q, repo, num);
    if tracks(q, repo, num) {
        lemma_position(q, repo, num);
        let i = position(q, repo, num);
        assert forall|a: int, b: int| 0 <= a < b < r.len() implies !(#[trigger] r[a]).is(
            (#[trigger] r[b]).repo,
            r[b].num,
        ) by {
            let a0 = if a < i { a } else { a + 1 };
            let b0 = if b < i { b } else { b + 1 };
            assert(!q[a0].is(q[b0].repo, q[b0].num));
        }
        assert forall|a: int, b: int|
            0 <= a < b < r.len() && (#[trigger] r[a]).state is Testing && (#[trigger] r[b]).state
                is Testing implies r[a].repo != r[b].repo by {
            let a0 = if a < i { a } else { a + 1 };
            let b0 = if b < i { b } else { b + 1 };
            assert(q[a0].state is Testing && q[b0].state is Testing);
        }
        assert forall|k: int| !holds(r, k, repo, num) by {
            if holds(r, k, repo, num) {
                let k0 = if k < i { k } else { k + 1 };
                assert(holds(q, k0, repo, num));
                if k0 > i {
                    assert(q[i].is(q[k0].repo, q[k0].num));
                }
            }
        }
    }
}

/// One thing that happens to a queue.
pub enum Step {
    /// A pull request was opened.
    Opened { repo: Seq<char>, num: u64, title: Seq<char> },
    /// An entity was offered as it is.
    Offered { pr: PullView },
    /// A user commented on a pull request.
    Commented { repo: Seq<char>, num: u64, comment: Seq<char>, user: Seq<char> },
    /// The scheduler ticked for a repository.
    Ticked { repo: Seq<char> },
    /// A build failed.
    Failed { repo: Seq<char>, num: u64, reason: Seq<char> },
    /// A pull request was merged, and is tracked no more.
    Merged { repo: Seq<char>, num: u64 },
}

/// The queue after one step.
pub open spec fn after(q: Seq<PullView>, step: Step) -> Seq<PullView> {
    match step {
        Step::Opened { repo, num, title } => opened(q, repo, num, title),
        Step::Offered { pr } => offer(q, pr),
        Step::Commented { repo, num, comment, user } => commented(q, repo, num, comment, user),
        Step::Ticked { repo } => ticked(q, repo),
        Step::Failed { repo, num, reason } => failed(q, repo, num, reason),
        Step::Merged { repo, num } => without(q, repo, num),
    }
}

/// The queue after a run of steps.
pub open spec fn after_all(q: Seq<PullView>, steps: Seq<Step>) -> Seq<PullView>
    decreases steps.len(),
{
    if steps.len() == 0 {
        q
    } else {
        after(after_all(q, steps.drop_last()), steps.last())
    }
}

/// Every step keeps the queue sound.
pub proof fn lemma_after_sound(q: Seq<PullView>, step: Step)
    requires
        sound(q),
    ensures
        sound(after(q, step)),
{
    match step {
        Step::Opened { repo, num, title } => lemma_offer_sound(q, PullView::fresh(repo, num, title)),
        Step::Offered { pr } => lemma_offer_sound(q, pr),
        Step::Commented { repo, num, comment, user } => lemma_commented_sound(
            q,
            repo,
            num,
            comment,
            user,
        ),
        Step::Ticked { repo } => lemma_ticked_sound(q, repo),
        Step::Failed { repo, num, reason } => lemma_failed_sound(q, repo, num, reason),
        Step::Merged { repo, num } => lemma_without_sound(q, repo, num),
    }
}

/// Single flight: whatever happens to a sound queue, in whatever order, at
/// no point of the run do two entities of one repository hold a running
/// build, and at no point is an entity tracked twice.
pub proof fn lemma_single_flight(q: Seq<PullView>, steps: Seq<Step>, upto: int)
    requires
        sound(q),
        0 <= upto <= steps.len(),
    ensures
        single_flight(after_all(q, steps.take(upto))),
        distinct(after_all(q, steps.take(upto))),
    decreases upto,
{
    if upto > 0 {
        let sofar = steps.take(upto);
        assert(sofar.drop_last() =~= steps.take(upto - 1));
        lemma_single_flight(q, steps, upto - 1);
        lemma_after_sound(after_all(q, steps.take(upto - 1)), sofar.last());
    }
}

/// First come, first served: of two entities of one repository that may
/// both be promoted, a tick leaves the later one where it is; and it
/// promotes the earlier one if the repository is idle and no entity before
/// it may be promoted.
pub proof fn lemma_first_come_first_served(q: Seq<PullView>, repo: Seq<char>, a: int, b: int)
    requires
        a < b,
        candidate(q, a, repo),
        candidate(q, b, repo),
    ensures
        ticked(q, repo)[b] == q[b],
        !busy(q, repo) && first_candidate(q, a, repo) ==> ticked(q, repo)[a] == q[a].test(),
        ticked(q, repo).len() == q.len(),
{
    lemma_next_up(q, repo);
    if !busy(q, repo) && first_candidate(q, a, repo) {
        lemma_next_up_is(q, a, repo);
    }
}

/// Repositories do not get in each other's way: a tick for one repository
/// leaves the entities of every other as they are.
pub proof fn lemma_tick_isolated(q: Seq<PullView>, repo: Seq<char>, i: int)
    requires
        0 <= i < q.len(),
        q[i].repo != repo,
    ensures
        ticked(q, repo).len() == q.len(),
        ticked(q, repo)[i] == q[i],
{
    lemma_next_up(q, repo);
}

/// A merged pull request is gone, and nothing else is: the queue is one
/// shorter, the entity is tracked no more, and every other entity stands
/// where it stood relative to the rest.
pub proof fn lemma_without(q: Seq<PullView>, repo: Seq<char>, num: u64)
    requires
        sound(q),
        tracks(q, repo, num),
    ensures
        without(q, repo, num).len() == q.len() - 1,
        lookup(without(q, repo, num), repo, num) is None,
        forall|k: int|
            0 <= k < q.len() - 1 ==> #[trigger] without(q, repo, num)[k] == q[if k < position(
                q,
                repo,
                num,
            ) {
                k
            } else {
                k + 1
            }],
{
    lemma_position(q, repo, num);
    lemma_without_sound(q, repo, num);
}

/// A failed build changes the entity it belongs to and no other.
pub proof fn lemma_failed(q: Seq<PullView>, repo: Seq<char>, num: u64, reason: Seq<char>, k: int)
    requires
        0 <= k < q.len(),
        !q[k].is(repo, num),
    ensures
        failed(q, repo, num, reason).len() == q.len(),
        failed(q, repo, num, reason)[k] == q[k],
{
    if tracks(q, repo, num) {
        lemma_position(q, repo, num);
    }
}

/// A tick changes at most one entity, and only by giving it the build slot of
/// an idle repository: a second tick right after it changes nothing.
pub proof fn lemma_tick_twice(q: Seq<PullView>, repo: Seq<char>)
    ensures
        ticked(ticked(q, repo), repo) == ticked(q, repo),
{
    lemma_next_up(q, repo);
    let once = ticked(q, repo);
    match next_up(q, repo) {
        Some(i) => {
            assert(running(once, i, repo));
        },
        None => {},
    }
}

} // verus!
