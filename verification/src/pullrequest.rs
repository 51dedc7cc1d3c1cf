//! The pull request entity and its state machine.
//!
//! A [`Pull`] records what the bot knows about one pull request: where it
//! lives, who approved it, whether it is held back, and how far it has come on
//! its way to a merge. Every transition is a total function of the current
//! value: a transition that does not apply leaves the entity as it was and
//! says so in its result.

use crate::text::{order_texts, same_text, text_order, words, words_of, words_view, Order};
use std::cmp::Ordering;
use vstd::prelude::*;

verus! {

/// How far a pull request has come.
#[derive(Debug, PartialEq, Eq, PartialOrd, Ord)]
pub enum Progress {
    /// The last build failed. The approval still stands: a retry is enough
    /// to queue the pull request again.
    Failure(String),
    /// The initial state: known, but not approved.
    Ready,
    /// Approved (or retried) and waiting for the repository's build slot.
    Pending,
    /// Holding the repository's single build slot.
    Testing,
}

/// The mathematical value of a [`Progress`].
pub enum ProgressView {
    Failure(Seq<char>),
    Ready,
    Pending,
    Testing,
}

impl ProgressView {
    /// The place of a state among the states: failed entities first, then
    /// ready, queued and running ones.
    pub open spec fn rank(self) -> int {
        match self {
            ProgressView::Failure(_) => 0,
            ProgressView::Ready => 1,
            ProgressView::Pending => 2,
            ProgressView::Testing => 3,
        }
    }

    /// How this state stands to `other`: by rank, and two failures by their
    /// reasons.
    pub open spec fn order(self, other: ProgressView) -> Order {
        if self.rank() < other.rank() {
            Order::Less
        } else if self.rank() > other.rank() {
            Order::Greater
        } else {
            match (self, other) {
                (ProgressView::Failure(mine), ProgressView::Failure(theirs)) => text_order(
                    mine,
                    theirs,
                ),
                _ => Order::Equal,
            }
        }
    }
}

impl View for Progress {
    type V = ProgressView;

    open spec fn view(&self) -> ProgressView {
        match self {
            Progress::Failure(reason) => ProgressView::Failure(reason@),
            Progress::Ready => ProgressView::Ready,
            Progress::Pending => ProgressView::Pending,
            Progress::Testing => ProgressView::Testing,
        }
    }
}

impl Progress {
    fn rank(&self) -> (r: u8)
        ensures
            r == self@.rank(),
    {
        match self {
            Progress::Failure(_) => 0,
            Progress::Ready => 1,
            Progress::Pending => 2,
            Progress::Testing => 3,
        }
    }

    /// How this state stands to `other`.
    pub fn order(&self, other: &Progress) -> (o: Order)
        ensures
            o == self@.order(other@),
    {
        let mine: u8 = self.rank();
        let theirs: u8 = other.rank();
        if mine < theirs {
            Order::Less
        } else if mine > theirs {
            Order::Greater
        } else {
            match (self, other) {
                (Progress::Failure(x), Progress::Failure(y)) => order_texts(x.as_str(), y.as_str()),
                _ => Order::Equal,
            }
        }
    }
}

impl Default for Progress {
    fn default() -> (p: Progress)
        ensures
            p@ == ProgressView::Ready,
    {
        Progress::Ready
    }
}

/// A command that a maintainer gives in a comment.
#[derive(Debug, Clone, Copy, PartialEq, Eq, Structural)]
pub enum Command {
    /// `r+`: approve the pull request.
    Approve,
    /// `retry`: queue it again after a failed build.
    Retry,
    /// `reset`: revoke the approval and abandon its progress.
    Reset,
}

/// The command that a word stands for, if it is one.
pub open spec fn command_of(word: Seq<char>) -> Option<Command> {
    if word == seq!['r', '+'] {
        Some(Command::Approve)
    } else if word == seq!['r', 'e', 't', 'r', 'y'] {
        Some(Command::Retry)
    } else if word == seq!['r', 'e', 's', 'e', 't'] {
        Some(Command::Reset)
    } else {
        None
    }
}

/// The commands among `words`, in the order of the words. A word that is no
/// command is passed over.
pub open spec fn commands_in(words: Seq<Seq<char>>) -> Seq<Command>
    decreases words.len(),
{
    if words.len() == 0 {
        Seq::empty()
    } else {
        match command_of(words.last()) {
            Some(cmd) => commands_in(words.drop_last()).push(cmd),
            None => commands_in(words.drop_last()),
        }
    }
}

/// The commands that a comment holds, from left to right.
pub open spec fn commands(comment: Seq<char>) -> Seq<Command> {
    commands_in(words_of(comment))
}

/// The view of an optional string.
pub open spec fn text_view(o: Option<String>) -> Option<Seq<char>> {
    match o {
        Some(s) => Some(s@),
        None => None,
    }
}

/// One tracked pull request.
///
/// `repo` and `num` identify it and never change after [`Pull::new`].
#[derive(Debug, PartialEq, Eq)]
pub struct Pull {
    /// The full `owner/name` of the repository.
    repo: String,
    /// Title of the pull request; informational.
    title: String,
    /// The number the platform gave it, unique within `repo`.
    num: u64,
    /// How far it has come.
    state: Progress,
    /// Who approved it last, if anybody.
    approver: Option<String>,
    /// Held back by an operator: never promoted to testing while set.
    blocked: bool,
    /// Whether the platform reports it free of merge conflicts.
    mergeable: bool,
}

/// The mathematical value of a [`Pull`]. All contracts speak of this.
pub struct PullView {
    pub repo: Seq<char>,
    pub title: Seq<char>,
    pub num: u64,
    pub state: ProgressView,
    pub approver: Option<Seq<char>>,
    pub blocked: bool,
    pub mergeable: bool,
}

impl PullView {
    /// A freshly created entity: ready, unapproved, unblocked, mergeable.
    pub open spec fn fresh(repo: Seq<char>, num: u64, title: Seq<char>) -> PullView {
        PullView {
            repo,
            title,
            num,
            state: ProgressView::Ready,
            approver: None,
            blocked: false,
            mergeable: true,
        }
    }

    /// Approval by `approver`. Refused while blocked. Otherwise the approver
    /// is stamped (the last one wins) and the entity is queued, unless a
    /// build of it is already running, which goes on undisturbed.
    pub open spec fn approve(self, approver: Seq<char>) -> PullView {
        if self.blocked {
            self
        } else {
            PullView {
                approver: Some(approver),
                state: if self.state is Testing {
                    ProgressView::Testing
                } else {
                    ProgressView::Pending
                },
                ..self
            }
        }
    }

    /// Whether a retry applies: only after a failed build.
    pub open spec fn can_retry(self) -> bool {
        self.state is Failure
    }

    /// A retry: a failed entity is queued again, any other is left alone.
    pub open spec fn retry(self) -> PullView {
        if self.can_retry() {
            PullView { state: ProgressView::Pending, ..self }
        } else {
            self
        }
    }

    /// A reset revokes the approval and abandons queued or failed progress.
    /// A running build is not forgotten: the entity keeps the build slot it
    /// holds until the build's result arrives.
    pub open spec fn reset(self) -> PullView {
        PullView {
            approver: None,
            state: if self.state is Testing {
                ProgressView::Testing
            } else {
                ProgressView::Ready
            },
            ..self
        }
    }

    /// Blocking holds an entity back, unless its build is already running.
    pub open spec fn block(self) -> PullView {
        if self.state is Testing {
            self
        } else {
            PullView { blocked: true, ..self }
        }
    }

    /// Unblocking always applies.
    pub open spec fn unblock(self) -> PullView {
        PullView { blocked: false, ..self }
    }

    /// The entity takes the build slot.
    pub open spec fn test(self) -> PullView {
        PullView { state: ProgressView::Testing, ..self }
    }

    /// Whether a build failure applies: only to a running build.
    pub open spec fn can_fail(self) -> bool {
        self.state is Testing
    }

    /// A running build failed for `reason`; any other entity is left alone.
    pub open spec fn fail(self, reason: Seq<char>) -> PullView {
        if self.can_fail() {
            PullView { state: ProgressView::Failure(reason), ..self }
        } else {
            self
        }
    }

    /// The platform's report on merge conflicts.
    pub open spec fn set_mergeable(self, mergeable: bool) -> PullView {
        PullView { mergeable, ..self }
    }

    /// Whether the scheduler may promote this entity: queued, free of
    /// conflicts, not held back, and approved by somebody.
    pub open spec fn eligible(self) -> bool {
        &&& self.state is Pending
        &&& self.mergeable
        &&& !self.blocked
        &&& self.approver is Some
    }

    /// How this entity stands to `other` in priority: by state, and among
    /// entities in the same state an unblocked one comes first. Who the
    /// entities are plays no part.
    pub open spec fn order(self, other: PullView) -> Order {
        match self.state.order(other.state) {
            Order::Equal => if self.blocked == other.blocked {
                Order::Equal
            } else if other.blocked {
                Order::Less
            } else {
                Order::Greater
            },
            decided => decided,
        }
    }

    /// Whether this is the entity `num` of `repo`.
    pub open spec fn is(self, repo: Seq<char>, num: u64) -> bool {
        self.repo == repo && self.num == num
    }

    /// What one command, given by `user`, makes of the entity.
    pub open spec fn apply(self, cmd: Command, user: Seq<char>) -> PullView {
        match cmd {
            Command::Approve => self.approve(user),
            Command::Retry => self.retry(),
            Command::Reset => self.reset(),
        }
    }

    /// What a run of commands, all given by `user`, makes of the entity:
    /// each is applied to what the ones before it left.
    pub open spec fn apply_all(self, cmds: Seq<Command>, user: Seq<char>) -> PullView
        decreases cmds.len(),
    {
        if cmds.len() == 0 {
            self
        } else {
            self.apply_all(cmds.drop_last(), user).apply(cmds.last(), user)
        }
    }
}

impl View for Pull {
    type V = PullView;

    closed spec fn view(&self) -> PullView {
        PullView {
            repo: self.repo@,
            title: self.title@,
            num: self.num,
            state: self.state@,
            approver: text_view(self.approver),
            blocked: self.blocked,
            mergeable: self.mergeable,
        }
    }
}

impl Default for Pull {
    fn default() -> (pr: Pull)
        ensures
            pr@ == PullView::fresh(Seq::empty(), 0, Seq::empty()),
    {
        Pull {
            repo: String::new(),
            title: String::new(),
            num: 0,
            state: Progress::Ready,
            approver: None,
            blocked: false,
            mergeable: true,
        }
    }
}

impl Pull {
    /// Creates the entity for pull request `num` of `full_name`.
    pub fn new(full_name: &str, num: u64, title: &str) -> (pr: Pull)
        ensures
            pr@ == PullView::fresh(full_name@, num, title@),
    {
        Pull {
            repo: full_name.to_owned(),
            title: title.to_owned(),
            num,
            state: Progress::Ready,
            approver: None,
            blocked: false,
            mergeable: true,
        }
    }

    /// Approves the pull request in the name of `approver`.
    /// Returns whether the approval was applied: it is not while blocked.
    pub fn approve(&mut self, approver: &str) -> (applied: bool)
        ensures
            applied == !old(self)@.blocked,
            final(self)@ == old(self)@.approve(approver@),
    {
        if self.blocked {
            false
        } else {
            self.approver = Some(approver.to_owned());
            match self.state {
                Progress::Testing => {},
                _ => {
                    self.state = Progress::Pending;
                },
            }
            true
        }
    }

    /// Revokes the approval and abandons queued or failed progress.
    pub fn reset(&mut self)
        ensures
            final(self)@ == old(self)@.reset(),
    {
        self.approver = None;
        match self.state {
            Progress::Testing => {},
            _ => {
                self.state = Progress::Ready;
            },
        }
    }

    /// Lifts a block.
    pub fn unblock(&mut self)
        ensures
            final(self)@ == old(self)@.unblock(),
    {
        self.blocked = false;
    }

    /// Holds the pull request back. Too late for one whose build is running:
    /// that build has to be aborted where it runs.
    pub fn block(&mut self)
        ensures
            final(self)@ == old(self)@.block(),
    {
        match self.state {
            Progress::Testing => {},
            _ => {
                self.blocked = true;
            },
        }
    }

    /// Queues a failed pull request again.
    /// Returns whether the retry was applied: it is only after a failure.
    pub fn retry(&mut self) -> (applied: bool)
        ensures
            applied == old(self)@.can_retry(),
            final(self)@ == old(self)@.retry(),
    {
        let failed = match self.state {
            Progress::Failure(_) => true,
            _ => false,
        };
        if failed {
            self.state = Progress::Pending;
        }
        failed
    }

    /// Gives the pull request the build slot. Only the scheduler does this,
    /// and only to a queued entity.
    pub fn test(&mut self)
        requires
            old(self)@.state is Pending,
        ensures
            final(self)@ == old(self)@.test(),
    {
        self.state = Progress::Testing;
    }

    /// Records that the running build failed for `reason`.
    /// Returns whether the failure was applied: it is only to a running build.
    pub fn fail(&mut self, reason: &str) -> (applied: bool)
        ensures
            applied == old(self)@.can_fail(),
            final(self)@ == old(self)@.fail(reason@),
    {
        let running = match self.state {
            Progress::Testing => true,
            _ => false,
        };
        if running {
            self.state = Progress::Failure(reason.to_owned());
        }
        running
    }

    /// Records the platform's report on merge conflicts.
    pub fn set_mergeable(&mut self, mergeable: bool)
        ensures
            final(self)@ == old(self)@.set_mergeable(mergeable),
    {
        self.mergeable = mergeable;
    }

    /// The full `owner/name` of the repository.
    pub fn repo(&self) -> (repo: &String)
        ensures
            repo@ == self@.repo,
    {
        &self.repo
    }

    /// The pull request's number.
    pub fn num(&self) -> (num: u64)
        ensures
            num == self@.num,
    {
        self.num
    }

    /// The pull request's title.
    pub fn title(&self) -> (title: &String)
        ensures
            title@ == self@.title,
    {
        &self.title
    }

    /// How far the pull request has come.
    pub fn state(&self) -> (state: &Progress)
        ensures
            state@ == self@.state,
    {
        &self.state
    }

    /// Who approved the pull request last, if anybody.
    pub fn approver(&self) -> (approver: &Option<String>)
        ensures
            text_view(*approver) == self@.approver,
    {
        &self.approver
    }

    /// Whether the pull request is held back.
    pub fn blocked(&self) -> (blocked: bool)
        ensures
            blocked == self@.blocked,
    {
        self.blocked
    }

    /// Whether the pull request is free of merge conflicts.
    pub fn mergeable(&self) -> (mergeable: bool)
        ensures
            mergeable == self@.mergeable,
    {
        self.mergeable
    }

    /// Whether this is pull request `num` of `repo`.
    pub fn is(&self, repo: &str, num: u64) -> (same: bool)
        ensures
            same == self@.is(repo@, num),
    {
        self.num == num && same_text(self.repo.as_str(), repo)
    }

    /// How this pull request stands to `other` in priority.
    pub fn order(&self, other: &Pull) -> (o: Order)
        ensures
            o == self@.order(other@),
    {
        let by_state = self.state.order(&other.state);
        match by_state {
            Order::Equal => {
                if self.blocked == other.blocked {
                    Order::Equal
                } else if other.blocked {
                    Order::Less
                } else {
                    Order::Greater
                }
            },
            decided => decided,
        }
    }

    /// How this pull request stands to `other` in priority, in the terms of
    /// the standard library.
    pub fn cmp(&self, other: &Pull) -> (o: Ordering)
        ensures
            match o {
                Ordering::Less => self@.order(other@) == Order::Less,
                Ordering::Equal => self@.order(other@) == Order::Equal,
                Ordering::Greater => self@.order(other@) == Order::Greater,
            },
    {
        match self.order(other) {
            Order::Less => Ordering::Less,
            Order::Equal => Ordering::Equal,
            Order::Greater => Ordering::Greater,
        }
    }

    /// Whether this pull request belongs to `repo`.
    pub fn in_repo(&self, repo: &str) -> (same: bool)
        ensures
            same == (self@.repo == repo@),
    {
        same_text(self.repo.as_str(), repo)
    }

    /// Whether a build of this pull request is running.
    pub fn is_testing(&self) -> (running: bool)
        ensures
            running == (self@.state is Testing),
    {
        match self.state {
            Progress::Testing => true,
            _ => false,
        }
    }

    /// Whether the scheduler may promote this pull request.
    pub fn eligible(&self) -> (ok: bool)
        ensures
            ok == self@.eligible(),
    {
        let queued = match self.state {
            Progress::Pending => true,
            _ => false,
        };
        queued && self.mergeable && !self.blocked && self.approver.is_some()
    }
}

/// The command that `word` stands for, if it is one.
pub fn recognize(word: &Vec<char>) -> (cmd: Option<Command>)
    ensures
        cmd == command_of(word@),
{
    if word.len() == 2 && word[0] == 'r' && word[1] == '+' {
        assert(word@ =~= seq!['r', '+']);
        Some(Command::Approve)
    } else if word.len() == 5 && word[0] == 'r' && word[1] == 'e' && word[2] == 't' && word[3]
        == 'r' && word[4] == 'y' {
        assert(word@ =~= seq!['r', 'e', 't', 'r', 'y']);
        Some(Command::Retry)
    } else if word.len() == 5 && word[0] == 'r' && word[1] == 'e' && word[2] == 's' && word[3]
        == 'e' && word[4] == 't' {
        assert(word@ =~= seq!['r', 'e', 's', 'e', 't']);
        Some(Command::Reset)
    } else {
        None
    }
}

/// Reads the commands out of a comment, from left to right.
pub fn read_commands(comment: &str) -> (cmds: Vec<Command>)
    ensures
        cmds@ == commands(comment@),
{
    let found = words(comment);
    let ghost all = words_of(comment@);
    let mut cmds: Vec<Command> = Vec::new();
    let mut i: usize = 0;
    while i < found.len()
        invariant
            i <= found.len(),
            words_view(found@) == all,
            cmds@ == commands_in(all.take(i as int)),
        decreases found.len() - i,
    {
        proof {
            assert(all.take(i + 1).drop_last() =~= all.take(i as int));
            assert(all.take(i + 1).last() == found@[i as int]@);
        }
        match recognize(&found[i]) {
            Some(cmd) => {
                cmds.push(cmd);
            },
            None => {},
        }
        i = i + 1;
    }
    assert(all.take(i as int) =~= all);
    cmds
}

/// Carries out the commands that `comment` holds, in the name of `user`, from
/// left to right. A command that does not apply is passed over, and so is
/// every word that is no command.
pub fn parse_commands(pr: &mut Pull, comment: String, user: String)
    ensures
        final(pr)@ == old(pr)@.apply_all(commands(comment@), user@),
{
    let cmds = read_commands(comment.as_str());
    let mut i: usize = 0;
    while i < cmds.len()
        invariant
            i <= cmds.len(),
            pr@ == old(pr)@.apply_all(cmds@.take(i as int), user@),
        decreases cmds.len() - i,
    {
        proof {
            assert(cmds@.take(i + 1).drop_last() =~= cmds@.take(i as int));
        }
        match cmds[i] {
            Command::Approve => {
                pr.approve(user.as_str());
            },
            Command::Retry => {
                pr.retry();
            },
            Command::Reset => {
                pr.reset();
            },
        }
        i = i + 1;
    }
    assert(cmds@.take(i as int) =~= cmds@);
}

/// A word that is no command changes nothing, wherever it stands.
pub proof fn lemma_unknown_word_ignored(
    before: Seq<Seq<char>>,
    word: Seq<char>,
    after: Seq<Seq<char>>,
)
    requires
        command_of(word) is None,
    ensures
        commands_in(before + seq![word] + after) == commands_in(before + after),
    decreases after.len(),
{
    if after.len() == 0 {
        assert(before + seq![word] + after =~= (before + seq![word]));
        assert((before + seq![word]).drop_last() =~= before);
        assert(before + after =~= before);
    } else {
        let long = before + seq![word] + after;
        let short = before + after;
        assert(long.drop_last() =~= before + seq![word] + after.drop_last());
        assert(short.drop_last() =~= before + after.drop_last());
        assert(long.last() == short.last());
        lemma_unknown_word_ignored(before, word, after.drop_last());
    }
}

/// Once an approval went through, a retry right after it changes nothing.
pub proof fn lemma_retry_after_approval(pr: PullView, user: Seq<char>)
    requires
        !pr.blocked,
    ensures
        pr.approve(user).retry() == pr.approve(user),
        pr.apply_all(seq![Command::Approve, Command::Retry], user) == pr.approve(user),
{
    let both = seq![Command::Approve, Command::Retry];
    let first = seq![Command::Approve];
    assert(both.drop_last() =~= first);
    assert(first.drop_last() =~= Seq::<Command>::empty());
    reveal_with_fuel(PullView::apply_all, 3);
}

/// Approval is gated: it changes nothing on a blocked entity, and queues an
/// unblocked one that is ready or has failed, in the name of the approver.
pub proof fn lemma_approval_gating(pr: PullView, user: Seq<char>)
    ensures
        pr.blocked ==> pr.approve(user) == pr,
        !pr.blocked && (pr.state is Ready || pr.state is Failure) ==> pr.approve(user).state
            is Pending,
        !pr.blocked ==> pr.approve(user).approver == Some(user),
{
}

/// A retry applies after a failure and at no other time: a ready, queued or
/// running entity is left exactly as it is.
pub proof fn lemma_retry_restriction(pr: PullView)
    ensures
        pr.can_retry() <==> pr.state is Failure,
        pr.state is Failure ==> pr.retry().state is Pending,
        pr.state is Ready || pr.state is Pending || pr.state is Testing ==> pr.retry() == pr,
{
}

} // verus!
