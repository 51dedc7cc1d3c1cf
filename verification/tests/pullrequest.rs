use std::cmp::Ordering;
use volf::text::Order;
use volf::pullrequest::{parse_commands, read_commands, recognize, Command, Progress, Pull};

fn fresh() -> Pull {
    Pull::new("org/app", 42, "fix bug")
}

fn chars(s: &str) -> Vec<char> {
    s.chars().collect()
}

#[test]
fn new_pull_is_ready_and_unapproved() {
    let pr = fresh();
    assert_eq!(pr.repo(), "org/app");
    assert_eq!(pr.num(), 42);
    assert_eq!(pr.title(), "fix bug");
    assert_eq!(*pr.state(), Progress::Ready);
    assert_eq!(*pr.approver(), None);
    assert!(!pr.blocked());
    assert!(pr.mergeable());
    assert!(!pr.eligible());
}

#[test]
fn default_pull_is_ready_and_nameless() {
    let pr = Pull::default();
    assert_eq!(pr.repo(), "");
    assert_eq!(pr.num(), 0);
    assert_eq!(pr.title(), "");
    assert_eq!(*pr.state(), Progress::Ready);
    assert_eq!(*pr.approver(), None);
    assert!(pr.mergeable());
    assert_eq!(Progress::default(), Progress::Ready);
}

#[test]
fn approve_queues_a_ready_pull() {
    let mut pr = fresh();
    assert!(pr.approve("alice"));
    assert_eq!(*pr.state(), Progress::Pending);
    assert_eq!(*pr.approver(), Some("alice".to_string()));
    assert!(pr.eligible());
}

#[test]
fn approve_is_refused_while_blocked() {
    let mut pr = fresh();
    pr.block();
    assert!(pr.blocked());
    assert!(!pr.approve("alice"));
    assert_eq!(*pr.state(), Progress::Ready);
    assert_eq!(*pr.approver(), None);
    pr.unblock();
    assert!(!pr.blocked());
    assert!(pr.approve("alice"));
    assert_eq!(*pr.state(), Progress::Pending);
}

#[test]
fn approve_queues_a_failed_pull() {
    let mut pr = fresh();
    pr.approve("alice");
    pr.test();
    assert!(pr.fail("boom"));
    assert!(pr.approve("bob"));
    assert_eq!(*pr.state(), Progress::Pending);
    assert_eq!(*pr.approver(), Some("bob".to_string()));
}

#[test]
fn last_approver_wins_and_a_running_build_goes_on() {
    let mut pr = fresh();
    pr.approve("alice");
    assert!(pr.approve("bob"));
    assert_eq!(*pr.state(), Progress::Pending);
    assert_eq!(*pr.approver(), Some("bob".to_string()));
    pr.test();
    assert!(pr.approve("carol"));
    assert_eq!(*pr.state(), Progress::Testing);
    assert_eq!(*pr.approver(), Some("carol".to_string()));
}

#[test]
fn retry_applies_only_after_a_failure() {
    let mut pr = fresh();
    assert!(!pr.retry());
    assert_eq!(*pr.state(), Progress::Ready);
    pr.approve("alice");
    assert!(!pr.retry());
    assert_eq!(*pr.state(), Progress::Pending);
    pr.test();
    assert!(!pr.retry());
    assert_eq!(*pr.state(), Progress::Testing);
    assert!(pr.fail("boom"));
    assert_eq!(*pr.state(), Progress::Failure("boom".to_string()));
    assert!(pr.retry());
    assert_eq!(*pr.state(), Progress::Pending);
    assert_eq!(*pr.approver(), Some("alice".to_string()));
}

#[test]
fn fail_applies_only_to_a_running_build() {
    let mut pr = fresh();
    assert!(!pr.fail("boom"));
    assert_eq!(*pr.state(), Progress::Ready);
    pr.approve("alice");
    assert!(!pr.fail("boom"));
    assert_eq!(*pr.state(), Progress::Pending);
    pr.test();
    assert!(pr.is_testing());
    assert!(pr.fail("boom"));
    assert!(!pr.is_testing());
    assert!(!pr.fail("again"));
    assert_eq!(*pr.state(), Progress::Failure("boom".to_string()));
}

#[test]
fn block_comes_too_late_for_a_running_build() {
    let mut pr = fresh();
    pr.approve("alice");
    pr.test();
    pr.block();
    assert!(!pr.blocked());
    assert_eq!(*pr.state(), Progress::Testing);
}

#[test]
fn block_holds_a_queued_pull_back() {
    let mut pr = fresh();
    pr.approve("alice");
    pr.block();
    assert!(pr.blocked());
    assert_eq!(*pr.state(), Progress::Pending);
    assert!(!pr.eligible());
    pr.unblock();
    assert!(pr.eligible());
}

#[test]
fn reset_revokes_approval_and_progress() {
    let mut pr = fresh();
    pr.approve("alice");
    pr.reset();
    assert_eq!(*pr.state(), Progress::Ready);
    assert_eq!(*pr.approver(), None);

    pr.approve("alice");
    pr.test();
    pr.fail("boom");
    pr.reset();
    assert_eq!(*pr.state(), Progress::Ready);
    assert_eq!(*pr.approver(), None);
}

#[test]
fn reset_leaves_a_running_build_running() {
    let mut pr = fresh();
    pr.approve("alice");
    pr.test();
    pr.reset();
    assert_eq!(*pr.state(), Progress::Testing);
    assert_eq!(*pr.approver(), None);
}

#[test]
fn unmergeable_pull_is_not_eligible() {
    let mut pr = fresh();
    pr.approve("alice");
    pr.set_mergeable(false);
    assert!(!pr.mergeable());
    assert!(!pr.eligible());
    pr.set_mergeable(true);
    assert!(pr.eligible());
}

#[test]
fn pull_knows_who_it_is() {
    let pr = fresh();
    assert!(pr.is("org/app", 42));
    assert!(!pr.is("org/app", 43));
    assert!(!pr.is("org/other", 42));
    assert!(pr.in_repo("org/app"));
    assert!(!pr.in_repo("org/ap"));
    assert!(!pr.in_repo("org/apps"));
}

#[test]
fn recognize_knows_the_three_commands() {
    assert_eq!(recognize(&chars("r+")), Some(Command::Approve));
    assert_eq!(recognize(&chars("retry")), Some(Command::Retry));
    assert_eq!(recognize(&chars("reset")), Some(Command::Reset));
    assert_eq!(recognize(&chars("r")), None);
    assert_eq!(recognize(&chars("r-")), None);
    assert_eq!(recognize(&chars("R+")), None);
    assert_eq!(recognize(&chars("retry!")), None);
    assert_eq!(recognize(&chars("rese")), None);
    assert_eq!(recognize(&chars("sync")), None);
    assert_eq!(recognize(&chars("")), None);
}

#[test]
fn read_commands_keeps_the_order_of_the_comment() {
    assert_eq!(read_commands("r+ retry"), vec![Command::Approve, Command::Retry]);
    assert_eq!(read_commands("retry r+"), vec![Command::Retry, Command::Approve]);
    assert_eq!(
        read_commands("reset\nr+\tretry  r+"),
        vec![Command::Reset, Command::Approve, Command::Retry, Command::Approve]
    );
    assert_eq!(read_commands(""), Vec::<Command>::new());
    assert_eq!(read_commands("   \n "), Vec::<Command>::new());
}

#[test]
fn unknown_words_are_passed_over() {
    assert_eq!(read_commands("looks good r+ thanks"), vec![Command::Approve]);
    assert_eq!(read_commands("r+thanks"), Vec::<Command>::new());
    assert_eq!(read_commands("please retry, ok"), Vec::<Command>::new());
    assert_eq!(read_commands("please retry ok"), vec![Command::Retry]);
}

#[test]
fn approve_then_retry_leaves_a_ready_pull_pending() {
    let mut pr = fresh();
    parse_commands(&mut pr, "r+ retry".to_string(), "alice".to_string());
    assert_eq!(*pr.state(), Progress::Pending);
    assert_eq!(*pr.approver(), Some("alice".to_string()));
}

#[test]
fn retry_then_approve_differs_on_a_blocked_failure() {
    let mut pr = fresh();
    pr.approve("alice");
    pr.test();
    pr.fail("boom");
    pr.unblock();
    let mut other = fresh();
    other.approve("alice");
    other.test();
    other.fail("boom");
    parse_commands(&mut pr, "reset r+".to_string(), "bob".to_string());
    assert_eq!(*pr.state(), Progress::Pending);
    assert_eq!(*pr.approver(), Some("bob".to_string()));
    parse_commands(&mut other, "r+ reset".to_string(), "bob".to_string());
    assert_eq!(*other.state(), Progress::Ready);
    assert_eq!(*other.approver(), None);
}

#[test]
fn only_the_approval_in_a_chatty_comment_is_applied() {
    let mut pr = fresh();
    parse_commands(&mut pr, "looks good r+ thanks".to_string(), "alice".to_string());
    let mut plain = fresh();
    parse_commands(&mut plain, "r+".to_string(), "alice".to_string());
    assert_eq!(pr, plain);
    assert_eq!(*pr.state(), Progress::Pending);
    assert_eq!(*pr.approver(), Some("alice".to_string()));
}

#[test]
fn comment_without_commands_changes_nothing() {
    let mut pr = fresh();
    parse_commands(&mut pr, "what a nice day".to_string(), "alice".to_string());
    assert_eq!(pr, fresh());
}

fn in_state(state: &str) -> Pull {
    let mut pr = fresh();
    match state {
        "ready" => {}
        "pending" => {
            pr.approve("alice");
        }
        "testing" => {
            pr.approve("alice");
            pr.test();
        }
        reason => {
            pr.approve("alice");
            pr.test();
            pr.fail(reason);
        }
    }
    pr
}

#[test]
fn states_are_ordered_as_they_are_declared() {
    let states = [
        Progress::Failure("".to_string()),
        Progress::Failure("a".to_string()),
        Progress::Failure("ab".to_string()),
        Progress::Failure("b".to_string()),
        Progress::Failure("\u{e9}".to_string()),
        Progress::Ready,
        Progress::Pending,
        Progress::Testing,
    ];
    for a in states.iter() {
        for b in states.iter() {
            let expected = match a.cmp(b) {
                Ordering::Less => Order::Less,
                Ordering::Equal => Order::Equal,
                Ordering::Greater => Order::Greater,
            };
            assert_eq!(a.order(b), expected);
        }
    }
}

#[test]
fn pulls_are_ordered_by_state_then_block() {
    let names = ["boom", "crash", "ready", "pending", "testing"];
    for (i, a) in names.iter().enumerate() {
        for (j, b) in names.iter().enumerate() {
            assert_eq!(in_state(a).cmp(&in_state(b)), i.cmp(&j));
        }
    }
    let mut blocked = in_state("pending");
    blocked.block();
    let free = in_state("pending");
    assert_eq!(free.cmp(&blocked), Ordering::Less);
    assert_eq!(blocked.cmp(&free), Ordering::Greater);
    assert_eq!(blocked.cmp(&blocked), Ordering::Equal);
    assert_eq!(free.order(&blocked), Order::Less);
    assert_eq!(blocked.cmp(&in_state("testing")), Ordering::Less);
    assert_eq!(blocked.cmp(&in_state("ready")), Ordering::Greater);
    let other = Pull::new("org/lib", 7, "elsewhere");
    assert_eq!(other.cmp(&fresh()), Ordering::Equal);
}
