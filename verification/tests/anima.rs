use anima::anima::order::holds;
use anima::anima::{Anima, State, Step};

#[test]
fn all() {
    let mut anima: Anima<u8> = Anima::new("anima");
    anima.ok(vec![true, true]).ko(vec![false, false]);
    assert_eq!(anima.asserts, 4);
    assert_eq!(anima.failures, 0);
    assert_eq!(anima.run(), vec![]);
}

#[test]
fn new_session_is_empty() {
    let anima: Anima<&str> = Anima::new("suite");
    assert_eq!(anima.describe, "suite");
    assert_eq!(anima.asserts, 0);
    assert_eq!(anima.failures, 0);
    assert!(anima.before_all_hooks.is_empty());
    assert!(anima.before_each_hooks.is_empty());
    assert!(anima.after_all_hooks.is_empty());
    assert!(anima.after_each_hooks.is_empty());
    assert!(anima.groups.is_empty());
    assert_eq!(anima.banner(), "\nsuite");
}

#[test]
fn ok_and_ko_count_each_entry() {
    let mut anima: Anima<u8> = Anima::new("counts");
    anima.ok(vec![true, false, true]);
    assert_eq!((anima.asserts, anima.failures), (2, 1));
    anima.ko(vec![true, false, true]);
    assert_eq!((anima.asserts, anima.failures), (3, 3));
    anima.ok(vec![]).ko(vec![]);
    assert_eq!((anima.asserts, anima.failures), (3, 3));
}

#[test]
fn hooks_keep_registration_order() {
    let mut anima: Anima<&str> = Anima::new("hooks");
    anima
        .add_before_all_hooks("open db")
        .add_before_all_hooks("migrate")
        .add_after_all_hooks("close db")
        .add_before_each_hooks("begin")
        .add_after_each_hooks("rollback")
        .add_after_each_hooks("log");
    assert_eq!(anima.before_all_hooks, vec!["open db", "migrate"]);
    assert_eq!(anima.after_all_hooks, vec!["close db"]);
    assert_eq!(anima.before_each_hooks, vec!["begin"]);
    assert_eq!(anima.after_each_hooks, vec!["rollback", "log"]);
    assert!(anima.groups.is_empty());
}

#[test]
fn add_groups_moves_the_groups() {
    let mut anima: Anima<u32> = Anima::new("groups");
    let mut first = vec![1, 2];
    let mut second = vec![3];
    anima.add_groups(&mut first).add_groups(&mut second);
    assert_eq!(anima.groups, vec![1, 2, 3]);
    assert!(first.is_empty());
    assert!(second.is_empty());
}

#[test]
fn each_hooks_run_again_for_every_group() {
    let mut anima: Anima<&str> = Anima::new("order");
    let mut groups = vec!["group1", "group2"];
    anima
        .add_before_each_hooks("before-each")
        .add_after_each_hooks("after-each")
        .add_groups(&mut groups);
    let steps = anima.run();
    assert_eq!(
        steps,
        vec![
            Step::BeforeEach(0, 0),
            Step::Group(0),
            Step::AfterEach(0, 0),
            Step::BeforeEach(1, 0),
            Step::Group(1),
            Step::AfterEach(1, 0),
        ]
    );
    let names: Vec<&str> = steps
        .iter()
        .map(|step| match *step {
            Step::BeforeAll(i) => anima.before_all_hooks[i],
            Step::BeforeEach(_, i) => anima.before_each_hooks[i],
            Step::Group(g) => anima.groups[g],
            Step::AfterEach(_, i) => anima.after_each_hooks[i],
            Step::AfterAll(i) => anima.after_all_hooks[i],
        })
        .collect();
    assert_eq!(
        names,
        vec!["before-each", "group1", "after-each", "before-each", "group2", "after-each"]
    );
}

#[test]
fn whole_run_order() {
    let mut anima: Anima<u8> = Anima::new("order");
    let mut groups = vec![0, 0];
    anima
        .add_before_all_hooks(0)
        .add_before_all_hooks(0)
        .add_before_each_hooks(0)
        .add_before_each_hooks(0)
        .add_after_each_hooks(0)
        .add_after_all_hooks(0)
        .add_groups(&mut groups);
    assert_eq!(
        anima.run(),
        vec![
            Step::BeforeAll(0),
            Step::BeforeAll(1),
            Step::BeforeEach(0, 0),
            Step::BeforeEach(0, 1),
            Step::Group(0),
            Step::AfterEach(0, 0),
            Step::BeforeEach(1, 0),
            Step::BeforeEach(1, 1),
            Step::Group(1),
            Step::AfterEach(1, 0),
            Step::AfterAll(0),
        ]
    );
}

#[test]
fn without_groups_each_hooks_never_run() {
    let mut anima: Anima<u8> = Anima::new("order");
    anima
        .add_before_all_hooks(0)
        .add_before_each_hooks(0)
        .add_after_each_hooks(0)
        .add_after_all_hooks(0);
    assert_eq!(anima.run(), vec![Step::BeforeAll(0), Step::AfterAll(0)]);
}

#[test]
fn summary_names_both_counters() {
    colored_truecolor::control::set_override(true);
    let mut anima: Anima<u8> = Anima::new("summary");
    anima.ok(vec![true, true, false]);
    let summary = anima.summary();
    assert!(summary.contains('\x1b'));
    assert!(summary.contains("\x1b[32m2"));
    assert!(summary.contains("\x1b[31m1"));
    assert!(summary.contains("\x1b[37mASSERTS"));
    let mut shown = String::new();
    let mut chars = summary.chars();
    while let Some(c) = chars.next() {
        if c == '\x1b' {
            for d in chars.by_ref() {
                if d == 'm' {
                    break;
                }
            }
        } else {
            shown.push(c);
        }
    }
    assert_eq!(shown, "\nASSERTS 2\nFAILURE 1\n\n");
}

#[test]
fn holds_finds_equal_entries() {
    assert!(holds(&vec![1, 2, 3], &2));
    assert!(!holds(&vec![1, 2, 3], &4));
    assert!(!holds(&Vec::<i32>::new(), &4));
    assert!(holds(&vec!["a", "b"], &"b"));
    assert!(!holds(&vec![f64::NAN], &f64::NAN));
}

fn walk(anima: &Anima<u8>) -> Vec<Step> {
    let mut steps = Vec::new();
    let mut state = anima.advance(State::Idle);
    while let State::At(step) = state {
        steps.push(step);
        state = anima.advance(state);
    }
    assert_eq!(state, State::Reported);
    steps
}

#[test]
fn advance_walks_the_plan() {
    let mut anima: Anima<u8> = Anima::new("walk");
    assert_eq!(anima.advance(State::Idle), State::Reported);
    assert_eq!(anima.advance(State::Reported), State::Reported);
    let mut groups = vec![0, 0, 0];
    anima
        .add_before_all_hooks(0)
        .add_before_each_hooks(0)
        .add_before_each_hooks(0)
        .add_after_each_hooks(0)
        .add_after_all_hooks(0)
        .add_after_all_hooks(0)
        .add_groups(&mut groups);
    assert_eq!(anima.advance(State::Idle), State::At(Step::BeforeAll(0)));
    assert_eq!(
        anima.advance(State::At(Step::BeforeAll(0))),
        State::At(Step::BeforeEach(0, 0))
    );
    assert_eq!(
        anima.advance(State::At(Step::AfterEach(0, 0))),
        State::At(Step::BeforeEach(1, 0))
    );
    assert_eq!(
        anima.advance(State::At(Step::AfterEach(2, 0))),
        State::At(Step::AfterAll(0))
    );
    assert_eq!(anima.advance(State::At(Step::AfterAll(1))), State::Reported);
    assert_eq!(walk(&anima), anima.run());
    assert_eq!(anima.run().len(), 1 + 3 * 4 + 2);
}

#[test]
fn advance_without_each_hooks_goes_from_group_to_group() {
    let mut anima: Anima<u8> = Anima::new("walk");
    let mut groups = vec![0, 0];
    anima.add_groups(&mut groups);
    assert_eq!(walk(&anima), vec![Step::Group(0), Step::Group(1)]);
    assert_eq!(walk(&anima), anima.run());
    assert_eq!(
        anima.advance(State::At(Step::Group(usize::MAX))),
        State::Reported
    );
}
