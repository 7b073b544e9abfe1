use anima::anima::soul::{Line, Status, Symbol, Testing};
use anima::anima::unit::Unit;

fn is_thales_verified(ab: f64, ad: f64, ac: f64, ae: f64) -> bool {
    (ab / ad - ac / ae).abs() < f64::EPSILON
}

fn is_median_equals_half_hypotenuse(hypotenuse: f64, median: f64) -> bool {
    (median - hypotenuse / 2.0).abs() < f64::EPSILON
}

fn circle_inscribed_radius(a: f64, b: f64, c: f64) -> f64 {
    let s = (a + b + c) / 2.0;
    let area = (s * (s - a) * (s - b) * (s - c)).sqrt();
    area / s
}

fn texts(lines: &Vec<Line>) -> Vec<String> {
    lines.iter().map(|line| line.plain()).collect()
}

const OS: &str = "linux";

#[test]
fn success() {
    let status = Unit::new(None)
        .group("test loops", |u| {
            u.always("description", 20, true, || 2 == 2)
                .confirm_contains_in("description", 20, vec![true], || 2 == 2)
                .confirm_not_contains_in("description", 20, vec![false], || 2 == 2)
                .always("description", 20, true, || 2 == 2)
        })
        .group("Only linux must be fouded", |u| {
            u.ok("Os must be linux", vec![OS == "linux"])
                .eq("Os const must be equal to linux", vec![OS], "linux")
                .ne("Os don't be equals to windows", vec![OS], "windows")
                .ne("Os don't be equals to macos", vec![OS], "macos")
                .ko("Windows must be not fouded", vec![OS == "windows"])
                .ko("Macos must be not fouded", vec![OS == "macos"])
        })
        .group("Check the Pythagorean Theorem", |u| {
            let a = 3;
            let b = 4;
            let c = 5;

            u.ok("Triangle is right-angled", vec![a * a + b * b == c * c])
                .eq(
                    "The hypotenuse squared must equal the sum of squares of the other sides",
                    vec![c * c],
                    a * a + b * b,
                )
                .ne(
                    "It must not be a wrong relation",
                    vec![a * a + b * b],
                    a * a + a * b,
                )
                .ko(
                    "Wrong triangle relation should fail",
                    vec![6 * 6 + 8 * 8 == 11 * 11],
                )
        })
        .group("Check the Theorem of Thales", |u| {
            let ab = 8.0;
            let ad = 4.0;
            let ac = 10.0;
            let ae = 5.0;

            let thales_ok = is_thales_verified(ab, ad, ac, ae);
            let thales_ko = is_thales_verified(8.0, 3.0, 10.0, 6.0);

            u.ok(
                "Thales relation must be verified for parallel lines",
                vec![thales_ok],
            )
            .ko(
                "Thales relation must not be verified for non-proportional segments",
                vec![thales_ko],
            )
        })
        .group("Check the median theorem in a right triangle", |u| {
            let hypotenuse = 10.0;
            let median = 5.0;

            let verified = is_median_equals_half_hypotenuse(hypotenuse, median);
            let wrong = is_median_equals_half_hypotenuse(hypotenuse, 4.5);

            u.ok(
                "In a right triangle, median from right angle must equal half the hypotenuse",
                vec![verified],
            )
            .ko(
                "If the median is not equal to half the hypotenuse, the property fails",
                vec![wrong],
            )
        })
        .group("Check the inradius theorem", |u| {
            let a = 5.0;
            let b = 5.0;
            let c = 6.0;

            let r = circle_inscribed_radius(a, b, c);
            let expected_r = 1.5;
            u.ok(
                "Inradius is consistent with area / semi-perimeter",
                vec![(r - expected_r).abs() < 1e-6],
            )
        })
        .full("battery must be full", 0, 100, 100)
        .run();
    assert_eq!(status, Status::Success);
}

#[test]
fn fatal_checks_leave_the_counters() {
    let mut unit = Unit::new(None);
    unit.group("test loops", |u| {
        u.always("description", 20, true, || 2 == 2)
            .confirm_contains_in("description", 20, vec![true], || 2 == 2)
            .confirm_not_contains_in("description", 20, vec![false], || 2 == 2)
    })
    .full("battery must be full", 0, 100, 100);
    assert_eq!(unit.get_assertions(), 1);
    assert_eq!(unit.get_failures(), 0);
    assert_eq!(unit.get_skipped(), 0);
    assert_eq!(unit.lines().len(), 63);
}

#[test]
fn always_asks_once_for_every_round() {
    let calls = std::cell::Cell::new(0);
    let mut unit = Unit::new(None);
    unit.always("description", 20, true, || {
        calls.set(calls.get() + 1);
        2 == 2
    });
    assert_eq!(calls.get(), 20);
    assert_eq!(unit.get_assertions(), 0);
    assert_eq!(unit.get_failures(), 0);
    assert_eq!(unit.get_skipped(), 0);
    let lines = unit.lines();
    assert_eq!(lines.len(), 21);
    for line in &lines[1..] {
        assert_eq!(line.symbol, Symbol::Success);
        assert_eq!(line.plain(), "* description");
        assert_eq!(line.status, "ok");
        assert!(!line.counted);
    }
}

#[test]
fn new_session_records_opening_title() {
    let mut unit = Unit::new(None);
    assert_eq!(unit.get_assertions(), 0);
    assert_eq!(unit.get_failures(), 0);
    assert_eq!(unit.get_skipped(), 0);
    assert_eq!(unit.width(), None);
    assert_eq!(texts(unit.lines()), vec!["# starting tests".to_string()]);
    assert_eq!(unit.lines()[0].status, "ok");
    assert!(!unit.lines()[0].counted);
}

#[test]
fn ok_counts_true_and_false_entries() {
    let mut unit = Unit::new(None);
    unit.ok("mixed", vec![true, false, true, true, false]);
    assert_eq!(unit.get_assertions(), 3);
    assert_eq!(unit.get_failures(), 2);
    assert_eq!(unit.get_skipped(), 0);
    assert_eq!(
        texts(unit.lines()),
        vec!["# starting tests", "* mixed", "! mixed", "* mixed", "* mixed", "! mixed"]
    );
}

#[test]
fn ko_mirrors_ok() {
    let mut unit = Unit::new(None);
    unit.ko("mixed", vec![true, false, true, true, false]);
    assert_eq!(unit.get_assertions(), 2);
    assert_eq!(unit.get_failures(), 3);
    assert_eq!(
        texts(unit.lines()),
        vec!["# starting tests", "! mixed", "* mixed", "! mixed", "! mixed", "* mixed"]
    );
}

#[test]
fn ok_with_no_entries_changes_nothing() {
    let mut unit = Unit::new(None);
    unit.ok("none", vec![]).ko("none", vec![]);
    assert_eq!(unit.get_assertions(), 0);
    assert_eq!(unit.get_failures(), 0);
    assert_eq!(unit.lines().len(), 1);
}

#[test]
fn ok_then_ko_scenario() {
    let mut unit = Unit::new(None);
    unit.ok("all true", vec![true, true]).ko("all false", vec![false, false]);
    assert_eq!(unit.get_assertions(), 4);
    assert_eq!(unit.get_failures(), 0);
    assert_eq!(unit.conclude(0, 0), Status::Success);
}

#[test]
fn pythagorean_scenario() {
    let mut unit = Unit::new(None);
    unit.eq("sum of squares", vec![3 * 3 + 4 * 4], 5 * 5);
    assert_eq!(unit.get_assertions(), 1);
    assert_eq!(unit.get_failures(), 0);
    unit.ne("wrong relation", vec![3 * 3 + 4 * 4], 3 * 3 + 3 * 4);
    assert_eq!(unit.get_assertions(), 2);
    assert_eq!(unit.get_failures(), 0);
}

#[test]
fn comparisons_count_each_entry() {
    let mut unit = Unit::new(None);
    unit.eq("eq", vec![1, 2, 1], 1);
    assert_eq!((unit.get_assertions(), unit.get_failures()), (2, 1));
    unit.ne("ne", vec![1, 2, 1], 1);
    assert_eq!((unit.get_assertions(), unit.get_failures()), (3, 3));
    unit.gt("gt", vec![1, 2, 3], 2);
    assert_eq!((unit.get_assertions(), unit.get_failures()), (4, 5));
    unit.lt("lt", vec![1, 2, 3], 2);
    assert_eq!((unit.get_assertions(), unit.get_failures()), (5, 7));
    unit.ge("ge", vec![1, 2, 3], 2);
    assert_eq!((unit.get_assertions(), unit.get_failures()), (7, 8));
    unit.le("le", vec![1, 2, 3], 2);
    assert_eq!((unit.get_assertions(), unit.get_failures()), (9, 9));
    assert_eq!(unit.lines().len(), 19);
}

#[test]
fn is_not_and_len_are_single_comparisons() {
    let mut unit = Unit::new(None);
    unit.is("same", "a", "a").not("other", "a", "b");
    assert_eq!((unit.get_assertions(), unit.get_failures()), (2, 0));
    unit.is("same", 1, 2).not("other", 1, 1);
    assert_eq!((unit.get_assertions(), unit.get_failures()), (2, 2));
    unit.len("lengths", vec![vec![1, 2].len(), vec![3, 4].len(), 0], 2);
    assert_eq!((unit.get_assertions(), unit.get_failures()), (4, 3));
}

#[test]
fn empty_passes_only_on_empty_string() {
    let mut unit = Unit::new(None);
    unit.empty("nothing", String::new());
    assert_eq!((unit.get_assertions(), unit.get_failures()), (1, 0));
    unit.empty("something", " ".to_string());
    assert_eq!((unit.get_assertions(), unit.get_failures()), (1, 1));
}

#[test]
fn between_is_strict_on_both_ends() {
    let mut unit = Unit::new(None);
    unit.between("inside", 1, 10, 5);
    assert_eq!((unit.get_assertions(), unit.get_failures()), (1, 0));
    unit.between("at min", 1, 10, 1);
    assert_eq!((unit.get_assertions(), unit.get_failures()), (1, 1));
    unit.between("at max", 1, 10, 10);
    assert_eq!((unit.get_assertions(), unit.get_failures()), (1, 2));
    unit.between("below", 1, 10, 0).between("above", 1, 10, 11);
    assert_eq!((unit.get_assertions(), unit.get_failures()), (1, 4));
    unit.between("next to min", 1, 10, 2).between("next to max", 1, 10, 9);
    assert_eq!((unit.get_assertions(), unit.get_failures()), (3, 4));
}

#[test]
fn between_follows_partial_order_of_floats() {
    let mut unit = Unit::new(None);
    unit.between("inside", 0.0, 1.0, 0.5).between("nan", 0.0, 1.0, f64::NAN);
    assert_eq!((unit.get_assertions(), unit.get_failures()), (1, 1));
}

#[test]
fn full_with_zero_max_makes_no_check() {
    let mut unit = Unit::new(None);
    unit.full("nothing to fill", 0, 0, 100).full("nothing to fill", 7, 0, 0);
    assert_eq!(unit.get_assertions(), 0);
    assert_eq!(unit.get_failures(), 0);
    assert_eq!(unit.get_skipped(), 0);
    assert_eq!(unit.lines().len(), 1);
}

#[test]
fn full_passes_where_quotient_is_one() {
    let mut unit = Unit::new(None);
    unit.full("full", 0, 100, 100);
    assert_eq!((unit.get_assertions(), unit.get_failures()), (1, 0));
    unit.full("half", 0, 100, 50);
    assert_eq!((unit.get_assertions(), unit.get_failures()), (1, 1));
    unit.full("twice", 0, 100, 200);
    assert_eq!((unit.get_assertions(), unit.get_failures()), (1, 2));
    unit.full("nearly twice", 50, 100, 149);
    assert_eq!((unit.get_assertions(), unit.get_failures()), (2, 2));
    unit.full("just under", 0, 100, 99);
    assert_eq!((unit.get_assertions(), unit.get_failures()), (2, 3));
}

#[test]
fn full_does_not_overflow() {
    let mut unit = Unit::new(None);
    unit.full("huge", usize::MAX, usize::MAX, usize::MAX);
    assert_eq!((unit.get_assertions(), unit.get_failures()), (0, 1));
    unit.full("huge", usize::MAX, usize::MAX, 1);
    assert_eq!((unit.get_assertions(), unit.get_failures()), (1, 1));
}

#[test]
fn throws_passes_on_error() {
    let mut unit = Unit::new(None);
    unit.throws("must fail", || -> Result<(), &str> { Err("boom") });
    assert_eq!((unit.get_assertions(), unit.get_failures()), (1, 0));
    assert_eq!(unit.lines()[1].plain(), "* must fail (threw: \"boom\")");
    assert_eq!(unit.lines()[1].pause, 0);
}

#[test]
fn throws_fails_on_success() {
    let mut unit = Unit::new(None);
    unit.throws("must fail", || -> Result<(), String> { Ok(()) });
    assert_eq!((unit.get_assertions(), unit.get_failures()), (0, 1));
    assert_eq!(unit.lines()[1].plain(), "! must fail (no error thrown)");
}

#[test]
fn throws_on_failing_operations_never_adds_failures() {
    let mut unit = Unit::new(None);
    for code in 0..10 {
        unit.throws("always fails", move || -> Result<(), i32> { Err(code) });
    }
    assert_eq!((unit.get_assertions(), unit.get_failures()), (10, 0));
}

#[test]
fn thrown_records_given_error() {
    let mut unit = Unit::new(None);
    unit.thrown("op", Some("E42")).thrown("op", None);
    assert_eq!((unit.get_assertions(), unit.get_failures()), (1, 1));
    assert_eq!(
        texts(unit.lines()),
        vec!["# starting tests", "* op (threw: E42)", "! op (no error thrown)"]
    );
}

#[test]
fn timed_records_check_and_duration() {
    let mut unit = Unit::new(None);
    unit.timed("quick", || true).timed("wrong", || false);
    assert_eq!((unit.get_assertions(), unit.get_failures()), (1, 1));
    let lines = texts(unit.lines());
    assert_eq!(lines.len(), 5);
    assert_eq!(lines[1], "* quick");
    assert!(lines[2].starts_with("* completed in "));
    assert!(lines[2].ends_with(" ms"));
    assert_eq!(lines[3], "! wrong");
    assert!(lines[4].starts_with("* completed in "));
    assert!(!unit.lines()[2].counted);
}

#[test]
fn clocked_records_given_duration() {
    let mut unit = Unit::new(None);
    unit.clocked("op", true, 1234);
    assert_eq!((unit.get_assertions(), unit.get_failures()), (1, 0));
    assert_eq!(
        texts(unit.lines()),
        vec!["# starting tests", "* op", "* completed in 1234 ms"]
    );
}

#[test]
fn skip_counts_apart() {
    let mut unit = Unit::new(None);
    unit.skip("later").ok("now", vec![true]).skip("never");
    assert_eq!(unit.get_assertions(), 1);
    assert_eq!(unit.get_failures(), 0);
    assert_eq!(unit.get_skipped(), 2);
    assert_eq!(
        texts(unit.lines()),
        vec!["# starting tests", "~ later", "* now", "~ never"]
    );
    assert_eq!(unit.lines()[1].symbol, Symbol::Skipped);
    assert_eq!(unit.conclude(0, 0), Status::Success);
}

#[test]
fn group_nesting_keeps_program_order() {
    let mut unit = Unit::new(None);
    unit.group("A", |a| {
        a.ok("a before", vec![true])
            .subgroup("B", |b| b.ok("b first", vec![true]).ko("b second", vec![true]))
            .ok("a after", vec![true])
    });
    assert_eq!(
        texts(unit.lines()),
        vec![
            "# starting tests",
            "# A",
            "* a before",
            "# B",
            "* b first",
            "! b second",
            "* a after"
        ]
    );
    assert_eq!(unit.lines()[1].status, "ok");
    assert_eq!(unit.lines()[3].status, "sub");
    assert_eq!((unit.get_assertions(), unit.get_failures()), (3, 1));
}

#[test]
fn sleep_time_is_carried_by_check_lines() {
    let mut unit = Unit::new(None);
    unit.ok("default pace", vec![true])
        .set_sleep_time(25)
        .ok("slow", vec![true, false])
        .skip("skipped")
        .set_sleep_time(0)
        .ok("fast", vec![true]);
    let pauses: Vec<u64> = unit.lines().iter().map(|line| line.pause).collect();
    assert_eq!(pauses, vec![0, 0, 25, 25, 0, 0]);
}

#[test]
fn always_and_confirm_record_each_round() {
    let mut unit = Unit::new(None);
    unit.set_sleep_time(5).always("same", 3, 7, || 7);
    assert_eq!((unit.get_assertions(), unit.get_failures()), (0, 0));
    assert_eq!(unit.lines().len(), 4);
    unit.confirm_contains_in("among", 4, vec![1, 2, 3], || 2);
    assert_eq!((unit.get_assertions(), unit.get_failures()), (0, 0));
    assert_eq!(unit.lines().len(), 8);
    unit.confirm_not_contains_in("not among", 5, vec![1, 2, 3], || 4);
    assert_eq!((unit.get_assertions(), unit.get_failures()), (0, 0));
    assert_eq!(unit.lines().len(), 13);
    unit.always("no round", 0, 1, || 2);
    assert_eq!(unit.lines().len(), 13);
    assert_eq!(unit.get_skipped(), 0);
    assert_eq!(
        texts(unit.lines())[1..],
        [
            "* same", "* same", "* same", "* among", "* among", "* among", "* among",
            "* not among", "* not among", "* not among", "* not among", "* not among"
        ]
    );
    for line in &unit.lines()[1..] {
        assert!(!line.counted);
        assert_eq!(line.pause, 5);
    }
    assert_eq!(unit.conclude(0, 0), Status::Success);
}

#[test]
fn confirmed_records_rounds_that_held() {
    let mut unit = Unit::new(None);
    unit.ok("before", vec![false]).confirmed("held", 2).confirmed("none", 0);
    assert_eq!((unit.get_assertions(), unit.get_failures(), unit.get_skipped()), (0, 1, 0));
    assert_eq!(
        texts(unit.lines()),
        vec!["# starting tests", "! before", "* held", "* held"]
    );
    assert!(!unit.lines()[2].counted);
}

#[test]
fn conclude_reports_success_in_seconds() {
    let mut unit = Unit::new(None);
    unit.ok("fine", vec![true, true]).skip("later");
    let status = unit.conclude(1999, 2500);
    assert_eq!(status, Status::Success);
    assert_eq!(
        texts(unit.lines()),
        vec![
            "# starting tests",
            "* fine",
            "* fine",
            "~ later",
            "# Tests take 1 s",
            "* No errors has been fouded",
            "* asserts  2",
            "* failure  0",
            "~ skipped  1",
            "# execution time 2s"
        ]
    );
    assert_eq!(unit.lines()[9].status, "ok");
    assert_eq!(unit.get_assertions(), 2);
    assert_eq!(unit.get_failures(), 0);
    assert_eq!(unit.get_skipped(), 1);
}

#[test]
fn conclude_reports_failure_in_milliseconds() {
    let mut unit = Unit::new(None);
    unit.ok("broken", vec![true, false]);
    let status = unit.conclude(61_000, 2500);
    assert_eq!(status, Status::Failure);
    assert_eq!(
        texts(unit.lines()),
        vec![
            "# starting tests",
            "* broken",
            "! broken",
            "# Tests take 61 s",
            "! Errors has been founded",
            "! asserts  1",
            "! failure  1",
            "~ skipped  0",
            "# execution time 2500 ms"
        ]
    );
    assert_eq!(unit.lines()[3].status, "ok");
    assert_eq!(unit.lines()[4].status, "ko");
    assert_eq!(unit.lines()[8].status, "ko");
    assert_eq!((unit.get_assertions(), unit.get_failures()), (1, 1));
}

#[test]
fn status_depends_on_failures_alone() {
    let mut empty = Unit::new(None);
    assert_eq!(empty.run(), Status::Success);

    let mut skipped = Unit::new(None);
    skipped.skip("a").skip("b");
    assert_eq!(skipped.run(), Status::Success);

    let mut one_failure = Unit::new(None);
    one_failure.ok("many", vec![true; 50]).ok("one", vec![false]);
    assert_eq!(one_failure.run(), Status::Failure);
}

#[test]
fn run_records_title_and_report() {
    let mut unit = Unit::new(Some(60));
    unit.ok("fine", vec![true]);
    assert_eq!(unit.run(), Status::Success);
    let lines = unit.lines();
    assert_eq!(lines.len(), 8);
    assert!(lines[2].text.starts_with("tests take "));
    assert_eq!(lines[3].text, "no errors has been fouded");
    assert!(lines[3].trail);
    assert_eq!(lines[4].text, "asserts  1");
    assert_eq!(lines[5].text, "failure  0");
    assert_eq!(lines[6].text, "skipped  0");
    assert!(lines[7].text.starts_with("execution time "));
    assert!(lines[7].text.ends_with("s"));
}

#[test]
fn take_returns_the_start() {
    let mut unit = Unit::new(None);
    let first = unit.take();
    unit.ok("x", vec![true]);
    assert_eq!(unit.take(), first);
    assert!(first.elapsed().as_secs() < 3600);
}
