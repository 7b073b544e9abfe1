//! The blocking session: checks run in program order, each one counted and recorded
//! as a line of the transcript.
//!
//! Every evaluated condition of an ordinary check, whichever check makes it, adds one
//! to the passed or to the failed checks and records one line. Skipped entries are
//! counted apart. The checks that are fatal to the run (`always` and the two
//! `confirm_*`) state conditions of the run: each of their rounds records a line and
//! changes no counter. Titles and the lines of the report are recorded and not counted.

use crate::anima::clock::millis_since;
use crate::anima::order::{
    all_said_above, all_said_at_least, all_said_at_most, all_said_below, all_said_other,
    all_said_same, can_find, can_miss, each_above, each_at_least, each_at_most, each_below,
    each_other, each_same, equatable, holds, ordered, said_above, said_at_least, said_at_most,
    said_below, said_other, said_same,
};
use crate::anima::soul::{
    check, check_line, report, results, skip_line, skip_output, success_line, success_output,
    title_line, title_output, verdict, Line, LineView, Status, Symbol, Testing,
    DEFAULT_SLEEP_TIME, SUCCESS,
};
use crate::anima::text::{decimal, push_decimal};
use std::fmt::Debug;
use std::time::Instant;
use vstd::pervasive::unreached;
use vstd::prelude::*;

verus! {

/// A session as a mathematical value: its counters, its settings and the lines
/// recorded so far, oldest first.
pub struct Session {
    /// Checks that passed.
    pub asserts: nat,
    /// Checks that failed.
    pub failures: nat,
    /// Entries that were skipped.
    pub skipped: nat,
    /// Milliseconds to wait before each check line.
    pub pace: u64,
    /// Columns of the terminal, `None` where there is none.
    pub width: Option<u16>,
    /// The moment the session began.
    pub started: Instant,
    /// The transcript.
    pub lines: Seq<LineView>,
}

/// How many lines of `lines` record an outcome under `symbol`.
pub open spec fn tally(lines: Seq<LineView>, symbol: Symbol) -> nat
    decreases lines.len(),
{
    if lines.len() == 0 {
        0
    } else {
        let rest = tally(lines.drop_last(), symbol);
        if lines.last().counted && lines.last().symbol == symbol {
            rest + 1
        } else {
            rest
        }
    }
}

/// How many entries of `tests` equal `value`.
pub open spec fn count(tests: Seq<bool>, value: bool) -> nat
    decreases tests.len(),
{
    if tests.len() == 0 {
        0
    } else {
        let rest = count(tests.drop_last(), value);
        if tests.last() == value {
            rest + 1
        } else {
            rest
        }
    }
}

/// Each entry of `tests` turned into its opposite.
pub open spec fn negated(tests: Seq<bool>) -> Seq<bool> {
    tests.map_values(|test: bool| !test)
}

/// The line of one round of a check that is fatal to the run: a success line, written
/// after `pause` milliseconds, which no counter holds.
pub open spec fn confirmed_line(width: Option<u16>, description: Seq<char>, pause: u64) -> LineView {
    LineView { pause, ..success_line(width, description) }
}

/// Whether a resource that holds `current` on top of `min` fills its capacity `max`
/// once and not twice: the whole quotient of `min + current` by `max` is one.
pub open spec fn saturated(min: nat, max: nat, current: nat) -> bool {
    (min + current) / max == 1
}

/// What is recorded for an operation that was expected to fail: with the error it gave,
/// or with the remark that it gave none.
pub open spec fn thrown_text(description: Seq<char>, error: Option<Seq<char>>) -> Seq<char> {
    match error {
        Some(shown) => description + " (threw: "@ + shown + ")"@,
        None => description + " (no error thrown)"@,
    }
}

/// Whether `f` can end with an error (`failed`) or without one.
pub open spec fn can_end<E, F: FnOnce() -> Result<(), E>>(f: F, failed: bool) -> bool {
    exists|outcome: Result<(), E>|
        #[trigger] call_ensures(f, (), outcome) && (outcome is Err <==> failed)
}

/// The line that tells how long a timed check ran.
pub open spec fn completed_text(millis: nat) -> Seq<char> {
    "completed in "@ + decimal(millis) + " ms"@
}

impl Session {
    /// Each counter holds exactly the outcomes that the transcript records: one line
    /// for every check that passed, for every check that failed and for every entry
    /// that was skipped, and no other counted line.
    pub open spec fn wf(self) -> bool {
        &&& self.asserts == tally(self.lines, Symbol::Success)
        &&& self.failures == tally(self.lines, Symbol::Failure)
        &&& self.skipped == tally(self.lines, Symbol::Skipped)
        &&& tally(self.lines, Symbol::Title) == 0
    }

    /// A session that has begun: nothing counted, the opening title recorded.
    pub open spec fn begun(width: Option<u16>, started: Instant) -> Session {
        Session {
            asserts: 0,
            failures: 0,
            skipped: 0,
            pace: DEFAULT_SLEEP_TIME,
            width,
            started,
            lines: seq![title_line(width, "starting tests"@, SUCCESS@)],
        }
    }

    /// The session after `line` is recorded without being counted.
    pub open spec fn emit(self, line: LineView) -> Session {
        Session { lines: self.lines.push(line), ..self }
    }

    /// The session after a title is recorded.
    pub open spec fn title(self, title: Seq<char>, status: Seq<char>) -> Session {
        self.emit(title_line(self.width, title, status))
    }

    /// The session after one outcome is recorded under `description`, to be written
    /// after `pause` milliseconds: one of `asserts` and `failures` grows by one.
    pub open spec fn record(self, description: Seq<char>, test: bool, pause: u64) -> Session {
        Session {
            asserts: if test {
                self.asserts + 1
            } else {
                self.asserts
            },
            failures: if test {
                self.failures
            } else {
                self.failures + 1
            },
            lines: self.lines.push(check_line(self.width, description, test, pause)),
            ..self
        }
    }

    /// The session after one condition is evaluated: its outcome is recorded, to be
    /// written at the pace of the session.
    pub open spec fn check(self, description: Seq<char>, test: bool) -> Session {
        self.record(description, test, self.pace)
    }

    /// The session after the conditions `tests` are evaluated in order under one
    /// description.
    pub open spec fn checks(self, description: Seq<char>, tests: Seq<bool>) -> Session
        decreases tests.len(),
    {
        if tests.len() == 0 {
            self
        } else {
            self.checks(description, tests.drop_last()).check(description, tests.last())
        }
    }

    /// The session after an entry is skipped.
    pub open spec fn skip(self, description: Seq<char>) -> Session {
        Session {
            skipped: self.skipped + 1,
            lines: self.lines.push(
                LineView { counted: true, ..skip_line(self.width, description) },
            ),
            ..self
        }
    }

    /// The session after `rounds` rounds of a check that is fatal to the run have held:
    /// one success line for each round, written at the pace of the session, and every
    /// counter as it was.
    pub open spec fn confirmed(self, description: Seq<char>, rounds: nat) -> Session {
        Session {
            lines: self.lines + Seq::new(
                rounds,
                |i: int| confirmed_line(self.width, description, self.pace),
            ),
            ..self
        }
    }

    /// The session after an operation that was expected to fail has run: a passed
    /// check where it gave an error, a failed one where it gave none. The line is
    /// written without waiting.
    pub open spec fn thrown(self, description: Seq<char>, error: Option<Seq<char>>) -> Session {
        self.record(thrown_text(description, error), error is Some, 0)
    }

    /// The session after a timed check: the check itself, then a line that tells the
    /// milliseconds it ran, which no counter holds.
    pub open spec fn timed(self, description: Seq<char>, test: bool, millis: nat) -> Session {
        self.check(description, test).emit(success_line(self.width, completed_text(millis)))
    }

    /// The session after its run is closed: the title with the whole seconds of the
    /// `taken` milliseconds, then the report for `elapsed` milliseconds, which speaks of
    /// success exactly where no check has failed.
    pub open spec fn ran(self, taken: nat, elapsed: nat) -> Session {
        report(
            self.title("Tests take "@ + decimal(taken / 1000) + " s"@, SUCCESS@),
            self.failures == 0,
            "No errors has been fouded"@,
            "Errors has been founded"@,
            elapsed,
        )
    }
}

/// The lines of a transcript as mathematical values.
pub open spec fn lines_view(lines: Seq<Line>) -> Seq<LineView> {
    lines.map_values(|line: Line| line@)
}

/// A counted line adds one to the tally of its symbol and nothing to the others; a
/// line that is not counted changes no tally.
pub proof fn lemma_tally_push(lines: Seq<LineView>, line: LineView, symbol: Symbol)
    ensures
        tally(lines.push(line), symbol) == tally(lines, symbol) + if line.counted && line.symbol
            == symbol {
            1nat
        } else {
            0nat
        },
{
    assert(lines.push(line).drop_last() =~= lines);
}

/// No tally exceeds the length of the transcript.
pub proof fn lemma_tally_bound(lines: Seq<LineView>, symbol: Symbol)
    ensures
        tally(lines, symbol) <= lines.len(),
    decreases lines.len(),
{
    if lines.len() > 0 {
        lemma_tally_bound(lines.drop_last(), symbol);
    }
}

/// Evaluating a single condition through [`Session::checks`] is [`Session::check`].
pub proof fn lemma_checks_one(session: Session, description: Seq<char>, test: bool)
    ensures
        session.checks(description, seq![test]) == session.check(description, test),
{
    assert(seq![test].drop_last() =~= Seq::<bool>::empty());
    assert(session.checks(description, Seq::<bool>::empty()) == session);
    reveal_with_fuel(Session::checks, 2);
}

/// Evaluating one more condition after `tests` is one more [`Session::check`].
pub proof fn lemma_checks_push(
    session: Session,
    description: Seq<char>,
    tests: Seq<bool>,
    test: bool,
)
    ensures
        session.checks(description, tests.push(test)) == session.checks(description, tests).check(
            description,
            test,
        ),
{
    assert(tests.push(test).drop_last() =~= tests);
}

/// The blocking session.
pub struct Unit {
    sleep_time: u64,
    started_at: Instant,
    asserts: usize,
    failures: usize,
    skipped: usize,
    width: Option<u16>,
    lines: Vec<Line>,
}

impl View for Unit {
    type V = Session;

    closed spec fn view(&self) -> Session {
        Session {
            asserts: self.asserts as nat,
            failures: self.failures as nat,
            skipped: self.skipped as nat,
            pace: self.sleep_time,
            width: self.width,
            started: self.started_at,
            lines: lines_view(self.lines@),
        }
    }
}

impl Unit {
    /// The invariant of a session: see [`Session::wf`].
    pub open spec fn wf(&self) -> bool {
        self@.wf()
    }

    /// Records one outcome: its line, to be written after `pause` milliseconds, and
    /// its count.
    fn record(&mut self, description: &str, test: bool, pause: u64)
        requires
            old(self).wf(),
        ensures
            final(self)@ == old(self)@.record(description@, test, pause),
            final(self).wf(),
    {
        let line = check(self.width, description, test, pause);
        let ghost before = self.lines@;
        self.lines.push(line);
        proof {
            vstd::std_specs::vec::axiom_spec_len(&self.lines);
            lemma_tally_bound(lines_view(before), Symbol::Success);
            lemma_tally_bound(lines_view(before), Symbol::Failure);
            lemma_tally_push(lines_view(before), line@, Symbol::Success);
            lemma_tally_push(lines_view(before), line@, Symbol::Failure);
            lemma_tally_push(lines_view(before), line@, Symbol::Skipped);
            lemma_tally_push(lines_view(before), line@, Symbol::Title);
            assert(lines_view(self.lines@) =~= lines_view(before).push(line@));
        }
        if test {
            self.asserts = self.asserts + 1;
        } else {
            self.failures = self.failures + 1;
        }
    }

    /// Records a line that no counter holds.
    pub(crate) fn emit(&mut self, line: Line)
        requires
            old(self).wf(),
            !line.counted,
        ensures
            final(self)@ == old(self)@.emit(line@),
            final(self).wf(),
    {
        let ghost before = self.lines@;
        self.lines.push(line);
        proof {
            lemma_tally_push(lines_view(before), line@, Symbol::Success);
            lemma_tally_push(lines_view(before), line@, Symbol::Failure);
            lemma_tally_push(lines_view(before), line@, Symbol::Skipped);
            lemma_tally_push(lines_view(before), line@, Symbol::Title);
            assert(lines_view(self.lines@) =~= lines_view(before).push(line@));
        }
    }

    /// Records what an operation that was expected to fail gave: with `error` the text
    /// of its error, a passed check; with none, a failed check.
    pub fn thrown(&mut self, description: &str, error: Option<&str>) -> (ret: &mut Self)
        requires
            old(self).wf(),
        ensures
            ret@ == old(self)@.thrown(
                description@,
                match error {
                    Some(shown) => Some(shown@),
                    None => None,
                },
            ),
            error is Some ==> ret@.failures == old(self)@.failures && ret@.asserts == old(
                self,
            )@.asserts + 1,
            error is None ==> ret@.failures == old(self)@.failures + 1 && ret@.asserts == old(
                self,
            )@.asserts,
            ret.wf(),
            *final(self) == *final(ret),
    {
        let mut text = String::new();
        text.push_str(description);
        match error {
            Some(shown) => {
                text.push_str(" (threw: ");
                text.push_str(shown);
                text.push_str(")");
                assert(text@ =~= thrown_text(description@, Some(shown@)));
                self.record(text.as_str(), true, 0);
            },
            None => {
                text.push_str(" (no error thrown)");
                assert(text@ =~= thrown_text(description@, None));
                self.record(text.as_str(), false, 0);
            },
        }
        self
    }

    /// Records `rounds` rounds of a check that is fatal to the run, each of which held:
    /// one success line for each, and no counter changes.
    pub fn confirmed(&mut self, description: &str, rounds: usize) -> (ret: &mut Self)
        requires
            old(self).wf(),
        ensures
            ret@ == old(self)@.confirmed(description@, rounds as nat),
            ret@.asserts == old(self)@.asserts,
            ret@.failures == old(self)@.failures,
            ret@.skipped == old(self)@.skipped,
            ret.wf(),
            *final(self) == *final(ret),
    {
        let mut i: usize = 0;
        assert(self@.lines =~= old(self)@.confirmed(description@, 0).lines);
        while i < rounds
            invariant
                i <= rounds,
                self.wf(),
                self@ == old(self)@.confirmed(description@, i as nat),
            decreases rounds - i,
        {
            let mut line = success_output(self.width, description);
            line.pause = self.sleep_time;
            self.emit(line);
            i = i + 1;
            assert(self@.lines =~= old(self)@.confirmed(description@, i as nat).lines);
        }
        self
    }

    /// Records a timed check that gave `test` after `millis` milliseconds: the check,
    /// then the line that tells the time.
    pub fn clocked(&mut self, description: &str, test: bool, millis: u128) -> (ret: &mut Self)
        requires
            old(self).wf(),
        ensures
            ret@ == old(self)@.timed(description@, test, millis as nat),
            ret.wf(),
            *final(self) == *final(ret),
    {
        self.record(description, test, self.sleep_time);
        let mut text = String::new();
        text.push_str("completed in ");
        push_decimal(&mut text, millis);
        text.push_str(" ms");
        assert(text@ =~= completed_text(millis as nat));
        self.emit(success_output(self.width, text.as_str()));
        self
    }

    /// The columns of the terminal that the lines are laid out for.
    pub fn width(&self) -> (width: Option<u16>)
        ensures
            width == self@.width,
    {
        self.width
    }

    /// The transcript: every line recorded so far, oldest first.
    pub fn lines(&self) -> (lines: &Vec<Line>)
        ensures
            lines_view(lines@) == self@.lines,
    {
        &self.lines
    }

    /// Closes the run of a session whose clock read `taken` milliseconds for the title
    /// and `elapsed` milliseconds for the report. The status is success exactly where
    /// no check has failed, whatever was passed or skipped.
    pub fn conclude(&mut self, taken: u128, elapsed: u128) -> (status: Status)
        requires
            old(self).wf(),
        ensures
            final(self)@ == old(self)@.ran(taken as nat, elapsed as nat),
            final(self).wf(),
            status == verdict(old(self)@.failures),
            status == Status::Success <==> old(self)@.failures == 0,
    {
        let mut title = String::new();
        title.push_str("Tests take ");
        push_decimal(&mut title, taken / 1000);
        title.push_str(" s");
        assert(title@ =~= "Tests take "@ + decimal((taken / 1000) as nat) + " s"@);
        self.emit(title_output(self.width, title.as_str(), SUCCESS));
        let success = self.failures == 0;
        results(success, "No errors has been fouded", "Errors has been founded", self, elapsed)
    }
}

/// The operations of a session. What each of them promises is stated in [`Testing`].
impl Testing for Unit {
    fn new(width: Option<u16>) -> (unit: Unit) {
        let started_at = Instant::now();
        let mut lines: Vec<Line> = Vec::new();
        lines.push(title_output(width, "starting tests", SUCCESS));
        let unit = Unit {
            sleep_time: DEFAULT_SLEEP_TIME,
            started_at,
            asserts: 0,
            failures: 0,
            skipped: 0,
            width,
            lines,
        };
        proof {
            let first = title_line(width, "starting tests"@, SUCCESS@);
            let none = Seq::<LineView>::empty();
            assert(unit@.lines =~= none.push(first));
            lemma_tally_push(none, first, Symbol::Success);
            lemma_tally_push(none, first, Symbol::Failure);
            lemma_tally_push(none, first, Symbol::Skipped);
            lemma_tally_push(none, first, Symbol::Title);
            assert(unit@.lines =~= seq![first]);
        }
        unit
    }

    fn ok(&mut self, description: &str, data: Vec<bool>) -> (ret: &mut Self) {
        let mut i: usize = 0;
        while i < data.len()
            invariant
                i <= data.len(),
                self.wf(),
                self@ == old(self)@.checks(description@, data@.take(i as int)),
            decreases data.len() - i,
        {
            self.record(description, data[i], self.sleep_time);
            proof {
                assert(data@.take(i + 1).drop_last() =~= data@.take(i as int));
            }
            i = i + 1;
        }
        proof {
            assert(data@.take(i as int) =~= data@);
            lemma_checks_count(old(self)@, description@, data@);
        }
        self
    }

    fn ko(&mut self, description: &str, data: Vec<bool>) -> (ret: &mut Self) {
        let mut i: usize = 0;
        while i < data.len()
            invariant
                i <= data.len(),
                self.wf(),
                self@ == old(self)@.checks(description@, negated(data@).take(i as int)),
            decreases data.len() - i,
        {
            self.record(description, !data[i], self.sleep_time);
            proof {
                assert(negated(data@).take(i + 1).drop_last() =~= negated(data@).take(i as int));
            }
            i = i + 1;
        }
        proof {
            assert(negated(data@).take(i as int) =~= negated(data@));
            lemma_checks_count(old(self)@, description@, negated(data@));
            lemma_count_negated(data@, true);
            lemma_count_negated(data@, false);
        }
        self
    }

    fn eq<T: PartialEq>(&mut self, description: &str, data: Vec<T>, expected: T) -> (ret:
        &mut Self) {
        let mut tests: Vec<bool> = Vec::new();
        let mut i: usize = 0;
        while i < data.len()
            invariant
                i <= data.len(),
                all_said_same(data@.take(i as int), expected, tests@),
                equatable::<T>() ==> tests@ == each_same(data@.take(i as int), expected),
            decreases data.len() - i,
        {
            let ghost seen = tests@;
            let test = data[i] == expected;
            tests.push(test);
            i = i + 1;
            proof {
                assert forall|j: int| 0 <= j < i implies #[trigger] said_same(
                    &data@.take(i as int)[j],
                    &expected,
                    tests@[j],
                ) by {
                    if j < i - 1 {
                        assert(said_same(&data@.take(i - 1)[j], &expected, seen[j]));
                    }
                }
                if equatable::<T>() {
                    assert(tests@ =~= each_same(data@.take(i as int), expected));
                }
            }
        }
        proof {
            assert(data@.take(i as int) =~= data@);
        }
        self.ok(description, tests)
    }

    fn ne<T: PartialEq>(&mut self, description: &str, data: Vec<T>, expected: T) -> (ret:
        &mut Self) {
        let mut tests: Vec<bool> = Vec::new();
        let mut i: usize = 0;
        while i < data.len()
            invariant
                i <= data.len(),
                all_said_other(data@.take(i as int), expected, tests@),
                equatable::<T>() ==> tests@ == each_other(data@.take(i as int), expected),
            decreases data.len() - i,
        {
            let ghost seen = tests@;
            let test = data[i] != expected;
            tests.push(test);
            i = i + 1;
            proof {
                assert forall|j: int| 0 <= j < i implies #[trigger] said_other(
                    &data@.take(i as int)[j],
                    &expected,
                    tests@[j],
                ) by {
                    if j < i - 1 {
                        assert(said_other(&data@.take(i - 1)[j], &expected, seen[j]));
                    }
                }
                if equatable::<T>() {
                    assert(tests@ =~= each_other(data@.take(i as int), expected));
                }
            }
        }
        proof {
            assert(data@.take(i as int) =~= data@);
        }
        self.ok(description, tests)
    }

    fn gt<T: PartialOrd>(&mut self, description: &str, data: Vec<T>, expected: T) -> (ret:
        &mut Self) {
        let mut tests: Vec<bool> = Vec::new();
        let mut i: usize = 0;
        while i < data.len()
            invariant
                i <= data.len(),
                all_said_above(data@.take(i as int), expected, tests@),
                ordered::<T>() ==> tests@ == each_above(data@.take(i as int), expected),
            decreases data.len() - i,
        {
            let ghost seen = tests@;
            let test = data[i] > expected;
            tests.push(test);
            i = i + 1;
            proof {
                assert forall|j: int| 0 <= j < i implies #[trigger] said_above(
                    &data@.take(i as int)[j],
                    &expected,
                    tests@[j],
                ) by {
                    if j < i - 1 {
                        assert(said_above(&data@.take(i - 1)[j], &expected, seen[j]));
                    }
                }
                if ordered::<T>() {
                    assert(tests@ =~= each_above(data@.take(i as int), expected));
                }
            }
        }
        proof {
            assert(data@.take(i as int) =~= data@);
        }
        self.ok(description, tests)
    }

    fn lt<T: PartialOrd>(&mut self, description: &str, data: Vec<T>, expected: T) -> (ret:
        &mut Self) {
        let mut tests: Vec<bool> = Vec::new();
        let mut i: usize = 0;
        while i < data.len()
            invariant
                i <= data.len(),
                all_said_below(data@.take(i as int), expected, tests@),
                ordered::<T>() ==> tests@ == each_below(data@.take(i as int), expected),
            decreases data.len() - i,
        {
            let ghost seen = tests@;
            let test = data[i] < expected;
            tests.push(test);
            i = i + 1;
            proof {
                assert forall|j: int| 0 <= j < i implies #[trigger] said_below(
                    &data@.take(i as int)[j],
                    &expected,
                    tests@[j],
                ) by {
                    if j < i - 1 {
                        assert(said_below(&data@.take(i - 1)[j], &expected, seen[j]));
                    }
                }
                if ordered::<T>() {
                    assert(tests@ =~= each_below(data@.take(i as int), expected));
                }
            }
        }
        proof {
            assert(data@.take(i as int) =~= data@);
        }
        self.ok(description, tests)
    }

    fn ge<T: PartialOrd>(&mut self, description: &str, data: Vec<T>, expected: T) -> (ret:
        &mut Self) {
        let mut tests: Vec<bool> = Vec::new();
        let mut i: usize = 0;
        while i < data.len()
            invariant
                i <= data.len(),
                all_said_at_least(data@.take(i as int), expected, tests@),
                ordered::<T>() ==> tests@ == each_at_least(data@.take(i as int), expected),
            decreases data.len() - i,
        {
            let ghost seen = tests@;
            let test = data[i] >= expected;
            tests.push(test);
            i = i + 1;
            proof {
                assert forall|j: int| 0 <= j < i implies #[trigger] said_at_least(
                    &data@.take(i as int)[j],
                    &expected,
                    tests@[j],
                ) by {
                    if j < i - 1 {
                        assert(said_at_least(&data@.take(i - 1)[j], &expected, seen[j]));
                    }
                }
                if ordered::<T>() {
                    assert(tests@ =~= each_at_least(data@.take(i as int), expected));
                }
            }
        }
        proof {
            assert(data@.take(i as int) =~= data@);
        }
        self.ok(description, tests)
    }

    fn le<T: PartialOrd>(&mut self, description: &str, data: Vec<T>, expected: T) -> (ret:
        &mut Self) {
        let mut tests: Vec<bool> = Vec::new();
        let mut i: usize = 0;
        while i < data.len()
            invariant
                i <= data.len(),
                all_said_at_most(data@.take(i as int), expected, tests@),
                ordered::<T>() ==> tests@ == each_at_most(data@.take(i as int), expected),
            decreases data.len() - i,
        {
            let ghost seen = tests@;
            let test = data[i] <= expected;
            tests.push(test);
            i = i + 1;
            proof {
                assert forall|j: int| 0 <= j < i implies #[trigger] said_at_most(
                    &data@.take(i as int)[j],
                    &expected,
                    tests@[j],
                ) by {
                    if j < i - 1 {
                        assert(said_at_most(&data@.take(i - 1)[j], &expected, seen[j]));
                    }
                }
                if ordered::<T>() {
                    assert(tests@ =~= each_at_most(data@.take(i as int), expected));
                }
            }
        }
        proof {
            assert(data@.take(i as int) =~= data@);
        }
        self.ok(description, tests)
    }

    fn is<T: PartialEq>(&mut self, description: &str, value: T, expected: T) -> (ret:
        &mut Self) {
        let test = value == expected;
        self.record(description, test, self.sleep_time);
        assert(self@ == old(self)@.check(description@, test));
        self
    }

    fn not<T: PartialEq>(&mut self, description: &str, value: T, expected: T) -> (ret:
        &mut Self) {
        let test = value != expected;
        self.record(description, test, self.sleep_time);
        assert(self@ == old(self)@.check(description@, test));
        self
    }

    fn len<T: PartialEq>(&mut self, description: &str, data: Vec<T>, expected: T) -> (ret:
        &mut Self) {
        self.eq(description, data, expected)
    }

    fn empty(&mut self, description: &str, data: String) -> (ret: &mut Self) {
        let test = data.as_str().is_empty();
        self.record(description, test, self.sleep_time);
        self
    }

    fn between<T: PartialOrd>(&mut self, description: &str, min: T, max: T, current: T) -> (ret:
        &mut Self) {
        let above = current > min;
        let below = if above {
            current < max
        } else {
            false
        };
        self.record(description, above && below, self.sleep_time);
        assert(self@ == old(self)@.check(description@, above && below));
        self
    }

    fn full(&mut self, description: &str, min: usize, max: usize, current: usize) -> (ret:
        &mut Self) {
        if max != 0 {
            let sum: u128 = min as u128 + current as u128;
            let test = sum / (max as u128) == 1;
            self.record(description, test, self.sleep_time);
        }
        self
    }

    fn throws<E: Debug, F: FnOnce() -> Result<(), E>>(
        &mut self,
        description: &str,
        f: F,
    ) -> (ret: &mut Self) {
        match f() {
            Ok(_) => self.thrown(description, None),
            Err(e) => {
                let shown = debug_text(&e);
                self.thrown(description, Some(shown.as_str()))
            },
        }
    }

    fn timed<F: FnOnce() -> bool>(&mut self, description: &str, f: F) -> (ret: &mut Self) {
        let i = Instant::now();
        let test = f();
        let duration = millis_since(&i);
        self.clocked(description, test, duration)
    }

    fn group<F: FnOnce(&mut Self) -> &mut Self>(&mut self, description: &str, it: F) -> (ret:
        &mut Self) {
        self.emit(title_output(self.width, description, SUCCESS));
        it(self)
    }

    fn subgroup<F: FnOnce(&mut Self) -> &mut Self>(
        &mut self,
        description: &str,
        it: F,
    ) -> (ret: &mut Self) {
        self.emit(title_output(self.width, description, "sub"));
        it(self)
    }

    fn skip(&mut self, description: &str) -> (ret: &mut Self) {
        let mut line = skip_output(self.width, description);
        line.counted = true;
        let ghost before = self.lines@;
        self.lines.push(line);
        proof {
            vstd::std_specs::vec::axiom_spec_len(&self.lines);
            lemma_tally_bound(lines_view(before), Symbol::Skipped);
            lemma_tally_push(lines_view(before), line@, Symbol::Success);
            lemma_tally_push(lines_view(before), line@, Symbol::Failure);
            lemma_tally_push(lines_view(before), line@, Symbol::Skipped);
            lemma_tally_push(lines_view(before), line@, Symbol::Title);
            assert(lines_view(self.lines@) =~= lines_view(before).push(line@));
        }
        self.skipped = self.skipped + 1;
        self
    }

    fn take(&mut self) -> (started: Instant) {
        self.started_at
    }

    fn get_assertions(&mut self) -> (n: usize) {
        self.asserts
    }

    fn get_failures(&mut self) -> (n: usize) {
        self.failures
    }

    fn get_skipped(&mut self) -> (n: usize) {
        self.skipped
    }

    fn set_sleep_time(&mut self, time: u64) -> (ret: &mut Self) {
        self.sleep_time = time;
        self
    }

    fn always<T: PartialEq, F: Fn() -> T>(
        &mut self,
        description: &str,
        iteration: usize,
        expected: T,
        c: F,
    ) -> (ret: &mut Self) {
        let mut i: usize = 0;
        while i < iteration
            invariant
                i <= iteration,
                self.wf(),
                self@ == old(self)@.confirmed(description@, i as nat),
                call_requires(c, ()),
                forall|value: T|
                    #[trigger] call_ensures(c, (), value) ==> !said_same(&value, &expected, false),
            decreases iteration - i,
        {
            let value = c();
            let test = value == expected;
            if !test {
                unreached::<()>();
            }
            self.confirmed(description, 1);
            i = i + 1;
            assert(self@.lines =~= old(self)@.confirmed(description@, i as nat).lines);
        }
        self
    }

    fn confirm_contains_in<T: PartialEq, F: Fn() -> T>(
        &mut self,
        description: &str,
        iteration: usize,
        expected: Vec<T>,
        c: F,
    ) -> (ret: &mut Self) {
        let mut i: usize = 0;
        while i < iteration
            invariant
                i <= iteration,
                self.wf(),
                self@ == old(self)@.confirmed(description@, i as nat),
                call_requires(c, ()),
                forall|value: T|
                    #[trigger] call_ensures(c, (), value) ==> !can_miss(expected@, value),
            decreases iteration - i,
        {
            let value = c();
            let test = holds(&expected, &value);
            if !test {
                unreached::<()>();
            }
            self.confirmed(description, 1);
            i = i + 1;
            assert(self@.lines =~= old(self)@.confirmed(description@, i as nat).lines);
        }
        self
    }

    fn confirm_not_contains_in<T: PartialEq, F: Fn() -> T>(
        &mut self,
        description: &str,
        iteration: usize,
        expected: Vec<T>,
        c: F,
    ) -> (ret: &mut Self) {
        let mut i: usize = 0;
        while i < iteration
            invariant
                i <= iteration,
                self.wf(),
                self@ == old(self)@.confirmed(description@, i as nat),
                call_requires(c, ()),
                forall|value: T|
                    #[trigger] call_ensures(c, (), value) ==> !can_find(expected@, value),
            decreases iteration - i,
        {
            let value = c();
            let test = !holds(&expected, &value);
            if !test {
                unreached::<()>();
            }
            self.confirmed(description, 1);
            i = i + 1;
            assert(self@.lines =~= old(self)@.confirmed(description@, i as nat).lines);
        }
        self
    }

    fn run(&mut self) -> (status: Status) {
        let taken = millis_since(&self.started_at);
        let elapsed = millis_since(&self.started_at);
        self.conclude(taken, elapsed)
    }
}

/// `Debug` formatting of std, through `format!`: the text that the type's own `Debug`
/// gives for `e`. Nothing is known of it.
#[verifier::external_body]
fn debug_text<E: Debug>(e: &E) -> (shown: String) {
    format!("{:?}", e)
}

/// A run of checks moves the counters by what it evaluated and by nothing else: the
/// passed checks grow by the conditions that hold, the failed ones by those that do
/// not, and the transcript by one line for each.
pub proof fn lemma_checks_count(session: Session, description: Seq<char>, tests: Seq<bool>)
    ensures
        session.checks(description, tests).asserts == session.asserts + count(tests, true),
        session.checks(description, tests).failures == session.failures + count(tests, false),
        session.checks(description, tests).skipped == session.skipped,
        session.checks(description, tests).lines.len() == session.lines.len() + tests.len(),
        session.checks(description, tests).pace == session.pace,
        session.checks(description, tests).width == session.width,
        session.checks(description, tests).started == session.started,
    decreases tests.len(),
{
    if tests.len() > 0 {
        lemma_checks_count(session, description, tests.drop_last());
    }
}

/// A series of checks records one line for each condition, in the order of the
/// conditions, behind the lines that were there: nothing is dropped and nothing is
/// put in between.
pub proof fn lemma_checks_lines(session: Session, description: Seq<char>, tests: Seq<bool>)
    ensures
        session.checks(description, tests).lines == session.lines + Seq::new(
            tests.len(),
            |i: int| check_line(session.width, description, tests[i], session.pace),
        ),
    decreases tests.len(),
{
    let added = Seq::new(
        tests.len(),
        |i: int| check_line(session.width, description, tests[i], session.pace),
    );
    if tests.len() > 0 {
        let shorter = tests.drop_last();
        lemma_checks_lines(session, description, shorter);
        lemma_checks_count(session, description, shorter);
        let before = Seq::new(
            shorter.len(),
            |i: int| check_line(session.width, description, shorter[i], session.pace),
        );
        assert(session.lines + added =~= (session.lines + before).push(
            check_line(session.width, description, tests.last(), session.pace),
        ));
    } else {
        assert(session.lines + added =~= session.lines);
    }
}

/// Whether `later` holds every line of `earlier`, in the same place.
pub open spec fn extends(later: Session, earlier: Session) -> bool {
    earlier.lines.is_prefix_of(later.lines)
}

/// Whatever a session records comes behind what it holds: a line, once recorded, keeps
/// its place, so what a group records stands behind its title and before everything
/// recorded after the group.
pub proof fn lemma_transcript_grows(
    session: Session,
    line: LineView,
    description: Seq<char>,
    status: Seq<char>,
    test: bool,
    tests: Seq<bool>,
    pause: u64,
    error: Option<Seq<char>>,
    millis: nat,
    other: nat,
)
    ensures
        extends(session.emit(line), session),
        extends(session.title(description, status), session),
        extends(session.record(description, test, pause), session),
        extends(session.check(description, test), session),
        extends(session.checks(description, tests), session),
        extends(session.skip(description), session),
        extends(session.confirmed(description, other), session),
        extends(session.thrown(description, error), session),
        extends(session.timed(description, test, millis), session),
        extends(report(session, test, description, status, millis), session),
        extends(session.ran(millis, other), session),
{
    lemma_checks_lines(session, description, tests);
}

/// Growing is passed on: what extends a session that extends another one extends the
/// other one too.
pub proof fn lemma_extends_chain(last: Session, middle: Session, first: Session)
    requires
        extends(last, middle),
        extends(middle, first),
    ensures
        extends(last, first),
{
}

/// How a run ends after a series of checks: with success exactly where no check had
/// failed before and every condition of the series holds. What passed and what was
/// skipped has no part in it.
pub proof fn lemma_status_after_checks(session: Session, description: Seq<char>, tests: Seq<bool>)
    ensures
        verdict(session.checks(description, tests).failures) == Status::Success <==> (
        session.failures == 0 && count(tests, false) == 0),
        count(tests, false) == 0 <==> (forall|i: int| 0 <= i < tests.len() ==> tests[i]),
    decreases tests.len(),
{
    lemma_checks_count(session, description, tests);
    if tests.len() > 0 {
        lemma_status_after_checks(session, description, tests.drop_last());
        if count(tests, false) == 0 {
            assert forall|i: int| 0 <= i < tests.len() implies tests[i] by {
                if i < tests.len() - 1 {
                    assert(tests.drop_last()[i]);
                }
            }
        } else if tests.last() {
            let i = choose|i: int| 0 <= i < tests.len() - 1 && !tests.drop_last()[i];
            assert(!tests[i]);
        }
    }
}

/// A series of checks keeps a session consistent: the counters still hold exactly what
/// the transcript records.
pub proof fn lemma_checks_wf(session: Session, description: Seq<char>, tests: Seq<bool>)
    requires
        session.wf(),
    ensures
        session.checks(description, tests).wf(),
    decreases tests.len(),
{
    if tests.len() > 0 {
        lemma_checks_wf(session, description, tests.drop_last());
        let before = session.checks(description, tests.drop_last());
        let line = check_line(before.width, description, tests.last(), before.pace);
        lemma_tally_push(before.lines, line, Symbol::Success);
        lemma_tally_push(before.lines, line, Symbol::Failure);
        lemma_tally_push(before.lines, line, Symbol::Skipped);
        lemma_tally_push(before.lines, line, Symbol::Title);
    }
}

/// Turning every condition into its opposite swaps what is counted as holding and
/// what is counted as failing.
pub proof fn lemma_count_negated(tests: Seq<bool>, value: bool)
    ensures
        count(negated(tests), value) == count(tests, !value),
    decreases tests.len(),
{
    if tests.len() > 0 {
        assert(negated(tests).drop_last() =~= negated(tests.drop_last()));
        lemma_count_negated(tests.drop_last(), value);
    }
}

} // verus!
