//! The hook-driven session.
//!
//! Hooks and groups are units of work that the caller runs, one after the other. The
//! session keeps them in the order they were added, counts what the checks made inside
//! them report, and says in which order they run: every hook set before all, then for
//! each group the hooks set before each, the group, the hooks set after each, and at
//! the end every hook set after all.

pub mod clock;
pub mod order;
pub mod soul;
pub mod text;
pub mod unit;

use crate::anima::soul::{framed, Tone};
use crate::anima::text::{decimal, lemma_decimal_digits, to_decimal};
use crate::anima::unit::count;
use colored_truecolor::Colorize;
use vstd::prelude::*;

verus! {

/// One unit of work of a run, named by its place in the lists of the session.
#[derive(Clone, Copy, PartialEq, Eq, Debug, Structural)]
pub enum Step {
    /// The hook at this index of the hooks set before all.
    BeforeAll(usize),
    /// For the group at the first index, the hook at the second index of the hooks set
    /// before each.
    BeforeEach(usize, usize),
    /// The group at this index.
    Group(usize),
    /// For the group at the first index, the hook at the second index of the hooks set
    /// after each.
    AfterEach(usize, usize),
    /// The hook at this index of the hooks set after all.
    AfterAll(usize),
}

/// The hooks set before all, in the order they were added.
pub open spec fn opening(before_all: nat) -> Seq<Step> {
    Seq::new(before_all, |i: int| Step::BeforeAll(i as usize))
}

/// The hooks set after all, in the order they were added.
pub open spec fn closing(after_all: nat) -> Seq<Step> {
    Seq::new(after_all, |i: int| Step::AfterAll(i as usize))
}

/// What runs for the group at index `group`: every hook set before each, the group,
/// every hook set after each.
pub open spec fn round(group: nat, before_each: nat, after_each: nat) -> Seq<Step> {
    Seq::new(before_each, |i: int| Step::BeforeEach(group as usize, i as usize)).push(
        Step::Group(group as usize),
    ) + Seq::new(after_each, |i: int| Step::AfterEach(group as usize, i as usize))
}

/// The rounds of the first `groups` groups, one after the other.
pub open spec fn rounds(groups: nat, before_each: nat, after_each: nat) -> Seq<Step>
    decreases groups,
{
    if groups == 0 {
        Seq::<Step>::empty()
    } else {
        rounds((groups - 1) as nat, before_each, after_each) + round(
            (groups - 1) as nat,
            before_each,
            after_each,
        )
    }
}

/// The order of a whole run.
pub open spec fn plan(
    before_all: nat,
    before_each: nat,
    groups: nat,
    after_each: nat,
    after_all: nat,
) -> Seq<Step> {
    opening(before_all) + rounds(groups, before_each, after_each) + closing(after_all)
}

/// Where a run stands: not begun, at one of its units, or over with the summary due.
#[derive(Clone, Copy, PartialEq, Eq, Debug, Structural)]
pub enum State {
    /// Nothing has run yet.
    Idle,
    /// This unit is the one to run, or the one that ran last.
    At(Step),
    /// Every unit has run.
    Reported,
}

/// Where a run stands once the last round is over: at the first hook set after all,
/// or at its end.
pub open spec fn enter_closing(after_all: nat) -> State {
    if after_all > 0 {
        State::At(Step::AfterAll(0))
    } else {
        State::Reported
    }
}

/// Where a run stands when it comes to the group at index `group`: at the first hook
/// set before each, or at the group itself where there is none; past the last group,
/// where [`enter_closing`] says.
pub open spec fn enter_group(group: nat, before_each: nat, groups: nat, after_all: nat) -> State {
    if group < groups {
        if before_each > 0 {
            State::At(Step::BeforeEach(group as usize, 0))
        } else {
            State::At(Step::Group(group as usize))
        }
    } else {
        enter_closing(after_all)
    }
}

/// Where a run stands after one more step from `state`.
pub open spec fn following(
    before_all: nat,
    before_each: nat,
    groups: nat,
    after_each: nat,
    after_all: nat,
    state: State,
) -> State {
    match state {
        State::Idle => if before_all > 0 {
            State::At(Step::BeforeAll(0))
        } else {
            enter_group(0, before_each, groups, after_all)
        },
        State::At(Step::BeforeAll(hook)) => if hook + 1 < before_all {
            State::At(Step::BeforeAll((hook + 1) as usize))
        } else {
            enter_group(0, before_each, groups, after_all)
        },
        State::At(Step::BeforeEach(group, hook)) => if hook + 1 < before_each {
            State::At(Step::BeforeEach(group, (hook + 1) as usize))
        } else {
            State::At(Step::Group(group))
        },
        State::At(Step::Group(group)) => if after_each > 0 {
            State::At(Step::AfterEach(group, 0))
        } else {
            enter_group((group + 1) as nat, before_each, groups, after_all)
        },
        State::At(Step::AfterEach(group, hook)) => if hook + 1 < after_each {
            State::At(Step::AfterEach(group, (hook + 1) as usize))
        } else {
            enter_group((group + 1) as nat, before_each, groups, after_all)
        },
        State::At(Step::AfterAll(hook)) => if hook + 1 < after_all {
            State::At(Step::AfterAll((hook + 1) as usize))
        } else {
            State::Reported
        },
        State::Reported => State::Reported,
    }
}

/// Where a run stands after `n` steps through `steps`: at the unit at index `n - 1`,
/// idle before the first step, over after the last unit.
pub open spec fn standing(steps: Seq<Step>, n: nat) -> State {
    if n == 0 {
        State::Idle
    } else if n <= steps.len() {
        State::At(steps[n - 1])
    } else {
        State::Reported
    }
}

/// The summary of a run put together from its four tinted pieces: an empty line, the
/// passed and the failed checks on a line each, an empty line.
pub open spec fn summary_of(
    asserts_label: Seq<char>,
    asserts: Seq<char>,
    failures_label: Seq<char>,
    failures: Seq<char>,
) -> Seq<char> {
    seq!['\n'] + asserts_label + seq![' '] + asserts + seq!['\n'] + failures_label + seq![' ']
        + failures + seq!['\n', '\n']
}

/// The hook-driven session: two counters and the hooks and groups of type `H`, each
/// list in the order of registration. A session is not copied: what runs a hook hands
/// it the one session, so that every check counts into the same counters.
pub struct Anima<H> {
    /// What the session was introduced as.
    pub describe: String,
    /// Checks that failed.
    pub failures: u32,
    /// Checks that passed.
    pub asserts: u32,
    /// Hooks that run once, before the first group.
    pub before_all_hooks: Vec<H>,
    /// Hooks that run before every group.
    pub before_each_hooks: Vec<H>,
    /// Hooks that run once, after the last group.
    pub after_all_hooks: Vec<H>,
    /// Hooks that run after every group.
    pub after_each_hooks: Vec<H>,
    /// The groups.
    pub groups: Vec<H>,
}

/// Tints `text` in the colour named `color` with `Colorize::color` of
/// colored_truecolor, formatted through `Display`. The crate writes the style before
/// the text and the reset after it, or the text alone where the process has colours
/// switched off; only after a reset sequence inside the text does it put the style in
/// again. So a text without an escape character stands unbroken in the result.
#[verifier::external_body]
fn tint(text: &str, color: &str) -> (out: String)
    ensures
        !text@.contains('\x1b') ==> framed(out@, text@),
{
    format!("{}", text.color(color))
}

impl<H> Anima<H> {
    /// The order in which the hooks and groups of this session run.
    pub open spec fn schedule(&self) -> Seq<Step> {
        plan(
            self.before_all_hooks@.len(),
            self.before_each_hooks@.len(),
            self.groups@.len(),
            self.after_each_hooks@.len(),
            self.after_all_hooks@.len(),
        )
    }

    /// A session introduced as `describe`, with nothing counted and nothing registered.
    pub fn new(describe: &str) -> (anima: Self)
        ensures
            anima.describe@ == describe@,
            anima.failures == 0,
            anima.asserts == 0,
            anima.before_all_hooks@.len() == 0,
            anima.before_each_hooks@.len() == 0,
            anima.after_all_hooks@.len() == 0,
            anima.after_each_hooks@.len() == 0,
            anima.groups@.len() == 0,
    {
        Anima {
            describe: describe.to_owned(),
            failures: 0,
            asserts: 0,
            before_all_hooks: Vec::new(),
            before_each_hooks: Vec::new(),
            after_all_hooks: Vec::new(),
            after_each_hooks: Vec::new(),
            groups: Vec::new(),
        }
    }

    /// What introduces the session: an empty line, then its description.
    pub fn banner(&self) -> (out: String)
        ensures
            out@ == seq!['\n'] + self.describe@,
    {
        let mut out = String::new();
        out.push('\n');
        out.push_str(self.describe.as_str());
        assert(out@ =~= seq!['\n'] + self.describe@);
        out
    }

    /// Counts one failed check.
    fn inc_failure(&mut self)
        requires
            old(self).failures < u32::MAX,
        ensures
            *final(self) == (Anima { failures: (old(self).failures + 1) as u32, ..*old(self) }),
    {
        self.failures = self.failures + 1;
    }

    /// Counts one passed check.
    fn inc_assert(&mut self)
        requires
            old(self).asserts < u32::MAX,
        ensures
            *final(self) == (Anima { asserts: (old(self).asserts + 1) as u32, ..*old(self) }),
    {
        self.asserts = self.asserts + 1;
    }

    /// Checks that every entry of `iter` is `true`: each `true` adds one to the passed
    /// checks, each `false` one to the failed ones. All entries are evaluated.
    pub fn ok(&mut self, iter: Vec<bool>) -> (ret: &mut Self)
        requires
            old(self).asserts + count(iter@, true) <= u32::MAX,
            old(self).failures + count(iter@, false) <= u32::MAX,
        ensures
            *ret == (Anima {
                asserts: (old(self).asserts + count(iter@, true)) as u32,
                failures: (old(self).failures + count(iter@, false)) as u32,
                ..*old(self)
            }),
            *final(self) == *final(ret),
    {
        let mut i: usize = 0;
        while i < iter.len()
            invariant
                i <= iter.len(),
                old(self).asserts + count(iter@, true) <= u32::MAX,
                old(self).failures + count(iter@, false) <= u32::MAX,
                *self == (Anima {
                    asserts: (old(self).asserts + count(iter@.take(i as int), true)) as u32,
                    failures: (old(self).failures + count(iter@.take(i as int), false)) as u32,
                    ..*old(self)
                }),
            decreases iter.len() - i,
        {
            proof {
                assert(iter@.take(i + 1).drop_last() =~= iter@.take(i as int));
                lemma_count_prefix(iter@, (i + 1) as nat, true);
                lemma_count_prefix(iter@, (i + 1) as nat, false);
            }
            if iter[i] {
                self.inc_assert();
            } else {
                self.inc_failure();
            }
            i = i + 1;
        }
        proof {
            assert(iter@.take(i as int) =~= iter@);
        }
        self
    }

    /// Checks that every entry of `iter` is `false`: the mirror of [`Anima::ok`].
    pub fn ko(&mut self, iter: Vec<bool>) -> (ret: &mut Self)
        requires
            old(self).asserts + count(iter@, false) <= u32::MAX,
            old(self).failures + count(iter@, true) <= u32::MAX,
        ensures
            *ret == (Anima {
                asserts: (old(self).asserts + count(iter@, false)) as u32,
                failures: (old(self).failures + count(iter@, true)) as u32,
                ..*old(self)
            }),
            *final(self) == *final(ret),
    {
        let mut i: usize = 0;
        while i < iter.len()
            invariant
                i <= iter.len(),
                old(self).asserts + count(iter@, false) <= u32::MAX,
                old(self).failures + count(iter@, true) <= u32::MAX,
                *self == (Anima {
                    asserts: (old(self).asserts + count(iter@.take(i as int), false)) as u32,
                    failures: (old(self).failures + count(iter@.take(i as int), true)) as u32,
                    ..*old(self)
                }),
            decreases iter.len() - i,
        {
            proof {
                assert(iter@.take(i + 1).drop_last() =~= iter@.take(i as int));
                lemma_count_prefix(iter@, (i + 1) as nat, true);
                lemma_count_prefix(iter@, (i + 1) as nat, false);
            }
            if !iter[i] {
                self.inc_assert();
            } else {
                self.inc_failure();
            }
            i = i + 1;
        }
        proof {
            assert(iter@.take(i as int) =~= iter@);
        }
        self
    }

    /// Registers `f` after the hooks already set to run before all.
    pub fn add_before_all_hooks(&mut self, f: H) -> (ret: &mut Self)
        ensures
            *ret == (Anima {
                before_all_hooks: ret.before_all_hooks,
                ..*old(self)
            }),
            ret.before_all_hooks@ == old(self).before_all_hooks@.push(f),
            *final(self) == *final(ret),
    {
        self.before_all_hooks.push(f);
        self
    }

    /// Registers `f` after the hooks already set to run after all.
    pub fn add_after_all_hooks(&mut self, f: H) -> (ret: &mut Self)
        ensures
            *ret == (Anima { after_all_hooks: ret.after_all_hooks, ..*old(self) }),
            ret.after_all_hooks@ == old(self).after_all_hooks@.push(f),
            *final(self) == *final(ret),
    {
        self.after_all_hooks.push(f);
        self
    }

    /// Registers `f` after the hooks already set to run after each group.
    pub fn add_after_each_hooks(&mut self, f: H) -> (ret: &mut Self)
        ensures
            *ret == (Anima { after_each_hooks: ret.after_each_hooks, ..*old(self) }),
            ret.after_each_hooks@ == old(self).after_each_hooks@.push(f),
            *final(self) == *final(ret),
    {
        self.after_each_hooks.push(f);
        self
    }

    /// Registers `f` after the hooks already set to run before each group.
    pub fn add_before_each_hooks(&mut self, f: H) -> (ret: &mut Self)
        ensures
            *ret == (Anima { before_each_hooks: ret.before_each_hooks, ..*old(self) }),
            ret.before_each_hooks@ == old(self).before_each_hooks@.push(f),
            *final(self) == *final(ret),
    {
        self.before_each_hooks.push(f);
        self
    }

    /// Moves the groups of `g` behind the groups already registered, in their order,
    /// and leaves `g` empty.
    pub fn add_groups(&mut self, g: &mut Vec<H>) -> (ret: &mut Self)
        ensures
            *ret == (Anima { groups: ret.groups, ..*old(self) }),
            ret.groups@ == old(self).groups@ + old(g)@,
            final(g)@ == Seq::<H>::empty(),
            *final(self) == *final(ret),
    {
        self.groups.append(g);
        self
    }

    /// The summary that closes a run: the label `ASSERTS` and the passed checks, the
    /// label `FAILURE` and the failed checks, each piece tinted.
    pub fn summary(&self) -> (out: String)
        ensures
            exists|
                asserts_label: Seq<char>,
                asserts: Seq<char>,
                failures_label: Seq<char>,
                failures: Seq<char>,
            |
                {
                    &&& framed(asserts_label, "ASSERTS"@)
                    &&& framed(asserts, decimal(self.asserts as nat))
                    &&& framed(failures_label, "FAILURE"@)
                    &&& framed(failures, decimal(self.failures as nat))
                    &&& out@ == #[trigger] summary_of(
                        asserts_label,
                        asserts,
                        failures_label,
                        failures,
                    )
                },
    {
        let passed = to_decimal(self.asserts as u128);
        let failed = to_decimal(self.failures as u128);
        proof {
            reveal_strlit("ASSERTS");
            reveal_strlit("FAILURE");
            lemma_decimal_digits(self.asserts as nat);
            lemma_decimal_digits(self.failures as nat);
            assert(!"ASSERTS"@.contains('\x1b'));
            assert(!"FAILURE"@.contains('\x1b'));
            assert(!passed@.contains('\x1b'));
            assert(!failed@.contains('\x1b'));
        }
        let asserts_label = tint("ASSERTS", Tone::White.name());
        let asserts = tint(passed.as_str(), Tone::Green.name());
        let failures_label = tint("FAILURE", Tone::White.name());
        let failures = tint(failed.as_str(), Tone::Red.name());
        let mut out = String::new();
        out.push('\n');
        out.push_str(asserts_label.as_str());
        out.push(' ');
        out.push_str(asserts.as_str());
        out.push('\n');
        out.push_str(failures_label.as_str());
        out.push(' ');
        out.push_str(failures.as_str());
        out.push('\n');
        out.push('\n');
        assert(out@ =~= summary_of(asserts_label@, asserts@, failures_label@, failures@));
        out
    }

    /// Where the run stands after one more step from `state`.
    pub open spec fn after(&self, state: State) -> State {
        following(
            self.before_all_hooks@.len(),
            self.before_each_hooks@.len(),
            self.groups@.len(),
            self.after_each_hooks@.len(),
            self.after_all_hooks@.len(),
            state,
        )
    }

    fn closing_state(&self) -> (state: State)
        ensures
            state == enter_closing(self.after_all_hooks@.len()),
    {
        if self.after_all_hooks.len() > 0 {
            State::At(Step::AfterAll(0))
        } else {
            State::Reported
        }
    }

    fn group_state(&self, group: usize) -> (state: State)
        ensures
            state == enter_group(
                group as nat,
                self.before_each_hooks@.len(),
                self.groups@.len(),
                self.after_all_hooks@.len(),
            ),
    {
        if group < self.groups.len() {
            if self.before_each_hooks.len() > 0 {
                State::At(Step::BeforeEach(group, 0))
            } else {
                State::At(Step::Group(group))
            }
        } else {
            self.closing_state()
        }
    }

    fn next_group_state(&self, group: usize) -> (state: State)
        ensures
            state == enter_group(
                (group + 1) as nat,
                self.before_each_hooks@.len(),
                self.groups@.len(),
                self.after_all_hooks@.len(),
            ),
    {
        if group < self.groups.len() {
            self.group_state(group + 1)
        } else {
            self.closing_state()
        }
    }

    /// Moves the run one step on: from idle to its first unit, from a unit to the one
    /// that follows it, from the last unit to the end. A run that is over stays over.
    pub fn advance(&self, state: State) -> (next: State)
        ensures
            next == self.after(state),
    {
        match state {
            State::Idle => {
                if self.before_all_hooks.len() > 0 {
                    State::At(Step::BeforeAll(0))
                } else {
                    self.group_state(0)
                }
            },
            State::At(Step::BeforeAll(hook)) => {
                if hook < self.before_all_hooks.len() && hook + 1 < self.before_all_hooks.len() {
                    State::At(Step::BeforeAll(hook + 1))
                } else {
                    self.group_state(0)
                }
            },
            State::At(Step::BeforeEach(group, hook)) => {
                if hook < self.before_each_hooks.len() && hook + 1 < self.before_each_hooks.len() {
                    State::At(Step::BeforeEach(group, hook + 1))
                } else {
                    State::At(Step::Group(group))
                }
            },
            State::At(Step::Group(group)) => {
                if self.after_each_hooks.len() > 0 {
                    State::At(Step::AfterEach(group, 0))
                } else {
                    self.next_group_state(group)
                }
            },
            State::At(Step::AfterEach(group, hook)) => {
                if hook < self.after_each_hooks.len() && hook + 1 < self.after_each_hooks.len() {
                    State::At(Step::AfterEach(group, hook + 1))
                } else {
                    self.next_group_state(group)
                }
            },
            State::At(Step::AfterAll(hook)) => {
                if hook < self.after_all_hooks.len() && hook + 1 < self.after_all_hooks.len() {
                    State::At(Step::AfterAll(hook + 1))
                } else {
                    State::Reported
                }
            },
            State::Reported => State::Reported,
        }
    }

    /// The order of the run: what the caller runs, one unit after the other, before it
    /// prints the summary. Nothing a unit returns changes the order.
    pub fn run(&self) -> (steps: Vec<Step>)
        ensures
            steps@ == self.schedule(),
    {
        let mut steps: Vec<Step> = Vec::new();
        let before_each = self.before_each_hooks.len();
        let after_each = self.after_each_hooks.len();
        let mut i: usize = 0;
        while i < self.before_all_hooks.len()
            invariant
                i <= self.before_all_hooks.len(),
                steps@ == opening(i as nat),
            decreases self.before_all_hooks.len() - i,
        {
            steps.push(Step::BeforeAll(i));
            i = i + 1;
            assert(steps@ =~= opening(i as nat));
        }
        let mut g: usize = 0;
        while g < self.groups.len()
            invariant
                g <= self.groups.len(),
                before_each == self.before_each_hooks@.len(),
                after_each == self.after_each_hooks@.len(),
                steps@ == opening(self.before_all_hooks@.len()) + rounds(
                    g as nat,
                    before_each as nat,
                    after_each as nat,
                ),
            decreases self.groups.len() - g,
        {
            let ghost done = steps@;
            let mut b: usize = 0;
            while b < before_each
                invariant
                    b <= before_each,
                    steps@ == done + Seq::new(
                        b as nat,
                        |i: int| Step::BeforeEach(g as usize, i as usize),
                    ),
                decreases before_each - b,
            {
                steps.push(Step::BeforeEach(g, b));
                b = b + 1;
                assert(steps@ =~= done + Seq::new(
                    b as nat,
                    |i: int| Step::BeforeEach(g as usize, i as usize),
                ));
            }
            steps.push(Step::Group(g));
            let ghost half = steps@;
            let mut a: usize = 0;
            while a < after_each
                invariant
                    a <= after_each,
                    steps@ == half + Seq::new(
                        a as nat,
                        |i: int| Step::AfterEach(g as usize, i as usize),
                    ),
                decreases after_each - a,
            {
                steps.push(Step::AfterEach(g, a));
                a = a + 1;
                assert(steps@ =~= half + Seq::new(
                    a as nat,
                    |i: int| Step::AfterEach(g as usize, i as usize),
                ));
            }
            assert(steps@ =~= done + round(g as nat, before_each as nat, after_each as nat));
            g = g + 1;
            assert(steps@ =~= opening(self.before_all_hooks@.len()) + rounds(
                g as nat,
                before_each as nat,
                after_each as nat,
            ));
        }
        let ghost body = steps@;
        let mut z: usize = 0;
        while z < self.after_all_hooks.len()
            invariant
                z <= self.after_all_hooks.len(),
                steps@ == body + closing(z as nat),
            decreases self.after_all_hooks.len() - z,
        {
            steps.push(Step::AfterAll(z));
            z = z + 1;
            assert(steps@ =~= body + closing(z as nat));
        }
        steps
    }
}

/// Counting the first `n` entries is counting the first `n - 1` and the entry after
/// them.
pub proof fn lemma_count_prefix(tests: Seq<bool>, n: nat, value: bool)
    requires
        0 < n <= tests.len(),
    ensures
        count(tests.take(n as int), value) == count(tests.take(n - 1), value) + if tests[n - 1]
            == value {
            1nat
        } else {
            0nat
        },
        count(tests.take(n as int), value) <= count(tests, value),
    decreases tests.len() - n,
{
    assert(tests.take(n as int).drop_last() =~= tests.take(n - 1));
    if n < tests.len() {
        lemma_count_prefix(tests, n + 1, value);
    } else {
        assert(tests.take(n as int) =~= tests);
    }
}

/// How many units the round of one group holds.
pub open spec fn round_len(before_each: nat, after_each: nat) -> int {
    (before_each + 1 + after_each) as int
}

/// The rounds of `groups` groups hold one unit for each group and one for each hook
/// set before or after each, once for every group.
pub proof fn lemma_rounds_len(groups: nat, before_each: nat, after_each: nat)
    ensures
        rounds(groups, before_each, after_each).len() == groups * round_len(
            before_each,
            after_each,
        ),
    decreases groups,
{
    let size = round_len(before_each, after_each);
    if groups > 0 {
        lemma_rounds_len((groups - 1) as nat, before_each, after_each);
        assert(groups * size == (groups - 1) * size + size) by (nonlinear_arith);
    } else {
        assert(0 * size == 0) by (nonlinear_arith);
    }
}

/// The hooks set before each and after each run again for every group: in the rounds
/// of `groups` groups, the units of the group at index `group` stand together, after
/// those of all groups before it, as its own round.
pub proof fn lemma_round_in_rounds(groups: nat, before_each: nat, after_each: nat, group: nat)
    requires
        group < groups,
    ensures
        0 <= group * round_len(before_each, after_each),
        (group + 1) * round_len(before_each, after_each) <= rounds(
            groups,
            before_each,
            after_each,
        ).len(),
        rounds(groups, before_each, after_each).subrange(
            group * round_len(before_each, after_each),
            (group + 1) * round_len(before_each, after_each),
        ) == round(group, before_each, after_each),
    decreases groups,
{
    let size = round_len(before_each, after_each);
    let earlier = rounds((groups - 1) as nat, before_each, after_each);
    let last = round((groups - 1) as nat, before_each, after_each);
    lemma_rounds_len(groups, before_each, after_each);
    lemma_rounds_len((groups - 1) as nat, before_each, after_each);
    assert((group + 1) * size == group * size + size) by (nonlinear_arith);
    assert(groups * size == (groups - 1) * size + size) by (nonlinear_arith);
    assert(0 <= group * size) by (nonlinear_arith)
        requires
            0 <= group,
            0 <= size,
    ;
    if group == groups - 1 {
        assert((earlier + last).subrange(group * size, (group + 1) * size) =~= last);
    } else {
        lemma_round_in_rounds((groups - 1) as nat, before_each, after_each, group);
        assert((group + 1) * size <= (groups - 1) * size) by (nonlinear_arith)
            requires
                group + 1 <= groups - 1,
                0 <= size,
        ;
        assert((earlier + last).subrange(group * size, (group + 1) * size) =~= earlier.subrange(
            group * size,
            (group + 1) * size,
        ));
    }
}

/// A whole run is its three parts in order: every hook set before all runs before the
/// first round, and every hook set after all after the last.
pub proof fn lemma_plan_parts(
    before_all: nat,
    before_each: nat,
    groups: nat,
    after_each: nat,
    after_all: nat,
)
    ensures
        plan(before_all, before_each, groups, after_each, after_all).len() == before_all + groups
            * round_len(before_each, after_each) + after_all,
        0 <= groups * round_len(before_each, after_each),
        plan(before_all, before_each, groups, after_each, after_all).subrange(
            0,
            before_all as int,
        ) == opening(before_all),
        plan(before_all, before_each, groups, after_each, after_all).subrange(
            before_all as int,
            before_all + groups * round_len(before_each, after_each),
        ) == rounds(groups, before_each, after_each),
        plan(before_all, before_each, groups, after_each, after_all).subrange(
            before_all + groups * round_len(before_each, after_each),
            before_all + groups * round_len(before_each, after_each) + after_all,
        ) == closing(after_all),
{
    lemma_rounds_len(groups, before_each, after_each);
    let whole = plan(before_all, before_each, groups, after_each, after_all);
    let middle = rounds(groups, before_each, after_each);
    let start = before_all as int;
    let stop = (before_all + middle.len()) as int;
    assert(whole.subrange(0, start) =~= opening(before_all));
    assert(whole.subrange(start, stop) =~= middle);
    assert(whole.subrange(stop, stop + after_all) =~= closing(after_all));
}

/// The unit at each place of a round: the hooks set before each, the group, the hooks
/// set after each.
pub proof fn lemma_round_at(group: nat, before_each: nat, after_each: nat, place: int)
    requires
        0 <= place < round_len(before_each, after_each),
    ensures
        round(group, before_each, after_each).len() == round_len(before_each, after_each),
        place < before_each ==> round(group, before_each, after_each)[place] == Step::BeforeEach(
            group as usize,
            place as usize,
        ),
        place == before_each ==> round(group, before_each, after_each)[place] == Step::Group(
            group as usize,
        ),
        place > before_each ==> round(group, before_each, after_each)[place] == Step::AfterEach(
            group as usize,
            (place - before_each - 1) as usize,
        ),
{
}

/// The unit at each place of a whole run: a hook set before all, a unit of the round
/// of its group, or a hook set after all.
pub proof fn lemma_plan_at(
    before_all: nat,
    before_each: nat,
    groups: nat,
    after_each: nat,
    after_all: nat,
    place: int,
)
    requires
        0 <= place < plan(before_all, before_each, groups, after_each, after_all).len(),
    ensures
        place < before_all ==> plan(before_all, before_each, groups, after_each, after_all)[place]
            == Step::BeforeAll(place as usize),
        before_all <= place < before_all + groups * round_len(before_each, after_each) ==> {
            let inner = place - before_all;
            let size = round_len(before_each, after_each);
            &&& 0 <= inner / size < groups
            &&& 0 <= inner % size < size
            &&& inner == (inner / size) * size + inner % size
            &&& plan(before_all, before_each, groups, after_each, after_all)[place] == round(
                (inner / size) as nat,
                before_each,
                after_each,
            )[inner % size]
        },
        place >= before_all + groups * round_len(before_each, after_each) ==> plan(
            before_all,
            before_each,
            groups,
            after_each,
            after_all,
        )[place] == Step::AfterAll(
            (place - before_all - groups * round_len(before_each, after_each)) as usize,
        ),
{
    let size = round_len(before_each, after_each);
    let middle = rounds(groups, before_each, after_each);
    lemma_rounds_len(groups, before_each, after_each);
    if before_all <= place < before_all + groups * size {
        let inner = place - before_all;
        let group = inner / size;
        let at = inner % size;
        vstd::arithmetic::div_mod::lemma_fundamental_div_mod(inner, size);
        vstd::arithmetic::div_mod::lemma_mod_pos_bound(inner, size);
        vstd::arithmetic::div_mod::lemma_div_pos_is_pos(inner, size);
        assert(size * group == group * size) by (nonlinear_arith);
        assert(group < groups) by (nonlinear_arith)
            requires
                inner == group * size + at,
                0 <= at,
                inner < groups * size,
                0 < size,
                0 <= group,
        ;
        lemma_round_in_rounds(groups, before_each, after_each, group as nat);
        let slot = middle.subrange(group * size, (group + 1) * size);
        assert((group + 1) * size == group * size + size) by (nonlinear_arith);
        assert(slot[at] == middle[group * size + at]);
        assert(plan(before_all, before_each, groups, after_each, after_all)[place] == middle[inner]);
    }
}

/// A run that moves on step by step goes through its plan: from idle the first step
/// leads to the first unit, each further step to the unit that follows in the plan,
/// and the step after the last unit to the end, where the run stays.
pub proof fn lemma_advance_follows_plan(
    before_all: nat,
    before_each: nat,
    groups: nat,
    after_each: nat,
    after_all: nat,
    n: nat,
)
    requires
        before_all <= usize::MAX,
        before_each <= usize::MAX,
        groups <= usize::MAX,
        after_each <= usize::MAX,
        after_all <= usize::MAX,
    ensures
        following(
            before_all,
            before_each,
            groups,
            after_each,
            after_all,
            standing(plan(before_all, before_each, groups, after_each, after_all), n),
        ) == standing(plan(before_all, before_each, groups, after_each, after_all), n + 1),
{
    let steps = plan(before_all, before_each, groups, after_each, after_all);
    let size = round_len(before_each, after_each);
    let body = groups * size;
    lemma_rounds_len(groups, before_each, after_each);
    assert(0 <= body) by (nonlinear_arith)
        requires
            body == groups * size,
            0 <= groups,
            0 <= size,
    ;
    assert(steps.len() == before_all + body + after_all);
    if n < steps.len() {
        // The unit that the step leads to.
        lemma_plan_at(before_all, before_each, groups, after_each, after_all, n as int);
        if before_all <= n < before_all + body {
            let inner = n - before_all;
            lemma_round_at((inner / size) as nat, before_each, after_each, inner % size);
        }
    }
    if n == 0 {
        if before_all == 0 && groups > 0 {
            assert(0int / size == 0 && 0int % size == 0) by (nonlinear_arith)
                requires
                    0 < size,
            ;
        }
        if before_all == 0 && groups == 0 {
            assert(body == 0) by (nonlinear_arith)
                requires
                    body == groups * size,
                    groups == 0,
            ;
        }
    } else if n <= steps.len() {
        // The unit that the step leaves.
        let from = n - 1;
        lemma_plan_at(before_all, before_each, groups, after_each, after_all, from);
        if from < before_all {
            // The last hook set before all leads into the first round or past it.
            if n == before_all {
                if groups > 0 {
                    assert(0int / size == 0 && 0int % size == 0) by (nonlinear_arith)
                        requires
                            0 < size,
                    ;
                } else {
                    assert(body == 0) by (nonlinear_arith)
                        requires
                            body == groups * size,
                            groups == 0,
                    ;
                }
            }
        } else if from < before_all + body {
            let inner = from - before_all;
            let group = inner / size;
            let at = inner % size;
            lemma_round_at(group as nat, before_each, after_each, at);
            if at + 1 < size {
                // The next unit stands in the same round.
                assert((inner + 1) / size == group && (inner + 1) % size == at + 1) by (nonlinear_arith)
                    requires
                        inner == group * size + at,
                        0 <= at,
                        at + 1 < size,
                        0 <= group,
                ;
                assert((group + 1) * size <= groups * size) by (nonlinear_arith)
                    requires
                        group + 1 <= groups,
                        0 <= size,
                ;
                assert((group + 1) * size == group * size + size) by (nonlinear_arith);
            } else if group + 1 < groups {
                // The next unit opens the round of the next group.
                assert((inner + 1) / size == group + 1 && (inner + 1) % size == 0) by (nonlinear_arith)
                    requires
                        inner == group * size + at,
                        at + 1 == size,
                        0 <= group,
                        0 < size,
                ;
                assert((group + 2) * size <= groups * size) by (nonlinear_arith)
                    requires
                        group + 2 <= groups,
                        0 <= size,
                ;
                assert((group + 2) * size == group * size + size + size) by (nonlinear_arith);
            } else {
                // The last unit of the last round leads past the rounds.
                assert((group + 1) * size == group * size + size) by (nonlinear_arith);
            }
        }
    }
}

} // verus!
