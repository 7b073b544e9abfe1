//! Laying out result lines, reporting a run, and what a session of checks offers.
//!
//! Every line the engine reports is first a [`Line`]: a symbol, a text, a status token
//! and the number of columns that keep the bracketed token at the right edge of the
//! terminal. A line made without a terminal width is a plain `"<symbol> <text>"`.
//! The report of a run is five such lines, and the status of the run follows from the
//! failed checks alone. [`Testing`] states what every check does to a session.

use crate::anima::clock::millis_since;
use crate::anima::order::{
    all_said_above, all_said_at_least, all_said_at_most, all_said_below, all_said_other,
    all_said_same, can_find, can_miss, each_above, each_at_least, each_at_most, each_below,
    each_other, each_same, equatable, ordered, said_between, said_other, said_same, same,
    strictly_between,
};
use crate::anima::text::{blanks, columns, decimal, lowercase, push_blanks, push_decimal};
use crate::anima::unit::{can_end, count, negated, saturated, Session, Unit};
use crossterm::style::{Color, Stylize};
use std::fmt::Debug;
use std::time::Instant;
use vstd::prelude::*;

verus! {

/// Status token of a line that reports success.
pub const SUCCESS: &'static str = "ok";

/// Status token of a line that reports failure.
pub const FAILURE: &'static str = "ko";

/// Milliseconds a session waits before each check line unless told otherwise.
pub const DEFAULT_SLEEP_TIME: u64 = 0;

/// Columns taken by what surrounds the description and the token on an aligned line:
/// the symbol and its space, `"[ "` and `" ]"`.
pub const FRAME_COLUMNS: usize = 6;

/// The colour a piece of a line is shown in.
#[derive(Clone, Copy, PartialEq, Eq, Debug, Structural)]
pub enum Tone {
    Green,
    Red,
    Yellow,
    Cyan,
    White,
}

impl Tone {
    /// The name of this colour.
    pub open spec fn spec_name(self) -> Seq<char> {
        match self {
            Tone::Red => "red"@,
            Tone::Green => "green"@,
            Tone::Yellow => "yellow"@,
            Tone::Cyan => "cyan"@,
            Tone::White => "white"@,
        }
    }

    /// The name of this colour.
    pub fn name(self) -> (name: &'static str)
        ensures
            name@ == self.spec_name(),
    {
        match self {
            Tone::Red => "red",
            Tone::Green => "green",
            Tone::Yellow => "yellow",
            Tone::Cyan => "cyan",
            Tone::White => "white",
        }
    }
}

/// What a line stands for, shown as its first character.
#[derive(Clone, Copy, PartialEq, Eq, Debug, Structural)]
pub enum Symbol {
    /// `*`: a check that passed.
    Success,
    /// `!`: a check that failed.
    Failure,
    /// `~`: an entry that was skipped.
    Skipped,
    /// `#`: the title of a group or of a section.
    Title,
}

impl Symbol {
    /// The character printed for this symbol.
    pub open spec fn spec_glyph(self) -> char {
        match self {
            Symbol::Success => '*',
            Symbol::Failure => '!',
            Symbol::Skipped => '~',
            Symbol::Title => '#',
        }
    }

    /// The colour of this symbol and of the token of its line.
    pub open spec fn spec_tone(self) -> Tone {
        match self {
            Symbol::Success => Tone::Green,
            Symbol::Failure => Tone::Red,
            Symbol::Skipped => Tone::Yellow,
            Symbol::Title => Tone::Cyan,
        }
    }

    /// The character printed for this symbol.
    #[verifier::when_used_as_spec(spec_glyph)]
    pub fn glyph(self) -> (c: char)
        ensures
            c == self.spec_glyph(),
    {
        match self {
            Symbol::Success => '*',
            Symbol::Failure => '!',
            Symbol::Skipped => '~',
            Symbol::Title => '#',
        }
    }

    /// The colour of this symbol and of the token of its line.
    #[verifier::when_used_as_spec(spec_tone)]
    pub fn tone(self) -> (t: Tone)
        ensures
            t == self.spec_tone(),
    {
        match self {
            Symbol::Success => Tone::Green,
            Symbol::Failure => Tone::Red,
            Symbol::Skipped => Tone::Yellow,
            Symbol::Title => Tone::Cyan,
        }
    }
}

/// One line of a report, laid out and not yet written.
#[derive(Debug, Clone)]
pub struct Line {
    /// What the line stands for.
    pub symbol: Symbol,
    /// The description as it is shown.
    pub text: String,
    /// The token between the brackets.
    pub status: String,
    /// Spaces between the text and the bracket; `None` on a plain line.
    pub gap: Option<u16>,
    /// Whether an empty line comes before an aligned line.
    pub lead: bool,
    /// Whether an empty line comes after an aligned line.
    pub trail: bool,
    /// Whether an aligned line is written in bold.
    pub bold: bool,
    /// Milliseconds to wait before the line is written.
    pub pause: u64,
    /// Whether the line is the record of an outcome that a counter holds.
    pub counted: bool,
}

/// A [`Line`] as a mathematical value.
pub struct LineView {
    pub symbol: Symbol,
    pub text: Seq<char>,
    pub status: Seq<char>,
    pub gap: Option<u16>,
    pub lead: bool,
    pub trail: bool,
    pub bold: bool,
    pub pause: u64,
    pub counted: bool,
}

impl View for Line {
    type V = LineView;

    open spec fn view(&self) -> LineView {
        LineView {
            symbol: self.symbol,
            text: self.text@,
            status: self.status@,
            gap: self.gap,
            lead: self.lead,
            trail: self.trail,
            bold: self.bold,
            pause: self.pause,
            counted: self.counted,
        }
    }
}

/// Spaces that put the bracketed token of a line at column `width`: what is left of the
/// width after the description, the token and the frame, and zero where they do not fit.
pub open spec fn padding(width: u16, description: Seq<char>, status: Seq<char>) -> u16 {
    let used = columns(description) + columns(status) + FRAME_COLUMNS;
    if used >= width {
        0u16
    } else {
        (width - used) as u16
    }
}

/// Where a line fits its terminal, the padding fills the width exactly, so that the
/// closing bracket stands at the last column; where it does not fit, there is no
/// padding. With a token of two columns, as `ok` and `ko` are, what is left for the
/// padding is the width less the description and eight columns.
pub proof fn lemma_padding(width: u16, description: Seq<char>, status: Seq<char>)
    ensures
        columns(description) + columns(status) + FRAME_COLUMNS <= width ==> columns(description)
            + padding(width, description, status) + columns(status) + FRAME_COLUMNS == width,
        columns(description) + columns(status) + FRAME_COLUMNS > width ==> padding(
            width,
            description,
            status,
        ) == 0,
        columns(status) == 2 && columns(description) + 8 <= width ==> padding(
            width,
            description,
            status,
        ) == width - columns(description) - 8,
        columns(SUCCESS@) == 2,
        columns(FAILURE@) == 2,
{
    reveal_strlit("ok");
    reveal_strlit("ko");
    assert(vstd::utf8::is_ascii_chars(SUCCESS@));
    assert(vstd::utf8::is_ascii_chars(FAILURE@));
    vstd::utf8::is_ascii_chars_encode_utf8(SUCCESS@);
    vstd::utf8::is_ascii_chars_encode_utf8(FAILURE@);
}

/// Whether the lines under `symbol` are written in bold: all but those of failed
/// checks.
pub open spec fn emphasized(symbol: Symbol) -> bool {
    symbol != Symbol::Failure
}

/// The line for `description` under `symbol`. With a width the text is lowercased and
/// the token aligned; without one the line is plain and keeps the text as given.
pub open spec fn layout(
    symbol: Symbol,
    width: Option<u16>,
    description: Seq<char>,
    status: Seq<char>,
    lead: bool,
    trail: bool,
) -> LineView {
    match width {
        Some(w) => LineView {
            symbol,
            text: lowercase(description),
            status,
            gap: Some(padding(w, description, status)),
            lead,
            trail,
            bold: emphasized(symbol),
            pause: 0,
            counted: false,
        },
        None => LineView {
            symbol,
            text: description,
            status,
            gap: None,
            lead,
            trail,
            bold: emphasized(symbol),
            pause: 0,
            counted: false,
        },
    }
}

/// The line of a passed check.
pub open spec fn success_line(width: Option<u16>, description: Seq<char>) -> LineView {
    layout(Symbol::Success, width, description, SUCCESS@, false, false)
}

/// The line of a failed check.
pub open spec fn failure_line(width: Option<u16>, description: Seq<char>) -> LineView {
    layout(Symbol::Failure, width, description, FAILURE@, false, false)
}

/// The line of a skipped entry.
pub open spec fn skip_line(width: Option<u16>, description: Seq<char>) -> LineView {
    layout(Symbol::Skipped, width, description, SUCCESS@, false, false)
}

/// The line of a title, set off by an empty line on either side.
pub open spec fn title_line(width: Option<u16>, title: Seq<char>, status: Seq<char>) -> LineView {
    layout(Symbol::Title, width, title, status, true, true)
}

/// The line of one evaluated condition: a success line where `test` holds, a failure
/// line where it does not, written after `pause` milliseconds. It records an outcome.
pub open spec fn check_line(
    width: Option<u16>,
    description: Seq<char>,
    test: bool,
    pause: u64,
) -> LineView {
    let base = if test {
        success_line(width, description)
    } else {
        failure_line(width, description)
    };
    LineView { pause, counted: true, ..base }
}

/// Whether `out` holds `inner` unbroken, with anything before and after it.
pub open spec fn framed(out: Seq<char>, inner: Seq<char>) -> bool {
    exists|before: Seq<char>, after: Seq<char>| out == before + inner + after
}

/// Whether `out` is what painting `inner` can give: `inner` unbroken, with anything
/// before and after it, or nothing at all, where a console without escape sequences
/// is styled through its own interface and no text is handed back.
pub open spec fn painted(out: Seq<char>, inner: Seq<char>) -> bool {
    out.len() == 0 || framed(out, inner)
}

impl LineView {
    /// The line without colour or alignment: the symbol, a space and the text.
    pub open spec fn plain(self) -> Seq<char> {
        seq![self.symbol.glyph(), ' '] + self.text
    }

    /// The aligned line put together from its five painted pieces.
    pub open spec fn aligned(
        self,
        symbol: Seq<char>,
        text: Seq<char>,
        open: Seq<char>,
        status: Seq<char>,
        close: Seq<char>,
    ) -> Seq<char> {
        let lead = if self.lead {
            seq!['\n']
        } else {
            Seq::<char>::empty()
        };
        let trail = if self.trail {
            seq!['\n']
        } else {
            Seq::<char>::empty()
        };
        let gap = match self.gap {
            Some(n) => blanks(n as nat),
            None => Seq::<char>::empty(),
        };
        lead + symbol + seq![' '] + text + gap + open + status + close + seq!['\n'] + trail
    }
}

/// Paints `text` in the colour `tone` with crossterm's `Stylize::with`, formatted
/// through `Display`. crossterm writes the escape sequence of the colour, or an empty
/// one where the process has colours switched off, then the text as it is, then the
/// sequence that resets the colour. On a Windows console without escape sequences it
/// writes nothing at all.
#[verifier::external_body]
fn paint(text: &str, tone: Tone) -> (out: String)
    ensures
        painted(out@, text@),
{
    let color = match tone {
        Tone::Green => Color::Green,
        Tone::Red => Color::Red,
        Tone::Yellow => Color::Yellow,
        Tone::Cyan => Color::Cyan,
        Tone::White => Color::White,
    };
    format!("{}", text.with(color))
}

/// Paints `text` bold in the colour `tone` with crossterm's `Stylize::with` and
/// `Stylize::bold`, formatted through `Display`. crossterm writes the escape sequences
/// of the colour and of the attribute, then the text as it is, then the sequence that
/// resets the style. On a Windows console without escape sequences it writes nothing
/// at all.
#[verifier::external_body]
fn paint_bold(text: &str, tone: Tone) -> (out: String)
    ensures
        painted(out@, text@),
{
    let color = match tone {
        Tone::Green => Color::Green,
        Tone::Red => Color::Red,
        Tone::Yellow => Color::Yellow,
        Tone::Cyan => Color::Cyan,
        Tone::White => Color::White,
    };
    format!("{}", text.with(color).bold())
}

impl Line {
    /// The line without colour or alignment: `"<symbol> <text>"`.
    pub fn plain(&self) -> (out: String)
        ensures
            out@ == self@.plain(),
    {
        let mut out = String::new();
        out.push(self.symbol.glyph());
        out.push(' ');
        out.push_str(self.text.as_str());
        assert(out@ =~= self@.plain());
        out
    }

    /// One piece of an aligned line, painted in bold where the line is.
    fn piece(&self, text: &str, tone: Tone) -> (out: String)
        ensures
            painted(out@, text@),
    {
        if self.bold {
            paint_bold(text, tone)
        } else {
            paint(text, tone)
        }
    }

    /// The line as it is written, its line break included. A plain line is its symbol
    /// and text; an aligned line holds the painted symbol, text, brackets and token with
    /// the gap between them.
    pub fn render(&self) -> (out: String)
        ensures
            self.gap is None ==> out@ == self@.plain().push('\n'),
            self.gap is Some ==> exists|
                symbol: Seq<char>,
                text: Seq<char>,
                open: Seq<char>,
                status: Seq<char>,
                close: Seq<char>,
            |
                {
                    &&& painted(symbol, seq![self.symbol.glyph()])
                    &&& painted(text, self.text@)
                    &&& painted(open, "[ "@)
                    &&& painted(status, self.status@)
                    &&& painted(close, " ]"@)
                    &&& out@ == #[trigger] self@.aligned(symbol, text, open, status, close)
                },
    {
        match self.gap {
            None => {
                let mut out = self.plain();
                out.push('\n');
                out
            },
            Some(_) => {
                let mut glyph = String::new();
                glyph.push(self.symbol.glyph());
                assert(glyph@ =~= seq![self.symbol.glyph()]);
                let symbol = self.piece(glyph.as_str(), self.symbol.tone());
                let text = self.piece(self.text.as_str(), Tone::White);
                let open = self.piece("[ ", Tone::White);
                let status = self.piece(self.status.as_str(), self.symbol.tone());
                let close = self.piece(" ]", Tone::White);
                self.assemble(
                    symbol.as_str(),
                    text.as_str(),
                    open.as_str(),
                    status.as_str(),
                    close.as_str(),
                )
            },
        }
    }

    /// Puts an aligned line together from its five painted pieces.
    fn assemble(&self, symbol: &str, text: &str, open: &str, status: &str, close: &str) -> (out:
        String)
        ensures
            out@ == self@.aligned(symbol@, text@, open@, status@, close@),
    {
        let mut out = String::new();
        if self.lead {
            out.push('\n');
        }
        out.push_str(symbol);
        out.push(' ');
        out.push_str(text);
        match self.gap {
            Some(gap) => {
                push_blanks(&mut out, gap as usize);
            },
            None => {},
        }
        out.push_str(open);
        out.push_str(status);
        out.push_str(close);
        out.push('\n');
        if self.trail {
            out.push('\n');
        }
        assert(out@ =~= self@.aligned(symbol@, text@, open@, status@, close@));
        out
    }
}

/// Spaces between `description` and the bracketed `status` on a terminal `x` columns wide.
pub fn to_right(x: u16, description: &str, status: &str) -> (gap: u16)
    ensures
        gap == padding(x, description@, status@),
{
    let d: usize = description.as_bytes().len();
    let s: usize = status.as_bytes().len();
    let w: usize = x as usize;
    if d >= w {
        return 0;
    }
    let left: usize = w - d;
    if s >= left {
        return 0;
    }
    let rest: usize = left - s;
    if rest <= FRAME_COLUMNS {
        return 0;
    }
    (rest - FRAME_COLUMNS) as u16
}

fn lay_out(
    symbol: Symbol,
    width: Option<u16>,
    description: &str,
    status: &str,
    lead: bool,
    trail: bool,
) -> (line: Line)
    ensures
        line@ == layout(symbol, width, description@, status@, lead, trail),
{
    let bold = match symbol {
        Symbol::Failure => false,
        _ => true,
    };
    match width {
        Some(w) => Line {
            symbol,
            text: description.to_lowercase(),
            status: status.to_owned(),
            gap: Some(to_right(w, description, status)),
            lead,
            trail,
            bold,
            pause: 0,
            counted: false,
        },
        None => Line {
            symbol,
            text: description.to_owned(),
            status: status.to_owned(),
            gap: None,
            lead,
            trail,
            bold,
            pause: 0,
            counted: false,
        },
    }
}

/// Lays out the line of a passed check.
pub fn success_output(width: Option<u16>, description: &str) -> (line: Line)
    ensures
        line@ == success_line(width, description@),
{
    lay_out(Symbol::Success, width, description, SUCCESS, false, false)
}

/// Lays out the line of a failed check.
pub fn failure_ouptut(width: Option<u16>, description: &str) -> (line: Line)
    ensures
        line@ == failure_line(width, description@),
{
    lay_out(Symbol::Failure, width, description, FAILURE, false, false)
}

/// Lays out the line of a skipped entry.
pub fn skip_output(width: Option<u16>, description: &str) -> (line: Line)
    ensures
        line@ == skip_line(width, description@),
{
    lay_out(Symbol::Skipped, width, description, SUCCESS, false, false)
}

/// Lays out the title of a group or of a section.
pub fn title_output(width: Option<u16>, title: &str, status: &str) -> (line: Line)
    ensures
        line@ == title_line(width, title@, status@),
{
    lay_out(Symbol::Title, width, title, status, true, true)
}

/// Lays out the line of one evaluated condition, to be written after `t` milliseconds.
pub fn check(width: Option<u16>, description: &str, test: bool, t: u64) -> (line: Line)
    ensures
        line@ == check_line(width, description@, test, t),
{
    let mut line = if test {
        success_output(width, description)
    } else {
        failure_ouptut(width, description)
    };
    line.pause = t;
    line.counted = true;
    line
}

/// How a run ended.
#[derive(Clone, Copy, PartialEq, Eq, Debug, Structural)]
pub enum Status {
    /// No check failed.
    Success,
    /// At least one check failed.
    Failure,
}

/// The status that a session with `failures` failed checks ends with.
pub open spec fn verdict(failures: nat) -> Status {
    if failures == 0 {
        Status::Success
    } else {
        Status::Failure
    }
}

/// The headline of a report: the message under the symbol and token of `success`,
/// in bold, followed by an empty line.
pub open spec fn headline(width: Option<u16>, success: bool, message: Seq<char>) -> LineView {
    let base = if success {
        layout(Symbol::Success, width, message, SUCCESS@, false, true)
    } else {
        layout(Symbol::Failure, width, message, FAILURE@, false, true)
    };
    LineView { bold: true, ..base }
}

/// The line that reports a counter: its label, two spaces and its value.
pub open spec fn counter_text(label: Seq<char>, value: nat) -> Seq<char> {
    label + "  "@ + decimal(value)
}

/// The text of the closing title: whole seconds where the run succeeded, milliseconds
/// where it failed.
pub open spec fn elapsed_text(success: bool, millis: nat) -> Seq<char> {
    if success {
        "execution time "@ + decimal(millis / 1000) + "s"@
    } else {
        "execution time "@ + decimal(millis) + " ms"@
    }
}

/// The session after its report is recorded: the headline chosen by `success`, one line
/// for each counter, and the closing title with the time that went by. No counter
/// changes.
pub open spec fn report(
    session: Session,
    success: bool,
    s: Seq<char>,
    f: Seq<char>,
    millis: nat,
) -> Session {
    let w = session.width;
    let asserts = counter_text("asserts"@, session.asserts);
    let failures = counter_text("failure"@, session.failures);
    let skipped = counter_text("skipped"@, session.skipped);
    if success {
        session.emit(headline(w, true, s)).emit(success_line(w, asserts)).emit(
            success_line(w, failures),
        ).emit(skip_line(w, skipped)).emit(title_line(w, elapsed_text(true, millis), SUCCESS@))
    } else {
        session.emit(headline(w, false, f)).emit(failure_line(w, asserts)).emit(
            failure_line(w, failures),
        ).emit(skip_line(w, skipped)).emit(title_line(w, elapsed_text(false, millis), FAILURE@))
    }
}

fn counter_label(label: &str, value: usize) -> (text: String)
    ensures
        text@ == counter_text(label@, value as nat),
{
    let mut text = String::new();
    text.push_str(label);
    text.push_str("  ");
    push_decimal(&mut text, value as u128);
    assert(text@ =~= counter_text(label@, value as nat));
    text
}

fn elapsed_label(success: bool, millis: u128) -> (text: String)
    ensures
        text@ == elapsed_text(success, millis as nat),
{
    let mut text = String::new();
    text.push_str("execution time ");
    if success {
        push_decimal(&mut text, millis / 1000);
        text.push_str("s");
    } else {
        push_decimal(&mut text, millis);
        text.push_str(" ms");
    }
    assert(text@ =~= elapsed_text(success, millis as nat));
    text
}

/// Closes a session that ran for `millis` milliseconds: records the report and
/// decides how the run ended. The message and the symbols follow `success`; the
/// status is success exactly where no check has failed.
pub fn results(success: bool, s: &str, f: &str, stats: &mut Unit, millis: u128) -> (status: Status)
    requires
        old(stats).wf(),
    ensures
        final(stats)@ == report(old(stats)@, success, s@, f@, millis as nat),
        final(stats).wf(),
        status == verdict(old(stats)@.failures),
        status == Status::Success <==> old(stats)@.failures == 0,
{
    let width = stats.width();
    let asserts = counter_label("asserts", stats.get_assertions());
    let failures = counter_label("failure", stats.get_failures());
    let skipped = counter_label("skipped", stats.get_skipped());
    let elapsed = elapsed_label(success, millis);
    if success {
        let mut head = success_output(width, s);
        head.trail = true;
        head.bold = true;
        stats.emit(head);
        stats.emit(success_output(width, asserts.as_str()));
        stats.emit(success_output(width, failures.as_str()));
        stats.emit(skip_output(width, skipped.as_str()));
        stats.emit(title_output(width, elapsed.as_str(), SUCCESS));
    } else {
        let mut head = failure_ouptut(width, f);
        head.trail = true;
        head.bold = true;
        stats.emit(head);
        stats.emit(failure_ouptut(width, asserts.as_str()));
        stats.emit(failure_ouptut(width, failures.as_str()));
        stats.emit(skip_output(width, skipped.as_str()));
        stats.emit(title_output(width, elapsed.as_str(), FAILURE));
    }
    if stats.get_failures() == 0 {
        Status::Success
    } else {
        Status::Failure
    }
}

/// Closes a session: reads the time gone by since it began, records the report and
/// decides how the run ended, as [`results`] does for that time.
pub fn results_output(success: bool, s: &str, f: &str, stats: &mut Unit) -> (status: Status)
    requires
        old(stats).wf(),
    ensures
        exists|millis: u128|
            final(stats)@ == #[trigger] report(old(stats)@, success, s@, f@, millis as nat),
        final(stats).wf(),
        status == verdict(old(stats)@.failures),
        status == Status::Success <==> old(stats)@.failures == 0,
{
    let started = stats.take();
    let millis = millis_since(&started);
    results(success, s, f, stats, millis)
}

/// What a session of checks offers. Every operation but the last hands the session
/// back, so that calls can follow one another; [`Testing::run`] closes the session.
pub trait Testing: Sized + View<V = Session> {
    /// Begins a session for a terminal `width` columns wide, or for plain output where
    /// `width` is `None`, and records the opening title.
    fn new(width: Option<u16>) -> (unit: Self)
        ensures
            unit@ == Session::begun(width, unit@.started),
            unit@.wf(),
    ;

    /// Checks that every entry of `data` is `true`. Each entry is evaluated, in order:
    /// a `true` adds one to the passed checks and a `false` one to the failed ones, and
    /// each records its own line.
    fn ok(&mut self, description: &str, data: Vec<bool>) -> (ret: &mut Self)
        requires
            old(self)@.wf(),
        ensures
            ret@ == old(self)@.checks(description@, data@),
            ret@.asserts == old(self)@.asserts + count(data@, true),
            ret@.failures == old(self)@.failures + count(data@, false),
            ret@.skipped == old(self)@.skipped,
            ret@.wf(),
            *final(self) == *final(ret),
    ;

    /// Checks that every entry of `data` is `false`: the mirror of [`Testing::ok`]. A
    /// `false` adds one to the passed checks and a `true` one to the failed ones.
    fn ko(&mut self, description: &str, data: Vec<bool>) -> (ret: &mut Self)
        requires
            old(self)@.wf(),
        ensures
            ret@ == old(self)@.checks(description@, negated(data@)),
            ret@.asserts == old(self)@.asserts + count(data@, false),
            ret@.failures == old(self)@.failures + count(data@, true),
            ret@.skipped == old(self)@.skipped,
            ret@.wf(),
            *final(self) == *final(ret),
    ;

    /// Checks that every entry of `data` equals `expected`.
    /// Each entry is one check, evaluated in order and counted like those of
    /// [`Testing::ok`]: its outcome is what `==` gave for it, which is pinned where
    /// `T` keeps to its declared equality.
    fn eq<T: PartialEq>(&mut self, description: &str, data: Vec<T>, expected: T) -> (ret:
        &mut Self)
        requires
            old(self)@.wf(),
        ensures
            exists|tests: Seq<bool>|
                all_said_same(data@, expected, tests) && ret@ == #[trigger] old(self)@.checks(
                    description@,
                    tests,
                ),
            equatable::<T>() ==> ret@ == old(self)@.checks(description@, each_same(data@, expected)),
            ret@.wf(),
            *final(self) == *final(ret),
    ;

    /// Checks that every entry of `data` differs from `expected`.
    /// Each entry is one check, evaluated in order and counted like those of
    /// [`Testing::ok`]: its outcome is what `!=` gave for it, which is pinned where
    /// `T` keeps to its declared equality.
    fn ne<T: PartialEq>(&mut self, description: &str, data: Vec<T>, expected: T) -> (ret:
        &mut Self)
        requires
            old(self)@.wf(),
        ensures
            exists|tests: Seq<bool>|
                all_said_other(data@, expected, tests) && ret@ == #[trigger] old(self)@.checks(
                    description@,
                    tests,
                ),
            equatable::<T>() ==> ret@ == old(self)@.checks(description@, each_other(data@, expected)),
            ret@.wf(),
            *final(self) == *final(ret),
    ;

    /// Checks that every entry of `data` is greater than `expected`.
    /// Each entry is one check, evaluated in order and counted like those of
    /// [`Testing::ok`]: its outcome is what `>` gave for it, which is pinned where
    /// `T` keeps to its declared order.
    fn gt<T: PartialOrd>(&mut self, description: &str, data: Vec<T>, expected: T) -> (ret:
        &mut Self)
        requires
            old(self)@.wf(),
        ensures
            exists|tests: Seq<bool>|
                all_said_above(data@, expected, tests) && ret@ == #[trigger] old(self)@.checks(
                    description@,
                    tests,
                ),
            ordered::<T>() ==> ret@ == old(self)@.checks(description@, each_above(data@, expected)),
            ret@.wf(),
            *final(self) == *final(ret),
    ;

    /// Checks that every entry of `data` is less than `expected`.
    /// Each entry is one check, evaluated in order and counted like those of
    /// [`Testing::ok`]: its outcome is what `<` gave for it, which is pinned where
    /// `T` keeps to its declared order.
    fn lt<T: PartialOrd>(&mut self, description: &str, data: Vec<T>, expected: T) -> (ret:
        &mut Self)
        requires
            old(self)@.wf(),
        ensures
            exists|tests: Seq<bool>|
                all_said_below(data@, expected, tests) && ret@ == #[trigger] old(self)@.checks(
                    description@,
                    tests,
                ),
            ordered::<T>() ==> ret@ == old(self)@.checks(description@, each_below(data@, expected)),
            ret@.wf(),
            *final(self) == *final(ret),
    ;

    /// Checks that every entry of `data` is greater than `expected` or equal to it.
    /// Each entry is one check, evaluated in order and counted like those of
    /// [`Testing::ok`]: its outcome is what `>=` gave for it, which is pinned where
    /// `T` keeps to its declared order.
    fn ge<T: PartialOrd>(&mut self, description: &str, data: Vec<T>, expected: T) -> (ret:
        &mut Self)
        requires
            old(self)@.wf(),
        ensures
            exists|tests: Seq<bool>|
                all_said_at_least(data@, expected, tests) && ret@ == #[trigger] old(self)@.checks(
                    description@,
                    tests,
                ),
            ordered::<T>() ==> ret@ == old(self)@.checks(description@, each_at_least(data@, expected)),
            ret@.wf(),
            *final(self) == *final(ret),
    ;

    /// Checks that every entry of `data` is less than `expected` or equal to it.
    /// Each entry is one check, evaluated in order and counted like those of
    /// [`Testing::ok`]: its outcome is what `<=` gave for it, which is pinned where
    /// `T` keeps to its declared order.
    fn le<T: PartialOrd>(&mut self, description: &str, data: Vec<T>, expected: T) -> (ret:
        &mut Self)
        requires
            old(self)@.wf(),
        ensures
            exists|tests: Seq<bool>|
                all_said_at_most(data@, expected, tests) && ret@ == #[trigger] old(self)@.checks(
                    description@,
                    tests,
                ),
            ordered::<T>() ==> ret@ == old(self)@.checks(description@, each_at_most(data@, expected)),
            ret@.wf(),
            *final(self) == *final(ret),
    ;

    /// Checks that `value` equals `expected`: one check, as [`Testing::eq`] makes it.
    fn is<T: PartialEq>(&mut self, description: &str, value: T, expected: T) -> (ret:
        &mut Self)
        requires
            old(self)@.wf(),
        ensures
            exists|test: bool|
                said_same(&value, &expected, test) && ret@ == #[trigger] old(self)@.check(
                    description@,
                    test,
                ),
            equatable::<T>() ==> ret@ == old(self)@.check(description@, same(&value, &expected)),
            ret@.wf(),
            *final(self) == *final(ret),
    ;

    /// Checks that `value` differs from `expected`: one check, as [`Testing::ne`] makes it.
    fn not<T: PartialEq>(&mut self, description: &str, value: T, expected: T) -> (ret:
        &mut Self)
        requires
            old(self)@.wf(),
        ensures
            exists|test: bool|
                said_other(&value, &expected, test) && ret@ == #[trigger] old(self)@.check(
                    description@,
                    test,
                ),
            equatable::<T>() ==> ret@ == old(self)@.check(description@, !same(&value, &expected)),
            ret@.wf(),
            *final(self) == *final(ret),
    ;

    /// Checks values taken from collections, their lengths for one, against an
    /// expected count: what [`Testing::eq`] does.
    fn len<T: PartialEq>(&mut self, description: &str, data: Vec<T>, expected: T) -> (ret:
        &mut Self)
        requires
            old(self)@.wf(),
        ensures
            exists|tests: Seq<bool>|
                all_said_same(data@, expected, tests) && ret@ == #[trigger] old(self)@.checks(
                    description@,
                    tests,
                ),
            equatable::<T>() ==> ret@ == old(self)@.checks(description@, each_same(data@, expected)),
            ret@.wf(),
            *final(self) == *final(ret),
    ;

    /// Checks that `data` has no character.
    fn empty(&mut self, description: &str, data: String) -> (ret: &mut Self)
        requires
            old(self)@.wf(),
        ensures
            ret@ == old(self)@.check(description@, data@.len() == 0),
            ret@.wf(),
            *final(self) == *final(ret),
    ;

    /// Checks that `current` lies between `min` and `max`, both ends excluded: a value
    /// equal to `min` or to `max` fails. `current < max` is asked only where
    /// `current > min` holds.
    fn between<T: PartialOrd>(&mut self, description: &str, min: T, max: T, current: T) -> (ret:
        &mut Self)
        requires
            old(self)@.wf(),
        ensures
            exists|test: bool|
                said_between(&min, &max, &current, test) && ret@ == #[trigger] old(self)@.check(
                    description@,
                    test,
                ),
            ordered::<T>() ==> ret@ == old(self)@.check(
                description@,
                strictly_between(&min, &max, &current),
            ),
            ret@.wf(),
            *final(self) == *final(ret),
    ;

    /// Checks that a resource is fully used: `current` on top of `min` fills `max` once.
    /// With `max == 0` there is nothing to divide by: no check is made and the session
    /// stays as it is.
    fn full(&mut self, description: &str, min: usize, max: usize, current: usize) -> (ret:
        &mut Self)
        requires
            old(self)@.wf(),
        ensures
            max == 0 ==> ret@ == old(self)@,
            max != 0 ==> ret@ == old(self)@.check(
                description@,
                saturated(min as nat, max as nat, current as nat),
            ),
            ret@.wf(),
            *final(self) == *final(ret),
    ;

    /// Runs `f` and checks that it fails: an error is a passed check, recorded with the
    /// error as `Debug` shows it; a success is a failed check. An operation that can
    /// only fail never adds to the failed checks.
    fn throws<E: Debug, F: FnOnce() -> Result<(), E>>(
        &mut self,
        description: &str,
        f: F,
    ) -> (ret: &mut Self)
        requires
            old(self)@.wf(),
            call_requires(f, ()),
        ensures
            exists|error: Option<Seq<char>>|
                can_end(f, error is Some) && ret@ == #[trigger] old(self)@.thrown(
                    description@,
                    error,
                ),
            (forall|outcome: Result<(), E>| call_ensures(f, (), outcome) ==> outcome is Err)
                ==> ret@.failures == old(self)@.failures && ret@.asserts == old(self)@.asserts
                + 1,
            (forall|outcome: Result<(), E>| call_ensures(f, (), outcome) ==> outcome is Ok)
                ==> ret@ == old(self)@.thrown(description@, None),
            ret@.wf(),
            *final(self) == *final(ret),
    ;

    /// Runs `f` with the clock running and records, as [`Unit::clocked`] does, the
    /// check on what it returned and the time it took.
    fn timed<F: FnOnce() -> bool>(&mut self, description: &str, f: F) -> (ret: &mut Self)
        requires
            old(self)@.wf(),
            call_requires(f, ()),
        ensures
            exists|test: bool, millis: u128|
                call_ensures(f, (), test) && ret@ == #[trigger] old(self)@.timed(
                    description@,
                    test,
                    millis as nat,
                ),
            ret@.wf(),
            *final(self) == *final(ret),
    ;

    /// Opens a group: records its title, then runs `it` on the session. What `it`
    /// records comes after the title and before anything recorded once it has returned.
    fn group<F: FnOnce(&mut Self) -> &mut Self>(&mut self, description: &str, it: F) -> (ret:
        &mut Self)
        requires
            old(self)@.wf(),
            forall|unit: &mut Self|
                unit@.wf() && unit@ == old(self)@.title(description@, SUCCESS@)
                    ==> #[trigger] call_requires(it, (unit,)),
        ensures
            exists|unit: &mut Self|
                {
                    &&& unit@.wf()
                    &&& unit@ == old(self)@.title(description@, SUCCESS@)
                    &&& #[trigger] call_ensures(it, (unit,), ret)
                    &&& *final(unit) == *final(self)
                },
    ;

    /// Opens a group inside a group: as [`Testing::group`], with the token `sub` on the
    /// title.
    fn subgroup<F: FnOnce(&mut Self) -> &mut Self>(
        &mut self,
        description: &str,
        it: F,
    ) -> (ret: &mut Self)
        requires
            old(self)@.wf(),
            forall|unit: &mut Self|
                unit@.wf() && unit@ == old(self)@.title(description@, "sub"@)
                    ==> #[trigger] call_requires(it, (unit,)),
        ensures
            exists|unit: &mut Self|
                {
                    &&& unit@.wf()
                    &&& unit@ == old(self)@.title(description@, "sub"@)
                    &&& #[trigger] call_ensures(it, (unit,), ret)
                    &&& *final(unit) == *final(self)
                },
    ;

    /// Records an entry as skipped: `skipped` grows by one, the passed and failed
    /// checks stay as they are.
    fn skip(&mut self, description: &str) -> (ret: &mut Self)
        requires
            old(self)@.wf(),
        ensures
            ret@ == old(self)@.skip(description@),
            ret@.wf(),
            *final(self) == *final(ret),
    ;

    /// The moment the session began.
    fn take(&mut self) -> (started: Instant)
        ensures
            started == old(self)@.started,
            *final(self) == *old(self),
    ;

    /// The number of checks that passed.
    fn get_assertions(&mut self) -> (n: usize)
        ensures
            n == old(self)@.asserts,
            *final(self) == *old(self),
    ;

    /// The number of checks that failed.
    fn get_failures(&mut self) -> (n: usize)
        ensures
            n == old(self)@.failures,
            *final(self) == *old(self),
    ;

    /// The number of entries that were skipped.
    fn get_skipped(&mut self) -> (n: usize)
        ensures
            n == old(self)@.skipped,
            *final(self) == *old(self),
    ;

    /// Sets the milliseconds to wait before each check line that follows.
    fn set_sleep_time(&mut self, time: u64) -> (ret: &mut Self)
        ensures
            ret@ == (Session { pace: time, ..old(self)@ }),
            *final(self) == *final(ret),
    ;

    /// Asks `c` for a value `iteration` times and checks each against `expected`. A
    /// value that differs is fatal to the run, so `c` must be unable to give one. Such
    /// a check is a condition of the run and no outcome of it: each round records a
    /// success line, and no counter changes.
    fn always<T: PartialEq, F: Fn() -> T>(
        &mut self,
        description: &str,
        iteration: usize,
        expected: T,
        c: F,
    ) -> (ret: &mut Self)
        requires
            old(self)@.wf(),
            call_requires(c, ()),
            forall|value: T|
                #[trigger] call_ensures(c, (), value) ==> !said_same(&value, &expected, false),
        ensures
            ret@ == old(self)@.confirmed(description@, iteration as nat),
            ret@.asserts == old(self)@.asserts,
            ret@.failures == old(self)@.failures,
            ret@.skipped == old(self)@.skipped,
            ret@.wf(),
            *final(self) == *final(ret),
    ;

    /// Asks `c` for a value `iteration` times and checks each time that it is among
    /// `expected`. A value that is not is fatal to the run, so the search must be
    /// unable to miss what `c` gives. Each round records a success line, and no
    /// counter changes.
    fn confirm_contains_in<T: PartialEq, F: Fn() -> T>(
        &mut self,
        description: &str,
        iteration: usize,
        expected: Vec<T>,
        c: F,
    ) -> (ret: &mut Self)
        requires
            old(self)@.wf(),
            call_requires(c, ()),
            forall|value: T| #[trigger] call_ensures(c, (), value) ==> !can_miss(expected@, value),
        ensures
            ret@ == old(self)@.confirmed(description@, iteration as nat),
            ret@.asserts == old(self)@.asserts,
            ret@.failures == old(self)@.failures,
            ret@.skipped == old(self)@.skipped,
            ret@.wf(),
            *final(self) == *final(ret),
    ;

    /// Asks `c` for a value `iteration` times and checks each time that it is not among
    /// `expected`. A value that is there is fatal to the run, so the search must be
    /// unable to find what `c` gives. Each round records a success line, and no
    /// counter changes.
    fn confirm_not_contains_in<T: PartialEq, F: Fn() -> T>(
        &mut self,
        description: &str,
        iteration: usize,
        expected: Vec<T>,
        c: F,
    ) -> (ret: &mut Self)
        requires
            old(self)@.wf(),
            call_requires(c, ()),
            forall|value: T| #[trigger] call_ensures(c, (), value) ==> !can_find(expected@, value),
        ensures
            ret@ == old(self)@.confirmed(description@, iteration as nat),
            ret@.asserts == old(self)@.asserts,
            ret@.failures == old(self)@.failures,
            ret@.skipped == old(self)@.skipped,
            ret@.wf(),
            *final(self) == *final(ret),
    ;

    /// Closes the run: reads the clock for the title and again for the report, and
    /// does what [`Unit::conclude`] does for the two readings.
    fn run(&mut self) -> (status: Status)
        requires
            old(self)@.wf(),
        ensures
            exists|taken: u128, elapsed: u128|
                final(self)@ == #[trigger] old(self)@.ran(taken as nat, elapsed as nat),
            final(self)@.wf(),
            status == verdict(old(self)@.failures),
            status == Status::Success <==> old(self)@.failures == 0,
    ;
}

} // verus!
