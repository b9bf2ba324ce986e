//! The run state machine: an ordered sequence of cursor lines, the index of
//! the line being typed, correct/incorrect keystroke counters, a countdown,
//! and start/end timestamps, wrapped in a closed set of phases
//! (before start, running, finished) with pure transitions between them.

use crate::line::line_accepts;
use crate::line::line_entered;
use crate::line::line_next;
use crate::line::line_of;
use crate::line::Line;
use crate::line::LineModel;
use crate::text::split_lines;
use crate::text::split_text;
use crate::text::string_views;
use vstd::prelude::*;

verus! {

/// The views of a sequence of cursor lines.
pub open spec fn line_views(v: Seq<Line>) -> Seq<LineModel> {
    v.map_values(|l: Line| l@)
}

/// The mathematical value of a run's [`State`].
pub ghost struct StateModel {
    /// Index into `lines` of the line being typed.
    pub current_index: int,
    /// Configured number of lines visible in the viewport.
    pub display_lines: int,
    /// Timestamp of the transition into the finished phase, in whole seconds.
    pub end_time: Option<int>,
    /// Whether the most recent keystroke was a mismatch.
    pub is_error: bool,
    /// One cursor line per newline-delimited segment, in document order.
    pub lines: Seq<LineModel>,
    /// Remaining countdown, in whole time units.
    pub remaining_time: int,
    /// Timestamp of the transition into the running phase, in whole seconds.
    pub start_time: Option<int>,
    /// Correctly matched keystrokes across the run.
    pub typed: int,
    /// Mismatched keystrokes across the run.
    pub typo: int,
}

/// The mathematical value of a [`Typing`] state machine.
pub ghost enum TypingModel {
    BeforeStart(StateModel),
    Running(StateModel),
    Finish(StateModel),
}

/// The run state a phase wraps.
pub open spec fn typing_state(t: TypingModel) -> StateModel {
    match t {
        TypingModel::BeforeStart(s) => s,
        TypingModel::Running(s) => s,
        TypingModel::Finish(s) => s,
    }
}

/// Well-formedness of a run state: there is at least one line, the current
/// index points at one of them, and the counters fit the machine word.
pub open spec fn state_wf(s: StateModel) -> bool {
    &&& 0 <= s.current_index < s.lines.len()
    &&& 0 <= s.display_lines <= usize::MAX
    &&& 0 <= s.remaining_time <= u64::MAX
    &&& 0 <= s.typed <= usize::MAX
    &&& 0 <= s.typo <= usize::MAX
}

/// Well-formedness of the whole machine: the wrapped state is well-formed.
pub open spec fn typing_wf(t: TypingModel) -> bool {
    state_wf(typing_state(t))
}

/// One more keystroke, saturating at the machine word so that counters never
/// wrap and never decrease.
pub open spec fn sat_inc(x: int) -> int {
    if x < usize::MAX {
        x + 1
    } else {
        x
    }
}

/// The cursor lines built from a raw text: one per newline-delimited segment,
/// numbered from one.
pub open spec fn lines_of(text: Seq<char>) -> Seq<LineModel> {
    Seq::new(split_lines(text).len(), |i: int| line_of(i + 1, split_lines(text)[i]))
}

/// The state a fresh run starts from.
pub open spec fn initial_state(text: Seq<char>, remaining: int, display: int) -> StateModel {
    StateModel {
        current_index: 0,
        display_lines: display,
        end_time: None,
        is_error: false,
        lines: lines_of(text),
        remaining_time: remaining,
        start_time: None,
        typed: 0,
        typo: 0,
    }
}

/// Whether advancing the line by one accepted keystroke exhausts it.
pub open spec fn completes_line(l: LineModel) -> bool {
    line_entered(line_next(l))
}

/// The state after an accepted keystroke: the current line advances, the
/// keystroke is counted exactly when it matched a real character (the line
/// still had a `current` one; an exhausted or blank line accepts anything
/// without counting), and the error flag clears.
pub open spec fn state_correct(s: StateModel) -> StateModel {
    let l = s.lines[s.current_index];
    StateModel {
        lines: s.lines.update(s.current_index, line_next(l)),
        typed: if l.current is Some {
            sat_inc(s.typed)
        } else {
            s.typed
        },
        is_error: false,
        ..s
    }
}

/// The state after a mismatched keystroke: `typo` counts up and the error
/// flag is set; the lines are untouched.
pub open spec fn state_typo(s: StateModel) -> StateModel {
    StateModel { typo: sat_inc(s.typo), is_error: true, ..s }
}

/// The state after moving on to the next line.
pub open spec fn state_advance(s: StateModel) -> StateModel {
    StateModel { current_index: s.current_index + 1, ..s }
}

/// The state stamped with the end of the run.
pub open spec fn state_finished(s: StateModel, now: int) -> StateModel {
    StateModel { end_time: Some(now), ..s }
}

/// The state stamped with the start of the run.
pub open spec fn state_started(s: StateModel, now: int) -> StateModel {
    StateModel { start_time: Some(now), ..s }
}

/// Whether a keystroke `c` finishes the run: it is accepted, completes the
/// current line, and no line follows.
pub open spec fn input_finishes(t: TypingModel, c: char) -> bool {
    &&& t is Running
    &&& line_accepts(typing_state(t).lines[typing_state(t).current_index], c)
    &&& completes_line(typing_state(t).lines[typing_state(t).current_index])
    &&& typing_state(t).current_index + 1 >= typing_state(t).lines.len()
}

/// Whether moving past the current line finishes the run.
pub open spec fn next_finishes(t: TypingModel) -> bool {
    t is Running && typing_state(t).current_index + 1 >= typing_state(t).lines.len()
}

/// Whether a tick finishes the run: at most one whole unit remains.
pub open spec fn tick_finishes(t: TypingModel) -> bool {
    t is Running && typing_state(t).remaining_time <= 1
}

/// The transition for one keystroke `c`; `now` is the timestamp used if the
/// keystroke finishes the run. A mismatch counts a typo and raises the error
/// flag; an accepted keystroke advances the line, counts it when a real
/// character matched, and clears the flag; one that completes the line also
/// moves on to the next line, or finishes the run after the last one. In any
/// phase but running the machine is unchanged.
pub open spec fn spec_input(t: TypingModel, c: char, now: int) -> TypingModel {
    match t {
        TypingModel::Running(s) => {
            let l = s.lines[s.current_index];
            if !line_accepts(l, c) {
                TypingModel::Running(state_typo(s))
            } else if !completes_line(l) {
                TypingModel::Running(state_correct(s))
            } else if s.current_index + 1 < s.lines.len() {
                TypingModel::Running(state_advance(state_correct(s)))
            } else {
                TypingModel::Finish(state_finished(state_correct(s), now))
            }
        },
        _ => t,
    }
}

/// The transition for moving past a completed line.
pub open spec fn spec_next(t: TypingModel, now: int) -> TypingModel {
    match t {
        TypingModel::Running(s) => {
            if s.current_index + 1 < s.lines.len() {
                TypingModel::Running(state_advance(s))
            } else {
                TypingModel::Finish(state_finished(s, now))
            }
        },
        _ => t,
    }
}

/// The transition for one countdown tick: the remaining time drops by
/// exactly one unit per tick, flooring at zero, and the run finishes once at
/// most one unit remains.
pub open spec fn spec_tick(t: TypingModel, now: int) -> TypingModel {
    match t {
        TypingModel::Running(s) => {
            if s.remaining_time <= 1 {
                TypingModel::Finish(state_finished(StateModel { remaining_time: 0, ..s }, now))
            } else {
                TypingModel::Running(StateModel { remaining_time: s.remaining_time - 1, ..s })
            }
        },
        _ => t,
    }
}

/// The transition for an explicit finish.
pub open spec fn spec_finish(t: TypingModel, now: int) -> TypingModel {
    match t {
        TypingModel::Running(s) => TypingModel::Finish(state_finished(s, now)),
        _ => t,
    }
}

/// The transition for starting the run.
pub open spec fn spec_start(t: TypingModel, now: int) -> TypingModel {
    match t {
        TypingModel::BeforeStart(s) => TypingModel::Running(state_started(s, now)),
        _ => t,
    }
}

/// The transition for restarting with new text: only a finished run restarts;
/// counters, timestamps, the transient error flag and the line sequence are
/// reset, while the viewport size carries over.
pub open spec fn spec_restart(t: TypingModel, lines: Seq<LineModel>, remaining: int) -> TypingModel {
    match t {
        TypingModel::Finish(s) => TypingModel::BeforeStart(
            StateModel {
                current_index: 0,
                lines,
                start_time: None,
                end_time: None,
                remaining_time: remaining,
                typed: 0,
                typo: 0,
                is_error: false,
                ..s
            },
        ),
        _ => t,
    }
}

/// The transition for replacing the countdown, in any phase.
pub open spec fn spec_update_remaining(t: TypingModel, time: int) -> TypingModel {
    match t {
        TypingModel::BeforeStart(s) => TypingModel::BeforeStart(
            StateModel { remaining_time: time, ..s },
        ),
        TypingModel::Running(s) => TypingModel::Running(StateModel { remaining_time: time, ..s }),
        TypingModel::Finish(s) => TypingModel::Finish(StateModel { remaining_time: time, ..s }),
    }
}

/// Accuracy as a whole percentage: the share of keystrokes that matched,
/// rounded half away from zero; zero before any keystroke.
pub open spec fn spec_acc(typed: int, typo: int) -> int {
    if typed + typo == 0 {
        0
    } else {
        (200 * typed + (typed + typo)) / (2 * (typed + typo))
    }
}

/// Elapsed whole seconds between two timestamps, floored at zero.
pub open spec fn spec_elapsed(start: int, end: int) -> int {
    if end >= start {
        end - start
    } else {
        0
    }
}

/// Words per minute: keystrokes per second over the run, scaled to a minute,
/// five characters counting as one word; the elapsed time is clamped to at
/// least one second.
pub open spec fn spec_wpm(typed: int, typo: int, elapsed: int) -> int {
    let sec = if elapsed > 0 {
        elapsed
    } else {
        1
    };
    (((typed + typo) / sec) * 60) / 5
}

/// A value capped at the machine word.
pub open spec fn cap_usize(x: int) -> int {
    if x > usize::MAX {
        usize::MAX as int
    } else {
        x
    }
}

/// The start of the visible window: one line before the current one, clamped
/// to the start of the document.
pub open spec fn window_start(s: StateModel) -> int {
    if s.current_index > 0 {
        s.current_index - 1
    } else {
        0
    }
}

/// The lines visible in the viewport: the whole document when it fits, else
/// up to `display_lines` entries starting one line before the current one.
pub open spec fn window_of(s: StateModel) -> Seq<LineModel> {
    if s.lines.len() <= s.display_lines {
        s.lines
    } else {
        let start = window_start(s);
        let end = if s.lines.len() < start + s.display_lines {
            s.lines.len() as int
        } else {
            start + s.display_lines
        };
        s.lines.subrange(start, end)
    }
}

/// Why construction of a run can fail.
#[derive(Clone, Copy, Debug, PartialEq, Eq)]
pub enum TypingError {
    /// The supplied source text was empty.
    EmptyText,
}

/// A run's state: the cursor lines with the index of the one being typed,
/// keystroke counters, the error flag, the countdown, the timestamps, and the
/// viewport size. Replaced, never mutated, on each transition.
#[derive(Debug)]
pub struct State {
    current_index: usize,
    display_lines: usize,
    end_time: Option<u64>,
    is_error: bool,
    lines: Vec<Line>,
    remaining_time: u64,
    start_time: Option<u64>,
    typed: usize,
    typo: usize,
}

impl View for State {
    type V = StateModel;

    closed spec fn view(&self) -> StateModel {
        StateModel {
            current_index: self.current_index as int,
            display_lines: self.display_lines as int,
            end_time: match self.end_time {
                Some(t) => Some(t as int),
                None => None,
            },
            is_error: self.is_error,
            lines: line_views(self.lines@),
            remaining_time: self.remaining_time as int,
            start_time: match self.start_time {
                Some(t) => Some(t as int),
                None => None,
            },
            typed: self.typed as int,
            typo: self.typo as int,
        }
    }
}

/// The typing state machine: a closed set of phases, each wrapping a run
/// state. Every transition is a pure function yielding a new value.
#[derive(Clone, Debug)]
pub enum Typing {
    BeforeStart(State),
    Running(State),
    Finish(State),
}

impl View for Typing {
    type V = TypingModel;

    open spec fn view(&self) -> TypingModel {
        match self {
            Typing::BeforeStart(s) => TypingModel::BeforeStart(s@),
            Typing::Running(s) => TypingModel::Running(s@),
            Typing::Finish(s) => TypingModel::Finish(s@),
        }
    }
}

/// Relies on `std::time::SystemTime::now` for a wall-clock timestamp, reduced
/// to whole seconds since the Unix epoch; zero if the clock reads earlier.
#[verifier::external_body]
fn now_seconds() -> u64 {
    match std::time::SystemTime::now().duration_since(std::time::UNIX_EPOCH) {
        Ok(d) => d.as_secs(),
        Err(_) => 0,
    }
}

/// An equal copy of a line vector.
fn copy_lines(v: &Vec<Line>) -> (r: Vec<Line>)
    ensures
        r@ == v@,
{
    let mut out: Vec<Line> = Vec::new();
    let mut i: usize = 0;
    while i < v.len()
        invariant
            i <= v@.len(),
            out@ == v@.take(i as int),
        decreases v@.len() - i,
    {
        out.push(v[i].duplicate());
        proof {
            assert(out@ =~= v@.take(i + 1 as int));
        }
        i += 1;
    }
    proof {
        assert(v@.take(v@.len() as int) =~= v@);
    }
    out
}

impl Clone for State {
    /// An equal copy of the state.
    fn clone(&self) -> (r: Self)
        ensures
            r@ == self@,
    {
        self.duplicate()
    }
}

impl State {
    #[verifier::type_invariant]
    spec fn wf(self) -> bool {
        state_wf(self@)
    }

    /// An equal copy of the state.
    fn duplicate(&self) -> (r: State)
        ensures
            r@ == self@,
    {
        proof {
            use_type_invariant(self);
        }
        State {
            current_index: self.current_index,
            display_lines: self.display_lines,
            end_time: self.end_time,
            is_error: self.is_error,
            lines: copy_lines(&self.lines),
            remaining_time: self.remaining_time,
            start_time: self.start_time,
            typed: self.typed,
            typo: self.typo,
        }
    }

    /// Elapsed whole seconds between start and end of the run; where a
    /// timestamp is missing the current time stands in for it.
    pub fn running_time(&self) -> (r: u64)
        ensures
            elapsed_pinned(self@, r as int),
    {
        let end = match self.end_time {
            Some(t) => t,
            None => now_seconds(),
        };
        let start = match self.start_time {
            Some(t) => t,
            None => now_seconds(),
        };
        let r: u64 = if end >= start {
            end - start
        } else {
            0
        };
        proof {
            assert(r as int == spec_elapsed(start as int, end as int));
            match (self@.start_time, self@.end_time) {
                (Some(st), Some(et)) => {
                    assert(r as int == spec_elapsed(st, et));
                },
                (Some(st), None) => {
                    assert(0 <= end as int && r as int == spec_elapsed(st, end as int));
                },
                (None, Some(et)) => {
                    assert(0 <= start as int && r as int == spec_elapsed(start as int, et));
                },
                (None, None) => {
                    assert(0 <= start as int && 0 <= end as int && r as int == spec_elapsed(
                        start as int,
                        end as int,
                    ));
                },
            }
        }
        r
    }

    /// Words per minute over the run so far, capped at the machine word.
    pub fn wpm(&self) -> (r: usize)
        ensures
            state_wpm_pinned(self@, r as int),
    {
        let e = self.running_time();
        let sec: u64 = if e > 0 {
            e
        } else {
            1
        };
        let total: u128 = self.typed as u128 + self.typo as u128;
        let per_sec: u128 = total / (sec as u128);
        proof {
            assert(per_sec <= total) by (nonlinear_arith)
                requires
                    per_sec == total / (sec as u128),
                    sec >= 1,
                    total >= 0,
            ;
        }
        let w: u128 = (per_sec * 60) / 5;
        let r: usize = if w > usize::MAX as u128 {
            usize::MAX
        } else {
            w as usize
        };
        proof {
            assert(0 <= e as int);
            assert(r as int == cap_usize(spec_wpm(self@.typed, self@.typo, e as int)));
        }
        r
    }

    /// Accuracy as a whole percentage of matched keystrokes; zero before any
    /// keystroke.
    pub fn acc(&self) -> (r: usize)
        ensures
            r as int == spec_acc(self@.typed, self@.typo),
    {
        if self.typed == 0 && self.typo == 0 {
            0
        } else {
            let typed: u128 = self.typed as u128;
            let typo: u128 = self.typo as u128;
            let total: u128 = typed + typo;
            let v: u128 = (200 * typed + total) / (2 * total);
            proof {
                assert(v <= 100) by (nonlinear_arith)
                    requires
                        v == (200 * typed + total) / (2 * total),
                        1 <= total,
                        typed <= total,
                ;
            }
            v as usize
        }
    }

    /// The line currently being typed.
    pub fn current(&self) -> (r: Line)
        ensures
            r@ == self@.lines[self@.current_index],
    {
        proof {
            use_type_invariant(self);
        }
        self.lines[self.current_index].duplicate()
    }

    /// The lines visible in the viewport: the whole document when it fits,
    /// else up to `display_lines` entries starting one line before the
    /// current one, so the line just completed stays visible.
    pub fn display_lines(&self) -> (r: Vec<Line>)
        ensures
            line_views(r@) == window_of(self@),
    {
        proof {
            use_type_invariant(self);
        }
        if self.lines.len() <= self.display_lines {
            let r = copy_lines(&self.lines);
            proof {
                assert(line_views(r@) =~= window_of(self@));
            }
            r
        } else {
            let start: usize = if self.current_index > 0 {
                self.current_index - 1
            } else {
                0
            };
            let end: usize = if self.lines.len() - start < self.display_lines {
                self.lines.len()
            } else {
                start + self.display_lines
            };
            let mut out: Vec<Line> = Vec::new();
            let mut i: usize = start;
            while i < end
                invariant
                    start <= i <= end,
                    end <= self.lines@.len(),
                    out@ == self.lines@.subrange(start as int, i as int),
                decreases end - i,
            {
                out.push(self.lines[i].duplicate());
                proof {
                    assert(out@ =~= self.lines@.subrange(start as int, i + 1 as int));
                }
                i += 1;
            }
            proof {
                assert(line_views(out@) =~= window_of(self@));
            }
            out
        }
    }
}


/// What an elapsed-seconds reading must be: where a timestamp is set it is
/// used exactly; where one is missing the current wall clock stands in, so
/// the reading is the saturating difference for some non-negative stand-in.
pub open spec fn elapsed_pinned(s: StateModel, r: int) -> bool {
    match (s.start_time, s.end_time) {
        (Some(st), Some(et)) => r == spec_elapsed(st, et),
        (Some(st), None) => exists|n: int| 0 <= n && r == spec_elapsed(st, n),
        (None, Some(et)) => exists|n: int| 0 <= n && r == spec_elapsed(n, et),
        (None, None) => exists|n1: int, n2: int|
            0 <= n1 && 0 <= n2 && r == spec_elapsed(n1, n2),
    }
}

/// What a words-per-minute reading of a run state must be: with both
/// timestamps set, exactly the formula over the counters and the elapsed
/// seconds; otherwise the formula over the counters for some non-negative
/// elapsed time -- the clock decides which, never the counters' weight.
pub open spec fn state_wpm_pinned(s: StateModel, r: int) -> bool {
    match (s.start_time, s.end_time) {
        (Some(st), Some(et)) => r == cap_usize(spec_wpm(s.typed, s.typo, spec_elapsed(st, et))),
        _ => exists|e: int| 0 <= e && r == cap_usize(spec_wpm(s.typed, s.typo, e)),
    }
}

/// What the machine's words-per-minute reading must be: zero before the run
/// starts, else pinned by the wrapped state's counters and timestamps.
pub open spec fn wpm_pinned(t: TypingModel, r: int) -> bool {
    match t {
        TypingModel::BeforeStart(_) => r == 0,
        _ => state_wpm_pinned(typing_state(t), r),
    }
}

/// The accuracy reading for a machine: zero before the run starts, else the
/// rounded percentage of matched keystrokes.
pub open spec fn acc_of(t: TypingModel) -> int {
    match t {
        TypingModel::BeforeStart(_) => 0,
        _ => spec_acc(typing_state(t).typed, typing_state(t).typo),
    }
}

/// Whether the machine is in the running phase with the error flag set.
pub open spec fn error_of(t: TypingModel) -> bool {
    match t {
        TypingModel::Running(s) => s.is_error,
        _ => false,
    }
}

/// The cursor lines for a raw text, one `Line` per newline-delimited segment,
/// numbered from one.
fn to_lines(text: &str) -> (r: Vec<Line>)
    ensures
        line_views(r@) == lines_of(text@),
        r@.len() >= 1,
{
    let segs = split_text(text);
    let mut out: Vec<Line> = Vec::new();
    let mut i: usize = 0;
    while i < segs.len()
        invariant
            i <= segs@.len(),
            string_views(segs@) == split_lines(text@),
            out@.len() == i,
            forall|j: int| 0 <= j < i ==> #[trigger] line_views(out@)[j] == lines_of(text@)[j],
        decreases segs@.len() - i,
    {
        let ln = Line::new(i + 1, segs[i].as_str());
        proof {
            assert(segs@[i as int]@ == string_views(segs@)[i as int]);
        }
        let ghost prev_out = out@;
        out.push(ln);
        proof {
            assert forall|j: int| 0 <= j < i + 1 implies #[trigger] line_views(out@)[j]
                == lines_of(text@)[j] by {
                if j < i {
                    assert(out@[j] == prev_out[j]);
                    assert(line_views(prev_out)[j] == lines_of(text@)[j]);
                } else {
                    assert(out@[j] == ln);
                    assert(lines_of(text@)[j] == line_of(j + 1, split_lines(text@)[j]));
                }
            }
        }
        i += 1;
    }
    proof {
        assert(line_views(out@) =~= lines_of(text@));
    }
    out
}

impl Typing {
    /// An equal copy of the machine.
    pub(crate) fn duplicate(&self) -> (r: Typing)
        ensures
            r@ == self@,
    {
        match self {
            Typing::BeforeStart(s) => Typing::BeforeStart(s.duplicate()),
            Typing::Running(s) => Typing::Running(s.duplicate()),
            Typing::Finish(s) => Typing::Finish(s.duplicate()),
        }
    }

    /// Builds a fresh machine from raw text, before start, cursor on the
    /// first line. Fails exactly when the text is empty.
    pub fn new(text: &str, remaining_time: u64, display_lines: usize) -> (r: Result<
        Typing,
        TypingError,
    >)
        ensures
            text@.len() == 0 <==> r is Err,
            r matches Ok(t) ==> t@ == TypingModel::BeforeStart(
                initial_state(text@, remaining_time as int, display_lines as int),
            ),
    {
        if text.is_empty() {
            Err(TypingError::EmptyText)
        } else {
            let lines = to_lines(text);
            Ok(
                Typing::BeforeStart(
                    State {
                        current_index: 0,
                        display_lines,
                        end_time: None,
                        is_error: false,
                        lines,
                        remaining_time,
                        start_time: None,
                        typed: 0,
                        typo: 0,
                    },
                ),
            )
        }
    }

    /// Restarts a finished run with new text: counters, timestamps, the
    /// transient error flag and the lines are reset and the machine returns
    /// to before start; in any other phase the machine is unchanged.
    pub fn restart(&self, text: &str, remaining_time: u64) -> (r: Typing)
        ensures
            r@ == spec_restart(self@, lines_of(text@), remaining_time as int),
    {
        match self {
            Typing::Finish(s) => {
                proof {
                    use_type_invariant(s);
                }
                let lines = to_lines(text);
                Typing::BeforeStart(
                    State {
                        current_index: 0,
                        display_lines: s.display_lines,
                        end_time: None,
                        is_error: false,
                        lines,
                        remaining_time,
                        start_time: None,
                        typed: 0,
                        typo: 0,
                    },
                )
            },
            Typing::Running(s) => Typing::Running(s.duplicate()),
            Typing::BeforeStart(s) => Typing::BeforeStart(s.duplicate()),
        }
    }

    /// Starts the run: from before start the machine begins running with the
    /// start timestamp set; in any other phase it is unchanged.
    pub fn start(&self) -> (r: Typing)
        ensures
            !(self@ is BeforeStart) ==> r@ == self@,
            exists|now: int| 0 <= now && r@ == spec_start(self@, now),
    {
        match self {
            Typing::BeforeStart(s) => {
                proof {
                    use_type_invariant(s);
                }
                let now = now_seconds();
                let r = Typing::Running(
                    State {
                        current_index: s.current_index,
                        display_lines: s.display_lines,
                        end_time: s.end_time,
                        is_error: s.is_error,
                        lines: copy_lines(&s.lines),
                        remaining_time: s.remaining_time,
                        start_time: Some(now),
                        typed: s.typed,
                        typo: s.typo,
                    },
                );
                proof {
                    assert(r@ == spec_start(self@, now as int));
                }
                r
            },
            _ => {
                let r = self.duplicate();
                proof {
                    assert(r@ == spec_start(self@, 0));
                }
                r
            },
        }
    }

    /// Finishes the run: from running the machine stops with the end
    /// timestamp set; in any other phase it is unchanged.
    pub fn finish(&self) -> (r: Typing)
        ensures
            !(self@ is Running) ==> r@ == self@,
            exists|now: int| 0 <= now && r@ == spec_finish(self@, now),
    {
        match self {
            Typing::Running(s) => {
                proof {
                    use_type_invariant(s);
                }
                let now = now_seconds();
                let r = Typing::Finish(
                    State {
                        current_index: s.current_index,
                        display_lines: s.display_lines,
                        end_time: Some(now),
                        is_error: s.is_error,
                        lines: copy_lines(&s.lines),
                        remaining_time: s.remaining_time,
                        start_time: s.start_time,
                        typed: s.typed,
                        typo: s.typo,
                    },
                );
                proof {
                    assert(r@ == spec_finish(self@, now as int));
                }
                r
            },
            _ => {
                let r = self.duplicate();
                proof {
                    assert(r@ == spec_finish(self@, 0));
                }
                r
            },
        }
    }

    /// One keystroke while running: a mismatch counts a typo and sets the
    /// error flag; an accepted keystroke advances the current line, counts it
    /// when a real character matched, and clears the flag; one that completes
    /// the line also moves on to the next line, or finishes the run after the
    /// last line. In any other phase the machine is unchanged.
    pub fn input(&self, c: char) -> (r: Typing)
        ensures
            !input_finishes(self@, c) ==> r@ == spec_input(self@, c, 0),
            exists|now: int| 0 <= now && r@ == spec_input(self@, c, now),
    {
        match self {
            Typing::Running(t) => {
                let n = t.lines.len();
                proof {
                    use_type_invariant(t);
                }
                let ok = t.lines[t.current_index].input(c);
                if ok {
                    let nxt = t.lines[t.current_index].next();
                    let complete = nxt.is_entered();
                    let typed: usize = match t.lines[t.current_index].current_text() {
                        Some(_) => {
                            if t.typed < usize::MAX {
                                t.typed + 1
                            } else {
                                t.typed
                            }
                        },
                        None => t.typed,
                    };
                    let mut lines = copy_lines(&t.lines);
                    lines[t.current_index] = nxt;
                    proof {
                        assert(line_views(lines@) =~= t@.lines.update(
                            t@.current_index,
                            line_next(t@.lines[t@.current_index]),
                        ));
                    }
                    if !complete {
                        let r = Typing::Running(
                            State {
                                current_index: t.current_index,
                                display_lines: t.display_lines,
                                end_time: t.end_time,
                                is_error: false,
                                lines,
                                remaining_time: t.remaining_time,
                                start_time: t.start_time,
                                typed,
                                typo: t.typo,
                            },
                        );
                        proof {
                            assert(r@ == spec_input(self@, c, 0));
                        }
                        r
                    } else if t.current_index + 1 < n {
                        let r = Typing::Running(
                            State {
                                current_index: t.current_index + 1,
                                display_lines: t.display_lines,
                                end_time: t.end_time,
                                is_error: false,
                                lines,
                                remaining_time: t.remaining_time,
                                start_time: t.start_time,
                                typed,
                                typo: t.typo,
                            },
                        );
                        proof {
                            assert(r@ == spec_input(self@, c, 0));
                        }
                        r
                    } else {
                        let now = now_seconds();
                        let r = Typing::Finish(
                            State {
                                current_index: t.current_index,
                                display_lines: t.display_lines,
                                end_time: Some(now),
                                is_error: false,
                                lines,
                                remaining_time: t.remaining_time,
                                start_time: t.start_time,
                                typed,
                                typo: t.typo,
                            },
                        );
                        proof {
                            assert(r@ == spec_input(self@, c, now as int));
                        }
                        r
                    }
                } else {
                    let typo: usize = if t.typo < usize::MAX {
                        t.typo + 1
                    } else {
                        t.typo
                    };
                    let r = Typing::Running(
                        State {
                            current_index: t.current_index,
                            display_lines: t.display_lines,
                            end_time: t.end_time,
                            is_error: true,
                            lines: copy_lines(&t.lines),
                            remaining_time: t.remaining_time,
                            start_time: t.start_time,
                            typed: t.typed,
                            typo,
                        },
                    );
                    proof {
                        assert(r@ == spec_input(self@, c, 0));
                    }
                    r
                }
            },
            _ => {
                let r = self.duplicate();
                proof {
                    assert(r@ == spec_input(self@, c, 0));
                }
                r
            },
        }
    }

    /// Moves past the current line: to the next line while one follows, else
    /// the run finishes. In any other phase the machine is unchanged.
    pub fn next(&self) -> (r: Typing)
        ensures
            !next_finishes(self@) ==> r@ == spec_next(self@, 0),
            exists|now: int| 0 <= now && r@ == spec_next(self@, now),
    {
        match self {
            Typing::Running(t) => {
                let n = t.lines.len();
                proof {
                    use_type_invariant(t);
                }
                if t.current_index + 1 < n {
                    let r = Typing::Running(
                        State {
                            current_index: t.current_index + 1,
                            display_lines: t.display_lines,
                            end_time: t.end_time,
                            is_error: t.is_error,
                            lines: copy_lines(&t.lines),
                            remaining_time: t.remaining_time,
                            start_time: t.start_time,
                            typed: t.typed,
                            typo: t.typo,
                        },
                    );
                    proof {
                        assert(r@ == spec_next(self@, 0));
                    }
                    r
                } else {
                    let r = self.finish();
                    proof {
                        let n0 = choose|n: int| 0 <= n && r@ == spec_finish(self@, n);
                        assert(0 <= n0 && r@ == spec_next(self@, n0));
                    }
                    r
                }
            },
            _ => {
                let r = self.duplicate();
                proof {
                    assert(r@ == spec_next(self@, 0));
                }
                r
            },
        }
    }

    /// One countdown tick while running: the remaining time drops by exactly
    /// one unit, flooring at zero, and the run finishes once at most one unit
    /// remains. In any other phase the machine is unchanged. The remaining
    /// time never becomes negative and never grows.
    pub fn tick(&self) -> (r: Typing)
        ensures
            !tick_finishes(self@) ==> r@ == spec_tick(self@, 0),
            exists|now: int| 0 <= now && r@ == spec_tick(self@, now),
            typing_state(r@).remaining_time <= typing_state(self@).remaining_time,
    {
        match self {
            Typing::Running(t) => {
                proof {
                    use_type_invariant(t);
                }
                if t.remaining_time <= 1 {
                    let now = now_seconds();
                    let r = Typing::Finish(
                        State {
                            current_index: t.current_index,
                            display_lines: t.display_lines,
                            end_time: Some(now),
                            is_error: t.is_error,
                            lines: copy_lines(&t.lines),
                            remaining_time: 0,
                            start_time: t.start_time,
                            typed: t.typed,
                            typo: t.typo,
                        },
                    );
                    proof {
                        assert(r@ == spec_tick(self@, now as int));
                    }
                    r
                } else {
                    let r = Typing::Running(
                        State {
                            current_index: t.current_index,
                            display_lines: t.display_lines,
                            end_time: t.end_time,
                            is_error: t.is_error,
                            lines: copy_lines(&t.lines),
                            remaining_time: t.remaining_time - 1,
                            start_time: t.start_time,
                            typed: t.typed,
                            typo: t.typo,
                        },
                    );
                    proof {
                        assert(r@ == spec_tick(self@, 0));
                    }
                    r
                }
            },
            _ => {
                let r = self.duplicate();
                proof {
                    assert(r@ == spec_tick(self@, 0));
                }
                r
            },
        }
    }

    /// The lines visible in the viewport, in any phase.
    pub fn display_lines(&self) -> (r: Vec<Line>)
        ensures
            line_views(r@) == window_of(typing_state(self@)),
    {
        match self {
            Typing::Running(t) => t.display_lines(),
            Typing::Finish(t) => t.display_lines(),
            Typing::BeforeStart(t) => t.display_lines(),
        }
    }

    /// Whether the run has finished.
    pub fn is_finish(&self) -> (r: bool)
        ensures
            r == (self@ is Finish),
    {
        matches!(self, Typing::Finish(_))
    }

    /// Whether the run has not started yet.
    pub fn is_before_start(&self) -> (r: bool)
        ensures
            r == (self@ is BeforeStart),
    {
        matches!(self, Typing::BeforeStart(_))
    }

    /// Words per minute; zero before the run starts, and pinned by the
    /// counters and timestamps once the run has finished.
    pub fn wpm(&self) -> (r: usize)
        ensures
            wpm_pinned(self@, r as int),
    {
        match self {
            Typing::Running(s) => s.wpm(),
            Typing::Finish(s) => s.wpm(),
            Typing::BeforeStart(_) => 0,
        }
    }

    /// Accuracy as a whole percentage; zero before the run starts.
    pub fn acc(&self) -> (r: usize)
        ensures
            r as int == acc_of(self@),
    {
        match self {
            Typing::Running(s) => s.acc(),
            Typing::Finish(s) => s.acc(),
            Typing::BeforeStart(_) => 0,
        }
    }

    /// Correct keystrokes so far; zero before the run starts.
    pub fn typed(&self) -> (r: usize)
        ensures
            self@ is BeforeStart ==> r == 0,
            !(self@ is BeforeStart) ==> r as int == typing_state(self@).typed,
    {
        match self {
            Typing::Running(s) => s.typed,
            Typing::Finish(s) => s.typed,
            Typing::BeforeStart(_) => 0,
        }
    }

    /// Mismatched keystrokes so far; zero before the run starts.
    pub fn typo(&self) -> (r: usize)
        ensures
            self@ is BeforeStart ==> r == 0,
            !(self@ is BeforeStart) ==> r as int == typing_state(self@).typo,
    {
        match self {
            Typing::Running(s) => s.typo,
            Typing::Finish(s) => s.typo,
            Typing::BeforeStart(_) => 0,
        }
    }

    /// The remaining countdown, in whole time units, in any phase.
    pub fn get_remaining_time(&self) -> (r: u64)
        ensures
            r as int == typing_state(self@).remaining_time,
    {
        match self {
            Typing::Running(t) => t.remaining_time,
            Typing::Finish(t) => t.remaining_time,
            Typing::BeforeStart(t) => t.remaining_time,
        }
    }

    /// The machine with the countdown replaced, in any phase.
    pub fn update_remaining_time(&self, time: u64) -> (r: Typing)
        ensures
            r@ == spec_update_remaining(self@, time as int),
    {
        match self {
            Typing::Running(t) => {
                proof {
                    use_type_invariant(t);
                }
                let mut s = t.duplicate();
                s.remaining_time = time;
                Typing::Running(s)
            },
            Typing::Finish(t) => {
                proof {
                    use_type_invariant(t);
                }
                let mut s = t.duplicate();
                s.remaining_time = time;
                Typing::Finish(s)
            },
            Typing::BeforeStart(t) => {
                proof {
                    use_type_invariant(t);
                }
                let mut s = t.duplicate();
                s.remaining_time = time;
                Typing::BeforeStart(s)
            },
        }
    }

    /// Whether the most recent keystroke was a mismatch; false outside the
    /// running phase.
    pub fn is_error(&self) -> (r: bool)
        ensures
            r == error_of(self@),
    {
        match self {
            Typing::Running(s) => s.is_error,
            Typing::Finish(_) => false,
            Typing::BeforeStart(_) => false,
        }
    }

    /// The index of the line being typed; zero before the run starts.
    pub fn current_line_index(&self) -> (r: usize)
        ensures
            self@ is BeforeStart ==> r == 0,
            !(self@ is BeforeStart) ==> r as int == typing_state(self@).current_index,
            !(self@ is BeforeStart) ==> (r as int) < typing_state(self@).lines.len(),
    {
        match self {
            Typing::Running(s) => {
                proof {
                    use_type_invariant(s);
                }
                s.current_index
            },
            Typing::Finish(s) => {
                proof {
                    use_type_invariant(s);
                }
                s.current_index
            },
            Typing::BeforeStart(_) => 0,
        }
    }
}


/// Keystrokes of accepted input needed to move past a line from its present
/// state: one per queued character, plus the final line-completing one.
pub open spec fn line_steps(l: LineModel) -> nat {
    match l.rest {
        Some(r) => r.len() + 1,
        None => 1,
    }
}

/// How much `typed` grows while moving past a line from its present state:
/// one for each keystroke that matches a real character -- the current one
/// if present, plus every queued one. A blank or exhausted line accepts a
/// keystroke without counting it.
pub open spec fn line_gain(l: LineModel) -> nat {
    (if l.current is Some {
        1nat
    } else {
        0nat
    }) + (match l.rest {
        Some(r) => r.len(),
        None => 0nat,
    })
}

/// Accepted keystrokes needed to move past all the given lines.
pub open spec fn steps_in(lines: Seq<LineModel>) -> nat
    decreases lines.len(),
{
    if lines.len() == 0 {
        0
    } else {
        line_steps(lines[0]) + steps_in(lines.drop_first())
    }
}

/// Growth of `typed` over all the given lines.
pub open spec fn gain_in(lines: Seq<LineModel>) -> nat
    decreases lines.len(),
{
    if lines.len() == 0 {
        0
    } else {
        line_gain(lines[0]) + gain_in(lines.drop_first())
    }
}

/// Accepted keystrokes needed to finish the run from this state.
pub open spec fn steps_from(s: StateModel) -> nat {
    steps_in(s.lines.skip(s.current_index))
}

/// Growth of `typed` over the whole rest of the run.
pub open spec fn gain_from(s: StateModel) -> nat {
    gain_in(s.lines.skip(s.current_index))
}

/// The keystroke the current line expects; any character is accepted when
/// nothing is left to match, a space standing in for it here.
pub open spec fn expected_char(t: TypingModel) -> char {
    match typing_state(t).lines[typing_state(t).current_index].current {
        Some(c) => c,
        None => ' ',
    }
}

/// The machine after `n` keystrokes of correct input.
pub open spec fn run_correct(t: TypingModel, n: nat) -> TypingModel
    decreases n,
{
    if n == 0 {
        t
    } else {
        run_correct(spec_input(t, expected_char(t), 0), (n - 1) as nat)
    }
}

proof fn lemma_steps_in_nonempty(lines: Seq<LineModel>)
    requires
        lines.len() > 0,
    ensures
        steps_in(lines) >= 1,
        steps_in(lines) == line_steps(lines[0]) + steps_in(lines.drop_first()),
        gain_in(lines) == line_gain(lines[0]) + gain_in(lines.drop_first()),
{
}

/// A run of correct input finishes the document: from any well-formed running
/// state, feeding exactly the expected character at every step reaches the
/// finished phase precisely when the last character of the last line is
/// consumed -- after `steps_from` keystrokes, not one sooner -- and `typed`
/// grows by exactly `gain_from`: one per keystroke that matched a real
/// character, which for a fresh document is its full character count with
/// head space excluded and blank lines passing uncounted.
pub proof fn lemma_correct_run(t: TypingModel)
    requires
        t is Running,
        typing_wf(t),
        typing_state(t).typed + gain_from(typing_state(t)) <= usize::MAX,
    ensures
        run_correct(t, steps_from(typing_state(t))) is Finish,
        typing_state(run_correct(t, steps_from(typing_state(t)))).typed == typing_state(t).typed
            + gain_from(typing_state(t)),
        forall|m: nat| m < steps_from(typing_state(t)) ==> run_correct(t, m) is Running,
    decreases steps_from(typing_state(t)),
{
    let s = typing_state(t);
    let idx = s.current_index;
    let l = s.lines[idx];
    let c = expected_char(t);
    let n = steps_from(s);
    let rest_lines = s.lines.skip(idx);
    let later_lines = s.lines.skip(idx + 1);
    lemma_steps_in_nonempty(rest_lines);
    assert(rest_lines[0] == l);
    assert(rest_lines.drop_first() =~= later_lines);
    assert(line_accepts(l, c));
    let t1 = spec_input(t, c, 0);
    assert(run_correct(t, n) == run_correct(t1, (n - 1) as nat));
    if !completes_line(l) {
        // The line still has queued characters: the cursor advances in place.
        let r = l.rest->Some_0;
        assert(r.len() >= 1);
        let s1 = typing_state(t1);
        assert(s1 == state_correct(s));
        assert(s1.lines.skip(idx) =~= seq![line_next(l)] + later_lines);
        lemma_steps_in_nonempty(s1.lines.skip(idx));
        assert(seq![line_next(l)] + later_lines =~= (s1.lines.skip(idx)));
        assert((seq![line_next(l)] + later_lines).drop_first() =~= later_lines);
        assert(line_steps(line_next(l)) == line_steps(l) - 1);
        assert(steps_from(s1) == n - 1);
        if l.current is Some {
            assert(line_gain(l) >= 1);
            assert(gain_from(s) >= 1);
            assert(s1.typed == s.typed + 1);
            assert(line_gain(line_next(l)) == line_gain(l) - 1);
            assert(gain_from(s1) == gain_from(s) - 1);
        } else {
            assert(s1.typed == s.typed);
            assert(line_gain(line_next(l)) == line_gain(l));
            assert(gain_from(s1) == gain_from(s));
        }
        lemma_correct_run(t1);
        assert forall|m: nat| m < n implies run_correct(t, m) is Running by {
            if m > 0 {
                assert(run_correct(t, m) == run_correct(t1, (m - 1) as nat));
            }
        }
    } else if idx + 1 < s.lines.len() {
        // The keystroke completes the line and another line follows.
        assert(line_steps(l) == 1);
        let s1 = typing_state(t1);
        assert(s1 == state_advance(state_correct(s)));
        assert(s1.lines.skip(s1.current_index) =~= later_lines);
        assert(later_lines.len() > 0);
        lemma_steps_in_nonempty(later_lines);
        assert(steps_from(s1) == n - 1);
        if l.current is Some {
            assert(line_gain(l) == 1);
            assert(gain_from(s) >= 1);
            assert(s1.typed == s.typed + 1);
            assert(gain_from(s1) == gain_from(s) - 1);
        } else {
            assert(line_gain(l) == 0);
            assert(s1.typed == s.typed);
            assert(gain_from(s1) == gain_from(s));
        }
        lemma_correct_run(t1);
        assert forall|m: nat| m < n implies run_correct(t, m) is Running by {
            if m > 0 {
                assert(run_correct(t, m) == run_correct(t1, (m - 1) as nat));
            }
        }
    } else {
        // The keystroke completes the last line: the run finishes now.
        assert(line_steps(l) == 1);
        assert(later_lines.len() == 0);
        assert(steps_in(later_lines) == 0);
        assert(gain_in(later_lines) == 0);
        assert(n == 1);
        assert(t1 == TypingModel::Finish(state_finished(state_correct(s), 0)));
        assert(run_correct(t, 1) == t1);
        if l.current is Some {
            assert(line_gain(l) == 1);
            assert(gain_from(s) == 1);
            assert(typing_state(t1).typed == s.typed + 1);
        } else {
            assert(line_gain(l) == 0);
            assert(gain_from(s) == 0);
            assert(typing_state(t1).typed == s.typed);
        }
        assert forall|m: nat| m < n implies run_correct(t, m) is Running by {
            assert(m == 0);
        }
    }
}


/// The keystroke counters never decrease: a keystroke can only leave them
/// unchanged or count one up, and a tick touches neither.
pub proof fn lemma_counters_monotonic(t: TypingModel, c: char, now: int)
    ensures
        typing_state(spec_input(t, c, now)).typed >= typing_state(t).typed,
        typing_state(spec_input(t, c, now)).typo >= typing_state(t).typo,
        typing_state(spec_tick(t, now)).typed == typing_state(t).typed,
        typing_state(spec_tick(t, now)).typo == typing_state(t).typo,
{
}

/// A tick never leaves a negative countdown, and never a larger one.
pub proof fn lemma_tick_floor(t: TypingModel, now: int)
    requires
        typing_state(t).remaining_time >= 0,
    ensures
        0 <= typing_state(spec_tick(t, now)).remaining_time <= typing_state(t).remaining_time,
{
}


/// A mismatched keystroke counts exactly one typo: while running, an input
/// the current line does not accept leaves the machine running with `typo`
/// one higher (stated below the machine word, where the saturating counter
/// increments exactly), the error flag raised, and everything else -- the
/// lines, the current index, `typed`, the countdown and the timestamps --
/// unchanged.
pub proof fn lemma_typo_step(t: TypingModel, c: char, now: int)
    requires
        t is Running,
        !line_accepts(typing_state(t).lines[typing_state(t).current_index], c),
        typing_state(t).typo < usize::MAX,
    ensures
        spec_input(t, c, now) is Running,
        typing_state(spec_input(t, c, now)) == (StateModel {
            typo: typing_state(t).typo + 1,
            is_error: true,
            ..typing_state(t)
        }),
{
}

/// The machine after `n` countdown ticks.
pub open spec fn run_ticks(t: TypingModel, n: nat) -> TypingModel
    decreases n,
{
    if n == 0 {
        t
    } else {
        run_ticks(spec_tick(t, 0), (n - 1) as nat)
    }
}

/// The countdown drives the run to its end: from a running state with `n`
/// whole time units remaining (`n` at least one), exactly `n` ticks reach the
/// finished phase and no earlier tick does. The remaining time never grows
/// and, being a count of whole units, never drops below zero.
pub proof fn lemma_ticks_finish(t: TypingModel)
    requires
        t is Running,
        typing_state(t).remaining_time >= 1,
    ensures
        run_ticks(t, typing_state(t).remaining_time as nat) is Finish,
        forall|m: nat|
            m < typing_state(t).remaining_time ==> run_ticks(t, m) is Running,
    decreases typing_state(t).remaining_time,
{
    let s = typing_state(t);
    let n = s.remaining_time;
    let t1 = spec_tick(t, 0);
    if n == 1 {
        assert(t1 is Finish);
        assert(run_ticks(t, 1) == run_ticks(t1, 0));
        assert forall|m: nat| m < 1 implies run_ticks(t, m) is Running by {
            assert(m == 0);
        }
    } else {
        assert(t1 is Running);
        assert(typing_state(t1).remaining_time == n - 1);
        lemma_ticks_finish(t1);
        assert(run_ticks(t, n as nat) == run_ticks(t1, (n - 1) as nat));
        assert forall|m: nat| m < n implies run_ticks(t, m) is Running by {
            if m > 0 {
                assert(run_ticks(t, m) == run_ticks(t1, (m - 1) as nat));
            }
        }
    }
}



} // verus!
