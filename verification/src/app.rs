//! The driver-facing facade: one run bundled with its configured duration and
//! the custom duration it was created with, the selectable-time table, and
//! the per-second progress samples used for post-run charting.

use crate::text::expand_tabs;
use crate::text::filter_text;
use crate::text::keep_latin1;
use crate::typing::acc_of;
use crate::typing::initial_state;
use crate::typing::input_finishes;
use crate::typing::lines_of;
use crate::typing::spec_finish;
use crate::typing::spec_input;
use crate::typing::spec_restart;
use crate::typing::spec_start;
use crate::typing::spec_tick;
use crate::typing::spec_update_remaining;
use crate::typing::tick_finishes;
use crate::typing::typing_state;
use crate::typing::wpm_pinned;
use crate::typing::Typing;
use crate::typing::TypingError;
use crate::typing::TypingModel;
use vstd::prelude::*;

verus! {

/// The views of a sequence of machine-word counters.
pub open spec fn usize_views(v: Seq<usize>) -> Seq<int> {
    v.map_values(|x: usize| x as int)
}

/// The views of a sequence of durations in whole seconds.
pub open spec fn times_view(v: Seq<u64>) -> Seq<int> {
    v.map_values(|x: u64| x as int)
}

/// The selectable durations: the fixed table 15, 30, 60, 120 seconds with the
/// custom duration merged in, sorted and without duplicates.
pub open spec fn selectable_of(custom: int) -> Seq<int> {
    if custom < 15 {
        seq![custom, 15, 30, 60, 120]
    } else if custom == 15 {
        seq![15, 30, 60, 120]
    } else if custom < 30 {
        seq![15, custom, 30, 60, 120]
    } else if custom == 30 {
        seq![15, 30, 60, 120]
    } else if custom < 60 {
        seq![15, 30, custom, 60, 120]
    } else if custom == 60 {
        seq![15, 30, 60, 120]
    } else if custom < 120 {
        seq![15, 30, 60, custom, 120]
    } else if custom == 120 {
        seq![15, 30, 60, 120]
    } else {
        seq![15, 30, 60, 120, custom]
    }
}

/// The duration after stepping forward through the selectable times: along
/// the fixed table, then to the custom time after 120 (unless it is 15), and
/// from a custom time back to 15 when the custom time lies outside the table's
/// span.
pub open spec fn next_time_of(time: int, custom: int) -> int {
    if time == 15 {
        30
    } else if time == 30 {
        60
    } else if time == 60 {
        120
    } else if time == 120 {
        if custom != 15 {
            custom
        } else {
            15
        }
    } else {
        if !(15 <= custom && custom <= 120) {
            15
        } else {
            custom
        }
    }
}

/// The duration after stepping backward through the selectable times: along
/// the fixed table, then to the custom time before 15 (unless it is 120), and
/// from a custom time back to 120 when the custom time lies outside the
/// table's span.
pub open spec fn prev_time_of(time: int, custom: int) -> int {
    if time == 15 {
        if custom != 120 {
            custom
        } else {
            120
        }
    } else if time == 30 {
        15
    } else if time == 60 {
        30
    } else if time == 120 {
        60
    } else {
        if !(15 <= custom && custom <= 120) {
            120
        } else {
            custom
        }
    }
}

/// The largest words-per-minute sample, zero when there is none.
pub open spec fn max_of(s: Seq<int>) -> int
    decreases s.len(),
{
    if s.len() == 0 {
        0
    } else {
        let m = max_of(s.drop_last());
        if s.last() > m {
            s.last()
        } else {
            m
        }
    }
}

/// The mathematical value of a [`TypingProgress`].
pub ghost struct ProgressModel {
    /// Momentary words-per-minute readings, one per elapsed second.
    pub wpm: Seq<int>,
    /// Momentary accuracy readings, one per elapsed second.
    pub acc: Seq<int>,
}

/// Append-only per-second samples of the run's momentary speed and accuracy,
/// used for post-run charting.
#[derive(Clone, Debug)]
pub struct TypingProgress {
    wpm: Vec<usize>,
    acc: Vec<usize>,
}

impl View for TypingProgress {
    type V = ProgressModel;

    closed spec fn view(&self) -> ProgressModel {
        ProgressModel { wpm: usize_views(self.wpm@), acc: usize_views(self.acc@) }
    }
}

impl TypingProgress {
    /// An empty sampler.
    pub fn new() -> (r: TypingProgress)
        ensures
            r@.wpm == Seq::<int>::empty(),
            r@.acc == Seq::<int>::empty(),
    {
        let r = TypingProgress { wpm: Vec::new(), acc: Vec::new() };
        proof {
            assert(r@.wpm =~= Seq::<int>::empty());
            assert(r@.acc =~= Seq::<int>::empty());
        }
        r
    }

    /// Appends one sample of the machine's momentary speed and accuracy.
    pub fn add(self, typing: Typing) -> (r: TypingProgress)
        ensures
            r@.acc == self@.acc.push(acc_of(typing@)),
            exists|w: int| 0 <= w && r@.wpm == self@.wpm.push(w) && wpm_pinned(typing@, w),
    {
        let ghost prev = self@;
        let mut s = self;
        let w = typing.wpm();
        let a = typing.acc();
        s.wpm.push(w);
        s.acc.push(a);
        proof {
            assert(s@.acc =~= prev.acc.push(acc_of(typing@)));
            assert(s@.wpm =~= prev.wpm.push(w as int));
        }
        s
    }

    /// The largest words-per-minute sample observed so far, zero before any
    /// sample.
    pub fn max_wpm(&self) -> (r: usize)
        ensures
            r as int == max_of(self@.wpm),
    {
        let mut m: usize = 0;
        let mut i: usize = 0;
        proof {
            assert(self@.wpm.take(0) =~= Seq::<int>::empty());
        }
        while i < self.wpm.len()
            invariant
                i <= self.wpm@.len(),
                self@.wpm.len() == self.wpm@.len(),
                m as int == max_of(self@.wpm.take(i as int)),
            decreases self.wpm@.len() - i,
        {
            let x = self.wpm[i];
            if x > m {
                m = x;
            }
            proof {
                assert(self@.wpm.take(i + 1 as int).drop_last() =~= self@.wpm.take(i as int));
                assert(self@.wpm.take(i + 1 as int).last() == self@.wpm[i as int]);
            }
            i += 1;
        }
        proof {
            assert(self@.wpm.take(self@.wpm.len() as int) =~= self@.wpm);
        }
        m
    }

    /// The words-per-minute series as plot-ready points, the synthetic origin
    /// `(0, 0)` prepended so charts start from a defined baseline.
    pub fn wpm_plot(&self) -> (r: Vec<(usize, usize)>)
        ensures
            r@.len() == self@.wpm.len() + 1,
            r@[0] == (0usize, 0usize),
            forall|i: int|
                1 <= i < r@.len() ==> (#[trigger] r@[i]).0 == i - 1 && r@[i].1 == self@.wpm[i - 1],
    {
        let mut out: Vec<(usize, usize)> = Vec::new();
        out.push((0, 0));
        let mut i: usize = 0;
        while i < self.wpm.len()
            invariant
                i <= self.wpm@.len(),
                self@.wpm.len() == self.wpm@.len(),
                out@.len() == i + 1,
                out@[0] == (0usize, 0usize),
                forall|j: int|
                    1 <= j < out@.len() ==> (#[trigger] out@[j]).0 == j - 1 && out@[j].1
                        == self@.wpm[j - 1],
            decreases self.wpm@.len() - i,
        {
            out.push((i, self.wpm[i]));
            i += 1;
        }
        out
    }

    /// The accuracy series as plot-ready points, the synthetic origin
    /// `(0, 100)` prepended so charts start from a defined baseline.
    pub fn acc_plot(&self) -> (r: Vec<(usize, usize)>)
        ensures
            r@.len() == self@.acc.len() + 1,
            r@[0] == (0usize, 100usize),
            forall|i: int|
                1 <= i < r@.len() ==> (#[trigger] r@[i]).0 == i - 1 && r@[i].1 == self@.acc[i - 1],
    {
        let mut out: Vec<(usize, usize)> = Vec::new();
        out.push((0, 100));
        let mut i: usize = 0;
        while i < self.acc.len()
            invariant
                i <= self.acc@.len(),
                self@.acc.len() == self.acc@.len(),
                out@.len() == i + 1,
                out@[0] == (0usize, 100usize),
                forall|j: int|
                    1 <= j < out@.len() ==> (#[trigger] out@[j]).0 == j - 1 && out@[j].1
                        == self@.acc[j - 1],
            decreases self.acc@.len() - i,
        {
            out.push((i, self.acc[i]));
            i += 1;
        }
        out
    }
}

/// The mathematical value of an [`App`].
pub ghost struct AppModel {
    /// The configured run duration, in whole seconds.
    pub time: int,
    /// The wrapped typing state machine.
    pub typing: TypingModel,
    /// The per-second progress samples.
    pub progress: ProgressModel,
    /// The custom duration the app was created with.
    pub custom_time: int,
}

/// One run bundled with its configured duration, the custom duration, and the
/// progress samples; the surrounding driver delivers events into it.
#[derive(Clone, Debug)]
pub struct App {
    /// The configured run duration, in whole seconds.
    pub time: u64,
    /// The typing state machine.
    pub typing: Typing,
    progress: TypingProgress,
    custom_time: u64,
}

impl View for App {
    type V = AppModel;

    closed spec fn view(&self) -> AppModel {
        AppModel {
            time: self.time as int,
            typing: self.typing@,
            progress: self.progress@,
            custom_time: self.custom_time as int,
        }
    }
}

impl App {
    /// Builds an app from raw text: the text is normalized (restricted to the
    /// single-byte charset, tabs expanded) and handed to a fresh machine.
    /// Fails exactly when the normalized text is empty.
    pub fn new(text: &str, remaining_time: u64, display_lines: usize) -> (r: Result<
        App,
        TypingError,
    >)
        ensures
            expand_tabs(keep_latin1(text@)).len() == 0 <==> r is Err,
            r matches Ok(a) ==> a@.time == remaining_time && a@.custom_time == remaining_time,
            r matches Ok(a) ==> a@.typing == TypingModel::BeforeStart(
                initial_state(
                    expand_tabs(keep_latin1(text@)),
                    remaining_time as int,
                    display_lines as int,
                ),
            ),
            r matches Ok(a) ==> a@.progress.wpm == Seq::<int>::empty() && a@.progress.acc
                == Seq::<int>::empty(),
    {
        let filtered = filter_text(text);
        match Typing::new(filtered.as_str(), remaining_time, display_lines) {
            Ok(typing) => Ok(
                App {
                    typing,
                    time: remaining_time,
                    custom_time: remaining_time,
                    progress: TypingProgress::new(),
                },
            ),
            Err(e) => Err(e),
        }
    }

    /// The progress samples recorded so far.
    pub fn progress(&self) -> (r: &TypingProgress)
        ensures
            r@ == self@.progress,
    {
        &self.progress
    }

    /// Starts the run: from before start the countdown is seeded with the
    /// configured duration and the machine begins running; in any other phase
    /// nothing changes.
    pub fn start(self) -> (r: App)
        ensures
            !(self@.typing is BeforeStart) ==> r@ == self@,
            r@.time == self@.time && r@.custom_time == self@.custom_time && r@.progress
                == self@.progress,
            self@.typing is BeforeStart ==> exists|now: int|
                0 <= now && r@.typing == spec_start(
                    spec_update_remaining(self@.typing, self@.time),
                    now,
                ),
    {
        match &self.typing {
            Typing::BeforeStart(_) => {
                let seeded = self.typing.update_remaining_time(self.time);
                let typing = seeded.start();
                App {
                    typing,
                    time: self.time,
                    custom_time: self.custom_time,
                    progress: self.progress,
                }
            },
            _ => self,
        }
    }

    /// Restarts a finished run with new text, normalized the same way as at
    /// construction; in any other phase the machine is unchanged.
    pub fn restart(self, text: &str) -> (r: App)
        ensures
            r@.typing == spec_restart(
                self@.typing,
                lines_of(expand_tabs(keep_latin1(text@))),
                self@.time,
            ),
            r@.time == self@.time && r@.custom_time == self@.custom_time && r@.progress
                == self@.progress,
    {
        let filtered = filter_text(text);
        let typing = self.typing.restart(filtered.as_str(), self.time);
        App { typing, time: self.time, custom_time: self.custom_time, progress: self.progress }
    }

    /// Finishes the run explicitly; outside the running phase nothing
    /// changes.
    pub fn finish(self) -> (r: App)
        ensures
            !(self@.typing is Running) ==> r@ == self@,
            r@.time == self@.time && r@.custom_time == self@.custom_time && r@.progress
                == self@.progress,
            exists|now: int| 0 <= now && r@.typing == spec_finish(self@.typing, now),
    {
        let typing = self.typing.finish();
        App { typing, time: self.time, custom_time: self.custom_time, progress: self.progress }
    }

    /// Delivers one keystroke to the machine.
    pub fn input(self, c: char) -> (r: App)
        ensures
            !input_finishes(self@.typing, c) ==> r@.typing == spec_input(self@.typing, c, 0),
            exists|now: int| 0 <= now && r@.typing == spec_input(self@.typing, c, now),
            r@.time == self@.time && r@.custom_time == self@.custom_time && r@.progress
                == self@.progress,
    {
        let typing = self.typing.input(c);
        App { typing, time: self.time, custom_time: self.custom_time, progress: self.progress }
    }

    /// The backspace hook: the machine exposes no transition that removes a
    /// typed character, so the run is left unchanged.
    pub fn backspace(self) -> (r: App)
        ensures
            r@ == self@,
    {
        self
    }

    /// One countdown tick: the machine ticks and one progress sample of the
    /// new reading is recorded.
    pub fn tick(self) -> (r: App)
        ensures
            r@.time == self@.time && r@.custom_time == self@.custom_time,
            !tick_finishes(self@.typing) ==> r@.typing == spec_tick(self@.typing, 0),
            exists|now: int| 0 <= now && r@.typing == spec_tick(self@.typing, now),
            r@.progress.acc == self@.progress.acc.push(acc_of(r@.typing)),
            exists|w: int|
                0 <= w && r@.progress.wpm == self@.progress.wpm.push(w) && wpm_pinned(
                    r@.typing,
                    w,
                ),
    {
        let typing = self.typing.tick();
        let progress = self.progress.add(typing.duplicate());
        App { typing, time: self.time, custom_time: self.custom_time, progress }
    }

    /// The selectable durations, sorted and without duplicates: the fixed
    /// table with the custom duration merged in.
    pub fn selectable_time(&self) -> (r: Vec<u64>)
        ensures
            times_view(r@) == selectable_of(self@.custom_time),
    {
        let c = self.custom_time;
        let mut v: Vec<u64> = Vec::new();
        if c < 15 {
            v.push(c);
        }
        v.push(15);
        if 15 < c && c < 30 {
            v.push(c);
        }
        v.push(30);
        if 30 < c && c < 60 {
            v.push(c);
        }
        v.push(60);
        if 60 < c && c < 120 {
            v.push(c);
        }
        v.push(120);
        if 120 < c {
            v.push(c);
        }
        proof {
            assert(times_view(v@) =~= selectable_of(self@.custom_time));
        }
        v
    }

    /// Steps the configured duration forward through the selectable times.
    pub fn next_time(self) -> (r: App)
        ensures
            r@.time == next_time_of(self@.time, self@.custom_time),
            r@.typing == self@.typing && r@.custom_time == self@.custom_time && r@.progress
                == self@.progress,
    {
        let custom_time = self.custom_time;
        let time: u64 = match self.time {
            15 => 30,
            30 => 60,
            60 => 120,
            120 => {
                if custom_time != 15 {
                    custom_time
                } else {
                    15
                }
            },
            _ => {
                if !(15 <= custom_time && custom_time <= 120) {
                    15
                } else {
                    custom_time
                }
            },
        };
        App { typing: self.typing, time, custom_time: self.custom_time, progress: self.progress }
    }

    /// Steps the configured duration backward through the selectable times.
    pub fn prev_time(self) -> (r: App)
        ensures
            r@.time == prev_time_of(self@.time, self@.custom_time),
            r@.typing == self@.typing && r@.custom_time == self@.custom_time && r@.progress
                == self@.progress,
    {
        let custom_time = self.custom_time;
        let time: u64 = match self.time {
            15 => {
                if custom_time != 120 {
                    custom_time
                } else {
                    120
                }
            },
            30 => 15,
            60 => 30,
            120 => 60,
            _ => {
                if !(15 <= custom_time && custom_time <= 120) {
                    120
                } else {
                    custom_time
                }
            },
        };
        App { typing: self.typing, time, custom_time: self.custom_time, progress: self.progress }
    }

    /// How much of the configured duration has elapsed: the configured
    /// duration minus what remains on the countdown.
    pub fn elapsed_time(&self) -> (r: u64)
        requires
            typing_state(self@.typing).remaining_time <= self@.time,
        ensures
            r as int == self@.time - typing_state(self@.typing).remaining_time,
    {
        self.time - self.typing.get_remaining_time()
    }
}

} // verus!
