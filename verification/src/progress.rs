use core::time::Duration;
use vstd::prelude::*;
use vstd::string::*;

use crate::human::{paint, painted};
use crate::text::{concat, decimal, decimal_text, join, pad_left, padded_left, repeat_char};

verus! {

/// `text` preceded by zeros up to two characters.
pub open spec fn zero_pad2(text: Seq<char>) -> Seq<char> {
    if text.len() >= 2 {
        text
    } else {
        repeat_char('0', (2 - text.len()) as nat) + text
    }
}

/// The progress clock: minutes and seconds, each of at least two digits,
/// and tenths of a second.
pub open spec fn clock_text(seconds: nat, millis: nat) -> Seq<char> {
    zero_pad2(decimal(seconds / 60)) + ":"@ + zero_pad2(decimal(seconds % 60)) + "."@ + decimal(
        millis / 100,
    )
}

fn zero_padded(n: u64) -> (text: String)
    ensures
        text@ == zero_pad2(decimal(n as nat)),
{
    proof {
        reveal_strlit("0");
    }
    let digits = decimal_text(n);
    if digits.unicode_len() >= 2 {
        digits
    } else {
        let mut text = String::from_str("0");
        text.append(digits.as_str());
        assert(text@ =~= zero_pad2(decimal(n as nat)));
        text
    }
}

/// The progress clock of `seconds` and `millis` thousandths of a second.
pub fn clock_of(seconds: u64, millis: u32) -> (text: String)
    ensures
        text@ == clock_text(seconds as nat, millis as nat),
{
    let mut text = zero_padded(seconds / 60);
    text.append(":");
    let rest = zero_padded(seconds % 60);
    text.append(rest.as_str());
    text.append(".");
    crate::text::push_decimal(&mut text, (millis / 100) as u64);
    text
}

/// Whole seconds of a duration.
///
/// Calls `Duration::as_secs`; a duration is opaque here, so nothing is
/// stated of the result.
#[verifier::external_body]
fn whole_seconds(duration: Duration) -> (seconds: u64) {
    duration.as_secs()
}

/// Thousandths of a second past the whole seconds of a duration.
///
/// Calls `Duration::subsec_millis`, which its documentation says is always
/// less than one thousand.
#[verifier::external_body]
fn fraction_millis(duration: Duration) -> (millis: u32)
    ensures
        millis < 1000,
{
    duration.subsec_millis()
}

/// The progress clock of a duration.
pub fn clock(duration: Duration) -> (text: String)
    ensures
        exists|seconds: nat, millis: nat| millis < 1000 && text@ == clock_text(seconds, millis),
{
    let seconds = whole_seconds(duration);
    let millis = fraction_millis(duration);
    clock_of(seconds, millis)
}

/// The progress line of a phase that started, when the error stream is not
/// a terminal.
pub fn started(name: &str) -> (text: String)
    ensures
        text@ == "axiom: checking "@ + name@ + "...\n"@,
{
    let mut text = concat("axiom: checking ", name);
    text.append("...\n");
    text
}

/// The progress line of a phase that finished after `elapsed`.
pub fn finished(name: &str, elapsed: &str) -> (text: String)
    ensures
        text@ == "axiom: finished "@ + name@ + " in "@ + elapsed@ + "\n"@,
{
    let mut text = concat("axiom: finished ", name);
    text.append(" in ");
    text.append(elapsed);
    text.append("\n");
    text
}

/// The progress line of a phase that failed.
pub fn failed(name: &str) -> (text: String)
    ensures
        text@ == "axiom: "@ + name@ + " failed\n"@,
{
    let mut text = concat("axiom: ", name);
    text.append(" failed\n");
    text
}

/// The frames of the spinner.
pub open spec fn spinner_frame(index: int) -> Seq<char> {
    if index == 0 {
        "⠙"@
    } else if index == 1 {
        "⠹"@
    } else if index == 2 {
        "⠸"@
    } else if index == 3 {
        "⠼"@
    } else if index == 4 {
        "⠴"@
    } else if index == 5 {
        "⠦"@
    } else if index == 6 {
        "⠧"@
    } else if index == 7 {
        "⠇"@
    } else if index == 8 {
        "⠏"@
    } else {
        "⠛"@
    }
}

/// Number of frames of the spinner.
pub const FRAME_COUNT: usize = 10;

fn frame(index: usize) -> (text: &'static str)
    ensures
        text@ == spinner_frame(index as int),
{
    if index == 0 {
        "⠙"
    } else if index == 1 {
        "⠹"
    } else if index == 2 {
        "⠸"
    } else if index == 3 {
        "⠼"
    } else if index == 4 {
        "⠴"
    } else if index == 5 {
        "⠦"
    } else if index == 6 {
        "⠧"
    } else if index == 7 {
        "⠇"
    } else if index == 8 {
        "⠏"
    } else {
        "⠛"
    }
}

/// The control sequence that returns to the start of the line and erases it.
pub open spec fn erase_line() -> Seq<char> {
    "\r\u{1b}[2K"@
}

/// The state of the interactive progress display: the running phases with
/// the times they started, the spinner frame, whether a status line is on
/// screen, how many operations have suspended the display, whether the
/// animation runs, and whether it is coloured.
pub struct TerminalState {
    phases: Vec<(String, u64)>,
    frame: usize,
    drawn: bool,
    suspended: usize,
    worker_running: bool,
    color: bool,
}

impl TerminalState {
    /// The names of the running phases.
    pub closed spec fn phase_names(self) -> Seq<Seq<char>> {
        self.phases().map_values(|phase: (Seq<char>, u64)| phase.0)
    }

    /// The running phases, each with the time it started.
    pub closed spec fn phases(self) -> Seq<(Seq<char>, u64)> {
        self.phases@.map_values(|phase: (String, u64)| (phase.0@, phase.1))
    }

    /// The spinner frame.
    pub closed spec fn frame(self) -> nat {
        self.frame as nat
    }

    /// Whether a status line is on screen.
    pub closed spec fn drawn(self) -> bool {
        self.drawn
    }

    /// How many operations have suspended the display.
    pub closed spec fn suspended(self) -> nat {
        self.suspended as nat
    }

    /// Whether the animation runs.
    pub closed spec fn worker_running(self) -> bool {
        self.worker_running
    }

    /// Whether the display is coloured.
    pub closed spec fn color(self) -> bool {
        self.color
    }

    /// A display with nothing running and nothing on screen.
    pub fn new() -> (state: Self)
        ensures
            state.phases().len() == 0,
            state.frame() == 0,
            !state.drawn(),
            state.suspended() == 0,
            !state.worker_running(),
            !state.color(),
    {
        TerminalState {
            phases: Vec::new(),
            frame: 0,
            drawn: false,
            suspended: 0,
            worker_running: false,
            color: false,
        }
    }

    /// Whether the display is coloured.
    pub fn colored(&self) -> (color: bool)
        ensures
            color == self.color(),
    {
        self.color
    }

    /// Erases the status line, if one is on screen.
    pub fn clear(&mut self) -> (text: String)
        ensures
            text@ == if old(self).drawn() {
                erase_line()
            } else {
                seq![]
            },
            !final(self).drawn(),
            final(self).phases() == old(self).phases(),
            final(self).frame() == old(self).frame(),
            final(self).suspended() == old(self).suspended(),
            final(self).worker_running() == old(self).worker_running(),
            final(self).color() == old(self).color(),
    {
        if self.drawn {
            self.drawn = false;
            String::from_str("\r\u{1b}[2K")
        } else {
            String::new()
        }
    }

    /// The status line: the spinner, the clock right-aligned in seven
    /// columns, and the running phases.
    pub open spec fn status_text(self, clock: Seq<char>) -> Seq<char> {
        "  "@ + painted(spinner_frame(self.frame() as int), "36"@, self.color()) + "  "@ + pad_left(
            clock,
            7,
        ) + "  Checking "@ + join(self.phase_names(), " + "@)
    }

    /// Draws the status line over the current one, unless nothing runs or
    /// the display is suspended.
    pub fn draw(&mut self, clock: &str) -> (text: String)
        ensures
            final(self).phases() == old(self).phases(),
            final(self).frame() == old(self).frame(),
            final(self).suspended() == old(self).suspended(),
            final(self).worker_running() == old(self).worker_running(),
            final(self).color() == old(self).color(),
            if old(self).phases().len() == 0 || old(self).suspended() > 0 {
                text@ == Seq::<char>::empty() && final(self).drawn() == old(self).drawn()
            } else {
                &&& text@ == (if old(self).drawn() {
                    erase_line()
                } else {
                    seq![]
                }) + old(self).status_text(clock@)
                &&& final(self).drawn()
            },
    {
        if self.phases.len() == 0 || self.suspended > 0 {
            return String::new();
        }
        let mut text = if self.drawn {
            String::from_str("\r\u{1b}[2K")
        } else {
            String::new()
        };
        self.drawn = false;
        let spinner = paint(frame(self.frame), "36", self.color);
        text.append("  ");
        text.append(spinner.as_str());
        text.append("  ");
        let shown_clock = padded_left(clock, 7);
        text.append(shown_clock.as_str());
        text.append("  Checking ");
        let mut index: usize = 0;
        let ghost names = self.phase_names();
        while index < self.phases.len()
            invariant
                index <= self.phases@.len(),
                self.phases@ == old(self).phases@,
                self.frame == old(self).frame,
                self.color == old(self).color,
                names.len() == self.phases@.len(),
                forall|m: int| 0 <= m < names.len() ==> #[trigger] names[m] == self.phases@[m].0@,
                text@ == (if old(self).drawn() {
                    erase_line()
                } else {
                    seq![]
                }) + "  "@ + painted(spinner_frame(self.frame as int), "36"@, self.color) + "  "@
                    + pad_left(clock@, 7) + "  Checking "@ + join(
                    names.subrange(0, index as int),
                    " + "@,
                ),
            decreases self.phases@.len() - index,
        {
            proof {
                let after = names.subrange(0, index + 1);
                assert(after.drop_last() =~= names.subrange(0, index as int));
            }
            if index > 0 {
                text.append(" + ");
            }
            text.append(self.phases[index].0.as_str());
            proof {
                let after = names.subrange(0, index + 1);
                if index == 0 {
                    assert(after.len() == 1);
                }
                assert(text@ =~= (if old(self).drawn() {
                    erase_line()
                } else {
                    seq![]
                }) + "  "@ + painted(spinner_frame(self.frame as int), "36"@, self.color) + "  "@
                    + pad_left(clock@, 7) + "  Checking "@ + join(after, " + "@));
            }
            index = index + 1;
        }
        assert(names.subrange(0, index as int) =~= names);
        self.drawn = true;
        text
    }

    /// Starts the phase `name` at `now`: erases the status line, records the
    /// phase, takes the colour setting, and draws the status line anew.
    /// Also says whether the animation has to be started.
    pub fn start(&mut self, name: String, now: u64, color: bool, clock: &str) -> (result: (
        String,
        bool,
    ))
        ensures
            final(self).phases() == old(self).phases().push((name@, now)),
            final(self).frame() == old(self).frame(),
            final(self).suspended() == old(self).suspended(),
            final(self).color() == color,
            final(self).worker_running(),
            result.1 == !old(self).worker_running(),
            old(self).suspended() > 0 ==> result.0@ == (if old(self).drawn() {
                erase_line()
            } else {
                seq![]
            }) && !final(self).drawn(),
            old(self).suspended() == 0 ==> {
                &&& result.0@ == (if old(self).drawn() {
                    erase_line()
                } else {
                    seq![]
                }) + final(self).status_text(clock@)
                &&& final(self).drawn()
            },
    {
        let mut text = self.clear();
        let ghost before = self.phases@;
        self.phases.push((name, now));
        proof {
            assert(self.phases@.map_values(|phase: (String, u64)| (phase.0@, phase.1))
                =~= before.map_values(|phase: (String, u64)| (phase.0@, phase.1)).push(
                (name@, now),
            ));
        }
        self.color = color;
        let drawn = self.draw(clock);
        text.append(drawn.as_str());
        let spawn = !self.worker_running;
        self.worker_running = true;
        (text, spawn)
    }

    /// Ends the first running phase named `name`, giving how long it ran by
    /// `now`, or `None` when no such phase runs.
    pub fn remove_phase(&mut self, name: &str, now: u64) -> (elapsed: Option<u64>)
        ensures
            final(self).frame() == old(self).frame(),
            final(self).drawn() == old(self).drawn(),
            final(self).suspended() == old(self).suspended(),
            final(self).worker_running() == old(self).worker_running(),
            final(self).color() == old(self).color(),
            match elapsed {
                None => {
                    &&& forall|k: int|
                        0 <= k < old(self).phases().len() ==> (#[trigger] old(
                            self,
                        ).phases()[k]).0 != name@
                    &&& final(self).phases() == old(self).phases()
                },
                Some(ran) => exists|k: int|
                    {
                        &&& 0 <= k < old(self).phases().len()
                        &&& old(self).phases()[k].0 == name@
                        &&& forall|m: int|
                            0 <= m < k ==> (#[trigger] old(self).phases()[m]).0 != name@
                        &&& final(self).phases() == old(self).phases().remove(k)
                        &&& ran == if now >= old(self).phases()[k].1 {
                            (now - old(self).phases()[k].1) as u64
                        } else {
                            0
                        }
                    },
            },
    {
        let ghost start = self.phases();
        let mut k: usize = 0;
        while k < self.phases.len()
            invariant
                k <= self.phases@.len(),
                self.phases@ == old(self).phases@,
                self.frame == old(self).frame,
                self.drawn == old(self).drawn,
                self.suspended == old(self).suspended,
                self.worker_running == old(self).worker_running,
                self.color == old(self).color,
                start == self.phases@.map_values(|phase: (String, u64)| (phase.0@, phase.1)),
                forall|m: int| 0 <= m < k ==> (#[trigger] start[m]).0 != name@,
            decreases self.phases@.len() - k,
        {
            if crate::text::same_text(self.phases[k].0.as_str(), name) {
                let ghost before = self.phases@;
                let phase = self.phases.remove(k);
                proof {
                    assert(self.phases@.map_values(|phase: (String, u64)| (phase.0@, phase.1))
                        =~= start.remove(k as int));
                    assert(phase == before[k as int]);
                    assert(start[k as int] == (phase.0@, phase.1));
                }
                let ran = if now >= phase.1 {
                    now - phase.1
                } else {
                    0
                };
                proof {
                    let kk = k as int;
                    assert(start == old(self).phases());
                    assert(old(self).phases()[kk].0 == name@);
                    assert(self.phases() == old(self).phases().remove(kk));
                    assert(ran == if now >= old(self).phases()[kk].1 {
                        (now - old(self).phases()[kk].1) as u64
                    } else {
                        0
                    });
                }
                return Some(ran);
            }
            k = k + 1;
        }
        None
    }

    /// Advances the spinner and redraws the status line, unless suspended;
    /// `None` when nothing runs any more, which stops the animation.
    pub fn tick(&mut self, clock: &str) -> (text: Option<String>)
        ensures
            final(self).phases() == old(self).phases(),
            final(self).color() == old(self).color(),
            final(self).suspended() == old(self).suspended(),
            old(self).phases().len() == 0 ==> {
                &&& text is None
                &&& !final(self).worker_running()
                &&& final(self).frame() == old(self).frame()
                &&& final(self).drawn() == old(self).drawn()
            },
            old(self).phases().len() > 0 ==> {
                &&& final(self).frame() == if old(self).frame() >= FRAME_COUNT - 1 {
                    0
                } else {
                    old(self).frame() + 1
                }
                &&& final(self).worker_running() == old(self).worker_running()
                &&& old(self).suspended() > 0 ==> (text matches Some(t) && t@ == Seq::<
                    char,
                >::empty() && final(self).drawn() == old(self).drawn())
                &&& old(self).suspended() == 0 ==> (text matches Some(t) && t@ == (if old(
                    self,
                ).drawn() {
                    erase_line()
                } else {
                    seq![]
                }) + final(self).status_text(clock@) && final(self).drawn())
            },
    {
        if self.phases.len() == 0 {
            self.worker_running = false;
            return None;
        }
        self.frame = if self.frame >= FRAME_COUNT - 1 {
            0
        } else {
            self.frame + 1
        };
        if self.suspended == 0 {
            Some(self.draw(clock))
        } else {
            Some(String::new())
        }
    }

    /// Suspends the display while an operation writes: erases the status
    /// line and counts the suspension.
    pub fn suspend(&mut self) -> (text: String)
        requires
            old(self).suspended() < usize::MAX,
        ensures
            text@ == if old(self).drawn() {
                erase_line()
            } else {
                seq![]
            },
            !final(self).drawn(),
            final(self).suspended() == old(self).suspended() + 1,
            final(self).phases() == old(self).phases(),
            final(self).frame() == old(self).frame(),
            final(self).worker_running() == old(self).worker_running(),
            final(self).color() == old(self).color(),
    {
        let text = self.clear();
        self.suspended = self.suspended + 1;
        text
    }

    /// Resumes the display after a suspension, redrawing the status line
    /// when no other suspension remains.
    pub fn resume(&mut self, clock: &str) -> (text: String)
        ensures
            final(self).suspended() == if old(self).suspended() > 0 {
                (old(self).suspended() - 1) as nat
            } else {
                0
            },
            final(self).phases() == old(self).phases(),
            final(self).frame() == old(self).frame(),
            final(self).worker_running() == old(self).worker_running(),
            final(self).color() == old(self).color(),
            final(self).suspended() > 0 || final(self).phases().len() == 0 ==> text@ == Seq::<
                char,
            >::empty() && final(self).drawn() == old(self).drawn(),
            final(self).suspended() == 0 && final(self).phases().len() > 0 ==> {
                &&& text@ == (if old(self).drawn() {
                    erase_line()
                } else {
                    seq![]
                }) + final(self).status_text(clock@)
                &&& final(self).drawn()
            },
    {
        self.suspended = if self.suspended > 0 {
            self.suspended - 1
        } else {
            0
        };
        self.draw(clock)
    }
}

/// The line that reports a finished or failed phase: a check mark or a
/// cross, the elapsed time right-aligned in seven columns, and the phase.
pub open spec fn completion_text(
    succeeded: bool,
    elapsed: Seq<char>,
    name: Seq<char>,
    color: bool,
) -> Seq<char> {
    "  "@ + painted(
        if succeeded {
            "✓"@
        } else {
            "✗"@
        },
        if succeeded {
            "32"@
        } else {
            "31"@
        },
        color,
    ) + "  "@ + pad_left(elapsed, 7) + "  "@ + (if succeeded {
        "Finished"@
    } else {
        "Failed"@
    }) + " "@ + name + "\n"@
}

/// The line that reports a finished or failed phase.
pub fn completion_line(succeeded: bool, elapsed: &str, name: &str, color: bool) -> (text: String)
    ensures
        text@ == completion_text(succeeded, elapsed@, name@, color),
{
    let (symbol, code, verb) = if succeeded {
        ("✓", "32", "Finished")
    } else {
        ("✗", "31", "Failed")
    };
    let mut text = String::from_str("  ");
    let shown = paint(symbol, code, color);
    text.append(shown.as_str());
    text.append("  ");
    let shown_elapsed = padded_left(elapsed, 7);
    text.append(shown_elapsed.as_str());
    text.append("  ");
    text.append(verb);
    text.append(" ");
    text.append(name);
    text.append("\n");
    text
}

/// How long a completed phase ran: the time it reported, else the time it
/// was measured to run, else nothing.
pub open spec fn completion_duration(elapsed: Option<u64>, measured: Option<u64>) -> u64 {
    match elapsed {
        Some(ran) => ran,
        None => match measured {
            Some(ran) => ran,
            None => 0,
        },
    }
}

/// How long a completed phase ran.
pub fn completion_duration_of(elapsed: Option<u64>, measured: Option<u64>) -> (ran: u64)
    ensures
        ran == completion_duration(elapsed, measured),
{
    match elapsed {
        Some(ran) => ran,
        None => match measured {
            Some(ran) => ran,
            None => 0,
        },
    }
}

} // verus!
