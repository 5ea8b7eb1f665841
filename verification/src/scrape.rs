//! The scheduler of scrapes: whether a scrape loop runs, when its next
//! scrape is due, and what a loop and its listeners have to offer.
use crate::errors::ScrapeError;
use crate::log::{Log, LogContainer};
use crate::loki::logproto::Stream;
use crate::models::LogMetricConf;
use vstd::prelude::*;

verus! {

/// What a scrape loop hands the drained streams to, once per tick.
pub trait ScrapeProcess {
    /// Sends `items`. Returns the number of bytes sent.
    fn send(&mut self, items: Vec<Stream>) -> Result<usize, ScrapeError>;
}

/// What a scrape loop is started with.
pub trait ScrapeConfig {
    type ScrapeType: ScrapeProcess;

    /// The time between two scrapes, in milliseconds.
    fn get_scrape_interval(&self) -> u64;

    /// The process that the loop calls once per tick.
    fn get_scrape_process(&self) -> Self::ScrapeType;
}

/// What a scrape loop reports: its start, every scrape that was sent with
/// the number of bytes, every scrape that failed with the failure, and
/// its end. A listener that overrides nothing hears nothing.
pub trait ScrapeEvents {
    fn on_start(&self) {
    }

    fn on_after_scrape(&self, size: usize) {
    }

    fn on_error(&self, err: ScrapeError) {
    }

    fn on_end(&self) {
    }
}

/// The listener that hears nothing.
pub struct ScrapeEmptyListener;

impl ScrapeEvents for ScrapeEmptyListener {}

/// How long a loop pauses after a tick whose work took `duration`, at one
/// scrape every `interval`: the rest of the interval, or not at all where
/// the work took the whole interval or more.
pub open spec fn pause_for(interval: int, duration: int) -> int {
    if duration < interval {
        interval - duration
    } else {
        0
    }
}

/// When the tick after a tick is due that woke at `start` and whose work
/// took `duration`: one interval after `start`, or at the end of the work
/// where that came later.
pub open spec fn next_wake(start: int, interval: int, duration: int) -> int {
    start + duration + pause_for(interval, duration)
}

/// When the tick is due that follows ticks whose work took the given
/// `durations`, the first of which woke at `start`.
pub open spec fn wake_after(start: int, interval: int, durations: Seq<int>) -> int
    decreases durations.len(),
{
    if durations.len() == 0 {
        start
    } else {
        next_wake(wake_after(start, interval, durations.drop_last()), interval, durations.last())
    }
}

/// The pacing of a scrape loop. Instants and the interval are counted in
/// one unit on a clock that does not run backwards.
#[derive(Clone, Copy, Debug, PartialEq, Eq, Structural)]
pub struct Cadence {
    interval: u64,
    start: u64,
}

impl Cadence {
    /// The time between two scrapes.
    pub closed spec fn spec_interval(self) -> u64 {
        self.interval
    }

    /// The instant at which the current tick woke.
    pub closed spec fn spec_start(self) -> u64 {
        self.start
    }

    /// The pacing of a loop whose first tick woke at `now`.
    pub fn new(interval: u64, now: u64) -> (cadence: Cadence)
        ensures
            cadence.spec_interval() == interval,
            cadence.spec_start() == now,
    {
        Cadence { interval, start: now }
    }

    #[verifier::when_used_as_spec(spec_interval)]
    pub fn interval(self) -> (interval: u64)
        ensures
            interval == self.spec_interval(),
    {
        self.interval
    }

    #[verifier::when_used_as_spec(spec_start)]
    pub fn start(self) -> (start: u64)
        ensures
            start == self.spec_start(),
    {
        self.start
    }

    /// Closes the tick whose work ended at `end`: returns for how long the
    /// loop pauses, if at all, and sets the start of the next tick to the
    /// end of that pause. A tick whose work took less than the interval is
    /// followed by a tick exactly one interval after its own start.
    pub fn pause_after(&mut self, end: u64) -> (pause: Option<u64>)
        requires
            old(self).spec_start() <= end,
            old(self).spec_start() + old(self).spec_interval() <= u64::MAX,
        ensures
            final(self).spec_interval() == old(self).spec_interval(),
            final(self).spec_start() == next_wake(
                old(self).spec_start() as int,
                old(self).spec_interval() as int,
                end - old(self).spec_start(),
            ),
            pause is Some <==> end - old(self).spec_start() < old(self).spec_interval(),
            pause is Some ==> pause->Some_0 == pause_for(
                old(self).spec_interval() as int,
                end - old(self).spec_start(),
            ),
            pause is Some ==> 0 < pause->Some_0 <= old(self).spec_interval(),
            pause is Some ==> final(self).spec_start() == old(self).spec_start()
                + old(self).spec_interval(),
            pause is None ==> final(self).spec_start() == end,
    {
        let duration: u64 = end - self.start;
        self.start = end;
        if duration < self.interval {
            let pause: u64 = self.interval - duration;
            self.start = self.start + pause;
            Some(pause)
        } else {
            None
        }
    }
}

/// A loop never wakes earlier than one interval after its last wake.
pub proof fn lemma_next_wake_not_early(start: int, interval: int, duration: int)
    requires
        0 <= duration,
        0 <= interval,
    ensures
        next_wake(start, interval, duration) >= start + interval,
        next_wake(start, interval, duration) >= start + duration,
        0 <= pause_for(interval, duration) <= interval,
{
}

/// While the work of every tick takes less than the interval, the loop
/// wakes at `start`, one interval later, two intervals later and so on,
/// however long the work of each tick took.
pub proof fn lemma_steady_cadence(start: int, interval: int, durations: Seq<int>)
    requires
        forall|i: int| 0 <= i < durations.len() ==> 0 <= #[trigger] durations[i] < interval,
    ensures
        wake_after(start, interval, durations) == start + durations.len() * interval,
    decreases durations.len(),
{
    if durations.len() > 0 {
        lemma_steady_cadence(start, interval, durations.drop_last());
        assert(durations.drop_last().len() == durations.len() - 1);
        assert((durations.len() - 1) * interval + interval == durations.len() * interval)
            by (nonlinear_arith);
    }
}

/// Where a scrape loop stands.
#[derive(Clone, Copy, Debug, PartialEq, Eq, Structural)]
pub enum LoopPhase {
    /// Made; nothing was done yet.
    Created,
    /// The listener heard of the start; the first sleep is due.
    Started,
    /// In the first sleep, which is one full interval long.
    FirstSleep,
    /// In the work of a tick: drain, send, report.
    Scraping,
    /// In the pause behind the work of a tick.
    Paused,
    /// Told to end; the listener hears of the end.
    Ended,
}

/// What a scrape loop does next.
#[derive(Clone, Copy, Debug, PartialEq, Eq, Structural)]
pub enum LoopAction {
    /// Tell the listener of the start and make the process.
    Start,
    /// Sleep for so long.
    Sleep(u64),
    /// Drain the queues, send what they held, tell the listener how it went.
    Scrape,
    /// Tell the listener of the end and leave the loop.
    End,
}

/// What a scrape loop holds, as mathematical values.
pub struct LoopView {
    pub phase: LoopPhase,
    /// The time between two scrapes.
    pub interval: u64,
    /// The instant at which the current tick woke.
    pub start: u64,
}

impl LoopView {
    /// The head of the loop, where the request to end is looked at: a loop
    /// that was told to end ends, any other scrapes.
    pub open spec fn at_head(self, cancelled: bool) -> (LoopView, LoopAction) {
        if cancelled {
            (LoopView { phase: LoopPhase::Ended, ..self }, LoopAction::End)
        } else {
            (LoopView { phase: LoopPhase::Scraping, ..self }, LoopAction::Scrape)
        }
    }

    /// Whether the loop can take its next step at the instant `now`: the
    /// work of a tick does not end before it began, and the instant one
    /// interval behind its start can be counted.
    pub open spec fn can_step(self, now: u64) -> bool {
        self.phase is Scraping ==> self.start <= now && self.start + self.interval <= u64::MAX
    }

    /// The next step of the loop, taken at the instant `now`, given
    /// whether the loop was told to end. The start is reported first, then
    /// the loop sleeps one interval, then it comes to its head. The work
    /// of a tick is followed by the rest of the interval as a pause, and
    /// then by the head; work that took the interval or more is followed
    /// by the head at once. A loop that has ended stays ended.
    pub open spec fn step(self, now: u64, cancelled: bool) -> (LoopView, LoopAction) {
        match self.phase {
            LoopPhase::Created => (
                LoopView { phase: LoopPhase::Started, ..self },
                LoopAction::Start,
            ),
            LoopPhase::Started => (
                LoopView { phase: LoopPhase::FirstSleep, ..self },
                LoopAction::Sleep(self.interval),
            ),
            LoopPhase::FirstSleep => (LoopView { start: now, ..self }).at_head(cancelled),
            LoopPhase::Scraping => if now - self.start < self.interval {
                (
                    LoopView {
                        phase: LoopPhase::Paused,
                        start: next_wake(
                            self.start as int,
                            self.interval as int,
                            now - self.start,
                        ) as u64,
                        ..self
                    },
                    LoopAction::Sleep(
                        pause_for(self.interval as int, now - self.start) as u64,
                    ),
                )
            } else {
                (LoopView { start: now, ..self }).at_head(cancelled)
            },
            LoopPhase::Paused => self.at_head(cancelled),
            LoopPhase::Ended => (self, LoopAction::End),
        }
    }
}

/// The steps of a scrape loop: what the thread that runs the loop does
/// next, from where the loop stands, the reading of the clock and the
/// request to end.
#[derive(Clone, Copy, Debug)]
pub struct ScrapeLoop {
    phase: LoopPhase,
    cadence: Cadence,
}

impl View for ScrapeLoop {
    type V = LoopView;

    closed spec fn view(&self) -> LoopView {
        LoopView {
            phase: self.phase,
            interval: self.cadence.spec_interval(),
            start: self.cadence.spec_start(),
        }
    }
}

impl ScrapeLoop {
    /// A loop with one scrape every `interval` that has done nothing yet.
    pub fn new(interval: u64) -> (steps: ScrapeLoop)
        ensures
            steps@ == (LoopView { phase: LoopPhase::Created, interval, start: 0 }),
    {
        ScrapeLoop { phase: LoopPhase::Created, cadence: Cadence::new(interval, 0) }
    }

    pub fn phase(&self) -> (phase: LoopPhase)
        ensures
            phase == self@.phase,
    {
        self.phase
    }

    pub fn interval(&self) -> (interval: u64)
        ensures
            interval == self@.interval,
    {
        self.cadence.interval()
    }

    pub fn start(&self) -> (start: u64)
        ensures
            start == self@.start,
    {
        self.cadence.start()
    }

    /// Takes the next step at the instant `now`, given whether the loop was
    /// told to end, and returns what is to be done.
    pub fn next(&mut self, now: u64, cancelled: bool) -> (action: LoopAction)
        requires
            old(self)@.can_step(now),
        ensures
            (final(self)@, action) == old(self)@.step(now, cancelled),
    {
        match self.phase {
            LoopPhase::Created => {
                self.phase = LoopPhase::Started;
                LoopAction::Start
            },
            LoopPhase::Started => {
                self.phase = LoopPhase::FirstSleep;
                LoopAction::Sleep(self.cadence.interval())
            },
            LoopPhase::FirstSleep => {
                self.cadence = Cadence::new(self.cadence.interval(), now);
                self.head(cancelled)
            },
            LoopPhase::Scraping => {
                match self.cadence.pause_after(now) {
                    Some(pause) => {
                        self.phase = LoopPhase::Paused;
                        LoopAction::Sleep(pause)
                    },
                    None => self.head(cancelled),
                }
            },
            LoopPhase::Paused => self.head(cancelled),
            LoopPhase::Ended => LoopAction::End,
        }
    }

    /// The head of the loop: ends the loop where it was told to end, else
    /// begins the work of a tick.
    fn head(&mut self, cancelled: bool) -> (action: LoopAction)
        ensures
            (final(self)@, action) == old(self)@.at_head(cancelled),
    {
        if cancelled {
            self.phase = LoopPhase::Ended;
            LoopAction::End
        } else {
            self.phase = LoopPhase::Scraping;
            LoopAction::Scrape
        }
    }
}

/// The order of a loop's steps. The start is reported by the first step
/// and by no other, and the end by the step that ends the loop and by
/// every step behind it. The request to end is looked at where a sleep is
/// over and where work took the interval or more, and nowhere else. No
/// sleep is longer than one interval, so a loop that is told to end while
/// it sleeps ends within one interval.
pub proof fn lemma_loop_order(state: LoopView, now: u64, cancelled: bool)
    requires
        state.can_step(now),
    ensures
        state.step(now, cancelled).0.interval == state.interval,
        state.step(now, cancelled).1 is Start <==> state.phase is Created,
        state.phase is Started ==> state.step(now, cancelled).1 == LoopAction::Sleep(
            state.interval,
        ),
        state.step(now, cancelled).1 is End <==> state.step(now, cancelled).0.phase is Ended,
        state.phase is Ended ==> state.step(now, cancelled) == (state, LoopAction::End),
        state.phase is FirstSleep || state.phase is Paused ==> (state.step(now, cancelled).1
            is End <==> cancelled),
        state.phase is FirstSleep || state.phase is Paused ==> (state.step(now, cancelled).1
            is Scrape <==> !cancelled),
        state.step(now, cancelled).1 is Sleep ==> state.step(now, cancelled).1->Sleep_0
            <= state.interval,
        state.step(now, cancelled).1 is Scrape ==> state.step(now, cancelled).0.phase
            is Scraping,
{
}

/// A tick whose work took less than the interval is followed by a pause
/// for the rest of the interval, and the tick after it begins exactly one
/// interval after the tick began, however long the work took.
pub proof fn lemma_loop_keeps_cadence(state: LoopView, now: u64, later: u64)
    requires
        state.phase is Scraping,
        state.start <= now < state.start + state.interval,
        state.start + state.interval <= u64::MAX,
    ensures
        state.step(now, false).1 == LoopAction::Sleep(
            (state.interval - (now - state.start)) as u64,
        ),
        state.step(now, false).0.phase is Paused,
        state.step(now, false).0.start == state.start + state.interval,
        state.step(now, false).0.step(later, false).1 is Scrape,
        state.step(now, false).0.step(later, false).0.start == state.start + state.interval,
{
}

/// Whether a scrape loop runs, and whether it was told to end.
#[derive(Clone, Copy, Debug, PartialEq, Eq, Structural)]
pub struct ScrapeState {
    pub running: bool,
    pub cancelled: bool,
}

impl ScrapeState {
    /// The state of a scheduler that was never started.
    pub open spec fn idle() -> ScrapeState {
        ScrapeState { running: false, cancelled: false }
    }

    /// The state after a request to start: a running loop keeps running,
    /// an idle scheduler runs a loop that was not told to end.
    pub open spec fn started(self) -> ScrapeState {
        if self.running {
            self
        } else {
            ScrapeState { running: true, cancelled: false }
        }
    }

    /// The answer to a request to start: nothing where a loop runs already.
    pub open spec fn start_answer(self) -> Option<()> {
        if self.running {
            None
        } else {
            Some(())
        }
    }

    /// The state after a request to stop: a running loop was told to end
    /// and has ended, an idle scheduler stays as it is.
    pub open spec fn stopped(self) -> ScrapeState {
        if self.running {
            ScrapeState { running: false, cancelled: true }
        } else {
            self
        }
    }

    /// The answer to a request to stop: done, where a loop runs and where
    /// the loop that ran last was stopped already; nothing, where no loop
    /// was started since the scheduler was made.
    pub open spec fn stop_answer(self) -> Option<()> {
        if self.running || self.cancelled {
            Some(())
        } else {
            None
        }
    }
}

/// The scheduler of one scrape loop over a registry of its own.
pub struct Scrape {
    containers: Log,
    state: ScrapeState,
}

impl Scrape {
    /// Whether a loop runs, and whether it was told to end.
    pub closed spec fn state(&self) -> ScrapeState {
        self.state
    }

    /// The registry that the loop scrapes.
    pub closed spec fn registry(&self) -> Log {
        self.containers
    }

    /// The registry is well formed.
    pub open spec fn wf(&self) -> bool {
        self.registry().wf()
    }

    /// An idle scheduler over an empty registry.
    pub fn new() -> (scrape: Self)
        ensures
            scrape.wf(),
            scrape.state() == ScrapeState::idle(),
            scrape.registry()@.keys == Seq::<u64>::empty(),
            scrape.registry()@.containers.len() == 0,
    {
        Scrape { containers: Log::new(), state: ScrapeState { running: false, cancelled: false } }
    }

    /// Asks for a loop to run. Answers nothing, and changes nothing, where
    /// one runs already.
    pub fn start(&mut self) -> (started: Option<()>)
        ensures
            started == old(self).state().start_answer(),
            final(self).state() == old(self).state().started(),
            final(self).registry() == old(self).registry(),
    {
        if self.state.running {
            return None;
        }
        self.state = ScrapeState { running: true, cancelled: false };
        Some(())
    }

    /// Tells the running loop to end. Changes nothing where no loop runs:
    /// a stop behind a stop gives the answer of the first, and a scheduler
    /// that was never started answers nothing.
    pub fn stop(&mut self) -> (stopped: Option<()>)
        ensures
            stopped == old(self).state().stop_answer(),
            final(self).state() == old(self).state().stopped(),
            final(self).registry() == old(self).registry(),
    {
        if !self.state.running {
            return if self.state.cancelled {
                Some(())
            } else {
                None
            };
        }
        self.state = ScrapeState { running: false, cancelled: true };
        Some(())
    }

    /// Whether a loop runs.
    pub fn is_running(&self) -> (running: bool)
        ensures
            running == self.state().running,
    {
        self.state.running
    }

    /// Whether the loop that ran last was told to end.
    pub fn is_cancelled(&self) -> (cancelled: bool)
        ensures
            cancelled == self.state().cancelled,
    {
        self.state.cancelled
    }

    /// The container of `config` in the registry that the loop scrapes,
    /// made first if there is none yet.
    pub fn get(&mut self, config: LogMetricConf) -> (container: &mut LogContainer)
        requires
            old(self).wf(),
        ensures
            final(self).state() == old(self).state(),
            container.wf(),
            old(self).registry()@.contains(config@.key) ==> container@
                == old(self).registry()@.containers[old(self).registry()@.position(config@.key)],
            !old(self).registry()@.contains(config@.key) ==> container@
                == crate::log::empty_container(config@),
            final(container).wf() ==> final(self).wf(),
            final(container)@ == container@ ==> final(self).registry()@
                == old(self).registry()@.with_container_for(config@),
    {
        self.containers.get(config)
    }

    /// The registry that the loop scrapes, for a scrape.
    pub fn containers(&mut self) -> (registry: &mut Log)
        ensures
            *registry == old(self).registry(),
            final(self).registry() == *final(registry),
            final(self).state() == old(self).state(),
    {
        &mut self.containers
    }
}

/// Two stops in a row give the same answer and leave the scheduler idle
/// after each, whatever its state before: done for a scheduler that was
/// started, nothing for one that never was. A scheduler that was stopped
/// takes a start, and its loop is not told to end.
pub proof fn lemma_stop_start(state: ScrapeState)
    ensures
        !state.stopped().running,
        state.stopped().stopped() == state.stopped(),
        state.stopped().stop_answer() == state.stop_answer(),
        state.started().stop_answer() is Some,
        state.started().stopped().stop_answer() is Some,
        ScrapeState::idle().stop_answer() is None,
        state.stopped().start_answer() is Some,
        state.stopped().started().running,
        !state.stopped().started().cancelled,
        state.started().running,
        state.started().start_answer() is None,
{
}

} // verus!
