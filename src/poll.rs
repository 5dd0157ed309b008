use vstd::prelude::*;

verus! {

/// Collection window of a one-shot report, in milliseconds.
pub const STATUS_WINDOW_MS: u64 = 1000;

/// Default interval between requests of a watch session, in milliseconds.
pub const DEFAULT_WATCH_INTERVAL_MS: u64 = 5000;

/// Where the poll loop stands.
#[derive(Clone, Copy, Debug, PartialEq, Eq, Structural)]
pub enum Phase {
    /// Not started.
    Idle,
    /// Waiting for the broker connection, topology and consumer.
    Connecting,
    /// Waiting for a status request to be published.
    Publishing,
    /// Waiting for the collection window to pass.
    Waiting,
    /// Waiting for the snapshot to be drawn.
    Rendering,
    /// Waiting for the snapshot to be emptied (continuous mode).
    Clearing,
    /// Waiting for the consumer to stop (one-shot mode).
    Stopping,
    /// The run is over.
    Finished,
}

/// What the outside world reports back to the poll loop.
#[derive(Clone, Copy, Debug, PartialEq, Eq, Structural)]
pub enum Event {
    /// Connected, topology declared, consumer running, header printed.
    Connected,
    /// The broker could not be reached, refused the credentials, or the topology
    /// could not be declared.
    ConnectFailed,
    Published,
    /// A request could not be sent; the loop goes on.
    PublishFailed,
    /// The collection window has passed.
    WindowElapsed,
    Rendered,
    /// Writing to the terminal failed; this render pass is over.
    RenderFailed,
    Cleared,
    Stopped,
    /// The operator asked the process to end (an interrupt from outside).
    Interrupted,
}

/// What the poll loop asks the outside world to do next.
#[derive(Clone, Copy, Debug, PartialEq, Eq, Structural)]
pub enum Action {
    /// Connect, declare the topology, start the consumer, print the header.
    Connect,
    /// Publish a status request.
    Publish,
    /// Sleep for the given number of milliseconds.
    Sleep(u64),
    /// Draw the snapshot, redrawing in place when `continuous`.
    Render { continuous: bool },
    /// Empty the snapshot for the next window.
    ClearSnapshot,
    /// Tell the consumer to stop and close the channel and connection.
    StopConsumer,
    /// Leave with the given exit code.
    Exit(i32),
    /// Nothing to do for this event.
    Wait,
}

/// The decisions of the poll loop: one-shot `status` or continuous `watch`.
#[derive(Clone, Copy, Debug, PartialEq, Eq, Structural)]
pub struct PollLoop {
    pub continuous: bool,
    /// Time given to workers to answer each request, in milliseconds.
    pub interval_ms: u64,
    pub phase: Phase,
    /// Exit code of a one-shot run, fixed once its render is done.
    pub exit_code: i32,
}

/// The next state and action of `l` on `e`.
pub open spec fn step_spec(l: PollLoop, e: Event) -> (PollLoop, Action) {
    match (l.phase, e) {
        (Phase::Connecting, Event::Connected) => (PollLoop { phase: Phase::Publishing, ..l }, Action::Publish),
        (Phase::Connecting, Event::ConnectFailed) => (
            PollLoop { phase: Phase::Finished, exit_code: 1, ..l },
            Action::Exit(1),
        ),
        (Phase::Publishing, Event::Published) | (Phase::Publishing, Event::PublishFailed) => (
            PollLoop { phase: Phase::Waiting, ..l },
            Action::Sleep(l.interval_ms),
        ),
        (Phase::Waiting, Event::WindowElapsed) => (
            PollLoop { phase: Phase::Rendering, ..l },
            Action::Render { continuous: l.continuous },
        ),
        (Phase::Rendering, Event::Rendered) | (Phase::Rendering, Event::RenderFailed) => {
            if l.continuous {
                (PollLoop { phase: Phase::Clearing, ..l }, Action::ClearSnapshot)
            } else {
                (
                    PollLoop {
                        phase: Phase::Stopping,
                        exit_code: if e == Event::Rendered { 0 } else { 1 },
                        ..l
                    },
                    Action::StopConsumer,
                )
            }
        },
        (Phase::Clearing, Event::Cleared) => (PollLoop { phase: Phase::Publishing, ..l }, Action::Publish),
        (Phase::Stopping, Event::Stopped) => (
            PollLoop { phase: Phase::Finished, ..l },
            Action::Exit(l.exit_code),
        ),
        (Phase::Idle, Event::Interrupted) => (
            PollLoop { phase: Phase::Finished, exit_code: 0, ..l },
            Action::Exit(0),
        ),
        (Phase::Stopping, Event::Interrupted) | (Phase::Finished, Event::Interrupted) => (l, Action::Wait),
        (_, Event::Interrupted) => (
            PollLoop { phase: Phase::Stopping, exit_code: 0, ..l },
            Action::StopConsumer,
        ),
        _ => (l, Action::Wait),
    }
}

/// Runs `l` through the events in order and collects the actions.
pub open spec fn run(l: PollLoop, events: Seq<Event>) -> (PollLoop, Seq<Action>)
    decreases events.len(),
{
    if events.len() == 0 {
        (l, Seq::empty())
    } else {
        let (l1, a) = step_spec(l, events[0]);
        let (l2, rest) = run(l1, events.drop_first());
        (l2, seq![a] + rest)
    }
}

/// Events of one watch tick: the publish outcome, the end of the window, the
/// render outcome, and the emptied snapshot.
pub open spec fn tick_events(published: bool, rendered: bool) -> Seq<Event> {
    seq![
        if published { Event::Published } else { Event::PublishFailed },
        Event::WindowElapsed,
        if rendered { Event::Rendered } else { Event::RenderFailed },
        Event::Cleared,
    ]
}

/// Events of a sequence of ticks, each given by its (publish, render) outcomes.
pub open spec fn ticks_events(outcomes: Seq<(bool, bool)>) -> Seq<Event>
    decreases outcomes.len(),
{
    if outcomes.len() == 0 {
        Seq::empty()
    } else {
        tick_events(outcomes[0].0, outcomes[0].1) + ticks_events(outcomes.drop_first())
    }
}

/// Actions of one watch tick.
pub open spec fn tick_actions(interval_ms: u64) -> Seq<Action> {
    seq![Action::Sleep(interval_ms), Action::Render { continuous: true }, Action::ClearSnapshot, Action::Publish]
}

/// `k` repetitions of `s`.
pub open spec fn repeat(s: Seq<Action>, k: nat) -> Seq<Action>
    decreases k,
{
    if k == 0 {
        Seq::empty()
    } else {
        s + repeat(s, (k - 1) as nat)
    }
}

proof fn lemma_run_append(l: PollLoop, a: Seq<Event>, b: Seq<Event>)
    ensures
        run(l, a + b) == (run(run(l, a).0, b).0, run(l, a).1 + run(run(l, a).0, b).1),
    decreases a.len(),
{
    if a.len() == 0 {
        assert(a + b =~= b);
        assert(run(l, a).1 + run(l, b).1 =~= run(l, b).1);
    } else {
        assert((a + b).drop_first() =~= a.drop_first() + b);
        lemma_run_append(step_spec(l, a[0]).0, a.drop_first(), b);
        let r = run(step_spec(l, a[0]).0, a.drop_first());
        assert(seq![step_spec(l, a[0]).1] + (r.1 + run(r.0, b).1) =~= (seq![step_spec(l, a[0]).1]
            + r.1) + run(r.0, b).1);
    }
}

/// A watch session publishes exactly one request per tick: from a loop waiting to
/// publish, any run of ticks, whatever each publish and render gave, yields for
/// each tick a sleep of the interval, a redraw in place, an emptied snapshot and
/// one request, and leaves the loop as it found it.
pub proof fn lemma_one_request_per_tick(l: PollLoop, outcomes: Seq<(bool, bool)>)
    requires
        l.continuous,
        l.phase == Phase::Publishing,
    ensures
        run(l, ticks_events(outcomes)) == (l, repeat(tick_actions(l.interval_ms), outcomes.len())),
    decreases outcomes.len(),
{
    if outcomes.len() == 0 {
        assert(repeat(tick_actions(l.interval_ms), 0) =~= Seq::<Action>::empty());
    } else {
        let t = tick_events(outcomes[0].0, outcomes[0].1);
        lemma_run_append(l, t, ticks_events(outcomes.drop_first()));
        lemma_one_request_per_tick(l, outcomes.drop_first());
        assert(t.drop_first().drop_first().drop_first().drop_first() =~= Seq::<Event>::empty());
        reveal_with_fuel(run, 5);
        assert(run(l, t).0 == l);
        assert(run(l, t).1 =~= tick_actions(l.interval_ms));
    }
}

/// Clean shutdown: in either mode, an interrupt in any phase of a running
/// session stops the consumer, closing the channel and connection, and then
/// exits with code 0.
pub proof fn lemma_interrupt_shuts_down(l: PollLoop)
    requires
        l.phase != Phase::Idle,
        l.phase != Phase::Stopping,
        l.phase != Phase::Finished,
    ensures
        run(l, seq![Event::Interrupted, Event::Stopped]) == (
            PollLoop { phase: Phase::Finished, exit_code: 0, ..l },
            seq![Action::StopConsumer, Action::Exit(0)],
        ),
{
    let e = seq![Event::Interrupted, Event::Stopped];
    assert(e.drop_first() =~= seq![Event::Stopped]);
    assert(e.drop_first().drop_first() =~= Seq::<Event>::empty());
    reveal_with_fuel(run, 3);
    assert(run(l, e).1 =~= seq![Action::StopConsumer, Action::Exit(0)]);
}

impl PollLoop {
    /// A one-shot report: one request, one collection window, one render.
    pub fn status() -> (r: PollLoop)
        ensures
            r == (PollLoop { continuous: false, interval_ms: STATUS_WINDOW_MS, phase: Phase::Idle, exit_code: 0 }),
    {
        PollLoop { continuous: false, interval_ms: STATUS_WINDOW_MS, phase: Phase::Idle, exit_code: 0 }
    }

    /// A watch session: a request and a redraw every `interval_ms`, until the
    /// process is stopped from outside.
    pub fn watch(interval_ms: u64) -> (r: PollLoop)
        ensures
            r == (PollLoop { continuous: true, interval_ms, phase: Phase::Idle, exit_code: 0 }),
    {
        PollLoop { continuous: true, interval_ms, phase: Phase::Idle, exit_code: 0 }
    }

    /// Starts the run: asks for a connection. A loop already started is left as it is.
    pub fn start(&mut self) -> (a: Action)
        ensures
            old(self).phase == Phase::Idle ==> *final(self) == (PollLoop { phase: Phase::Connecting, ..*old(self) })
                && a == Action::Connect,
            old(self).phase != Phase::Idle ==> *final(self) == *old(self) && a == Action::Wait,
    {
        match self.phase {
            Phase::Idle => {
                self.phase = Phase::Connecting;
                Action::Connect
            },
            _ => Action::Wait,
        }
    }

    /// Takes the outcome of the last action and decides the next one.
    pub fn step(&mut self, e: Event) -> (a: Action)
        ensures
            (*final(self), a) == step_spec(*old(self), e),
    {
        match (self.phase, e) {
            (Phase::Connecting, Event::Connected) => {
                self.phase = Phase::Publishing;
                Action::Publish
            },
            (Phase::Connecting, Event::ConnectFailed) => {
                self.phase = Phase::Finished;
                self.exit_code = 1;
                Action::Exit(1)
            },
            (Phase::Publishing, Event::Published) | (Phase::Publishing, Event::PublishFailed) => {
                self.phase = Phase::Waiting;
                Action::Sleep(self.interval_ms)
            },
            (Phase::Waiting, Event::WindowElapsed) => {
                self.phase = Phase::Rendering;
                Action::Render { continuous: self.continuous }
            },
            (Phase::Rendering, Event::Rendered) | (Phase::Rendering, Event::RenderFailed) => {
                if self.continuous {
                    self.phase = Phase::Clearing;
                    Action::ClearSnapshot
                } else {
                    self.phase = Phase::Stopping;
                    self.exit_code = match e {
                        Event::Rendered => 0,
                        _ => 1,
                    };
                    Action::StopConsumer
                }
            },
            (Phase::Clearing, Event::Cleared) => {
                self.phase = Phase::Publishing;
                Action::Publish
            },
            (Phase::Stopping, Event::Stopped) => {
                self.phase = Phase::Finished;
                Action::Exit(self.exit_code)
            },
            (Phase::Idle, Event::Interrupted) => {
                self.phase = Phase::Finished;
                self.exit_code = 0;
                Action::Exit(0)
            },
            (Phase::Stopping, Event::Interrupted) | (Phase::Finished, Event::Interrupted) => Action::Wait,
            (_, Event::Interrupted) => {
                self.phase = Phase::Stopping;
                self.exit_code = 0;
                Action::StopConsumer
            },
            _ => Action::Wait,
        }
    }

    /// Whether the run is over.
    pub fn is_finished(&self) -> (r: bool)
        ensures
            r == (self.phase == Phase::Finished),
    {
        match self.phase {
            Phase::Finished => true,
            _ => false,
        }
    }
}

} // verus!
