//! Decisions of the presentation loop: what each polled event asks for,
//! how long to sleep before the next frame, and the laws of a whole run.
use vstd::prelude::*;

verus! {

/// Speed of emulation relative to the machine's own clock.
#[derive(Clone, Copy, PartialEq, Eq, Structural, Debug)]
pub enum EmulationSpeed {
    /// A fixed multiple of the native speed.
    Definite(usize),
    /// As many frames as fit in the time budget.
    Max,
}

/// A discrete input event delivered by the event source.
#[derive(Clone, Debug)]
pub enum Event {
    Exit,
    /// A key of the emulated keyboard, with whether it is now pressed.
    GameKey(u8, bool),
    SwitchDebug,
    ChangeSpeed(EmulationSpeed),
    /// A direction or the fire button of the joystick, with whether it is now pressed.
    Kempston(u8, bool),
    InsertTape,
    StopTape,
    /// A file dropped on the window; kept for later loading and ignored for now.
    OpenFile(String),
}

/// What the loop must do on the emulator or the display after an event.
#[derive(Clone, Copy, PartialEq, Eq, Structural, Debug)]
pub enum Command {
    /// Nothing to do.
    Idle,
    /// Leave the loop at once.
    Exit,
    SendKey(u8, bool),
    /// Put the default application title back.
    ResetTitle,
    SetSpeed(EmulationSpeed),
    KempstonKey(u8, bool),
    PlayTape,
    StopTape,
}

/// The loop's own control state.
#[derive(Clone, Copy, PartialEq, Eq, Structural, Debug)]
pub struct SchedulerState {
    /// Whether the debug overlay is shown in the title.
    pub debug: bool,
    /// False once an exit was requested.
    pub running: bool,
}

/// The state and command that follow from one poll of the event source.
pub open spec fn next(s: SchedulerState, polled: Option<Event>, joystick: bool) -> (
    SchedulerState,
    Command,
) {
    match polled {
        None => (s, Command::Idle),
        Some(e) => match e {
            Event::Exit => (SchedulerState { running: false, ..s }, Command::Exit),
            Event::GameKey(k, p) => (s, Command::SendKey(k, p)),
            Event::SwitchDebug => (
                SchedulerState { debug: !s.debug, ..s },
                if s.debug {
                    Command::ResetTitle
                } else {
                    Command::Idle
                },
            ),
            Event::ChangeSpeed(v) => (s, Command::SetSpeed(v)),
            Event::Kempston(k, p) => (
                s,
                if joystick {
                    Command::KempstonKey(k, p)
                } else {
                    Command::Idle
                },
            ),
            Event::InsertTape => (s, Command::PlayTape),
            Event::StopTape => (s, Command::StopTape),
            Event::OpenFile(_) => (s, Command::Idle),
        },
    }
}

/// The commands of a run that polls `polls` in turn, one per iteration,
/// until the polls run out or an exit ends the loop.
pub open spec fn run(s: SchedulerState, polls: Seq<Option<Event>>, joystick: bool) -> Seq<Command>
    decreases polls.len(),
{
    if polls.len() == 0 || !s.running {
        Seq::empty()
    } else {
        let (s2, c) = next(s, polls[0], joystick);
        seq![c] + run(s2, polls.drop_first(), joystick)
    }
}

/// The state before iteration `i` of such a run.
pub open spec fn state_before(
    s: SchedulerState,
    polls: Seq<Option<Event>>,
    joystick: bool,
    i: nat,
) -> SchedulerState
    decreases i,
{
    if i == 0 || polls.len() == 0 {
        s
    } else {
        state_before(next(s, polls[0], joystick).0, polls.drop_first(), joystick, (i - 1) as nat)
    }
}

pub open spec fn is_exit(polled: Option<Event>) -> bool {
    match polled {
        Some(Event::Exit) => true,
        _ => false,
    }
}

/// Sleep before the next frame: the time left to the target, shortened to
/// nine tenths while sound plays, rounded down; none once the target is reached.
pub open spec fn sleep_spec(elapsed: nat, target: nat, sound_enabled: bool) -> nat {
    if elapsed < target {
        ((target - elapsed) * (if sound_enabled {
            9nat
        } else {
            10nat
        }) / 10) as nat
    } else {
        0
    }
}

/// Time to sleep before the next frame, in the unit of `elapsed` and `target`.
pub fn sleep_time(elapsed: u64, target: u64, sound_enabled: bool) -> (r: u64)
    ensures
        r as nat == sleep_spec(elapsed as nat, target as nat, sound_enabled),
{
    if elapsed < target {
        let left = target - elapsed;
        let koef: u64 = if sound_enabled {
            9
        } else {
            10
        };
        let tenths = left / 10;
        let rest = left % 10;
        proof {
            let k = koef as int;
            let l = left as int;
            assert(l == 10 * (l / 10) + l % 10);
            assert(l * k == 10 * ((l / 10) * k) + (l % 10) * k) by (nonlinear_arith)
                requires
                    l == 10 * (l / 10) + l % 10,
            ;
            assert((l * k) / 10 == (l / 10) * k + ((l % 10) * k) / 10) by (nonlinear_arith)
                requires
                    l * k == 10 * ((l / 10) * k) + (l % 10) * k,
                    0 <= (l % 10) * k,
            ;
            assert((l / 10) * k <= l) by (nonlinear_arith)
                requires
                    0 <= k <= 10,
                    0 <= l,
                    l == 10 * (l / 10) + l % 10,
                    l % 10 >= 0,
            ;
            assert(((l % 10) * k) / 10 <= l % 10) by (nonlinear_arith)
                requires
                    0 <= k <= 10,
                    0 <= l % 10 < 10,
            ;
        }
        tenths * koef + rest * koef / 10
    } else {
        0
    }
}

/// The loop's control state, advanced by one polled event per iteration.
pub struct FrameScheduler {
    state: SchedulerState,
}

impl FrameScheduler {
    pub closed spec fn view(&self) -> SchedulerState {
        self.state
    }

    /// A scheduler that runs, with the debug overlay off.
    pub fn new() -> (r: FrameScheduler)
        ensures
            r.view() == (SchedulerState { debug: false, running: true }),
    {
        FrameScheduler { state: SchedulerState { debug: false, running: true } }
    }

    pub fn state(&self) -> (r: SchedulerState)
        ensures
            r == self.view(),
    {
        self.state
    }

    pub fn is_running(&self) -> (r: bool)
        ensures
            r == self.view().running,
    {
        self.state.running
    }

    pub fn debug(&self) -> (r: bool)
        ensures
            r == self.view().debug,
    {
        self.state.debug
    }

    /// Reacts to the one event polled in this iteration, if any.
    /// `joystick_attached` tells whether joystick input has a receiver.
    pub fn on_event(&mut self, polled: Option<Event>, joystick_attached: bool) -> (c: Command)
        requires
            old(self).view().running,
        ensures
            (final(self).view(), c) == next(old(self).view(), polled, joystick_attached),
    {
        match polled {
            None => Command::Idle,
            Some(e) => match e {
                Event::Exit => {
                    self.state.running = false;
                    Command::Exit
                },
                Event::GameKey(k, p) => Command::SendKey(k, p),
                Event::SwitchDebug => {
                    let was = self.state.debug;
                    self.state.debug = !was;
                    if was {
                        Command::ResetTitle
                    } else {
                        Command::Idle
                    }
                },
                Event::ChangeSpeed(v) => Command::SetSpeed(v),
                Event::Kempston(k, p) => {
                    if joystick_attached {
                        Command::KempstonKey(k, p)
                    } else {
                        Command::Idle
                    }
                },
                Event::InsertTape => Command::PlayTape,
                Event::StopTape => Command::StopTape,
                Event::OpenFile(_) => Command::Idle,
            },
        }
    }
}

/// Every event but an exit leaves the loop running.
proof fn lemma_only_exit_stops(s: SchedulerState, polled: Option<Event>, joystick: bool)
    ensures
        next(s, polled, joystick).0.running == (s.running && !is_exit(polled)),
{
}

/// A run whose first exit is polled in iteration `n` makes exactly `n`
/// iterations, the last of which exits, and nothing polled after the exit
/// has any effect.
pub proof fn lemma_exit_ends_run(s: SchedulerState, polls: Seq<Option<Event>>, joystick: bool, n: nat)
    requires
        s.running,
        1 <= n <= polls.len(),
        is_exit(polls[n - 1]),
        forall|i: int| 0 <= i < n - 1 ==> !is_exit(#[trigger] polls[i]),
    ensures
        run(s, polls, joystick).len() == n,
        run(s, polls, joystick)[n - 1] == Command::Exit,
        run(s, polls, joystick) == run(s, polls.take(n as int), joystick),
    decreases n,
{
    let (s2, c) = next(s, polls[0], joystick);
    lemma_only_exit_stops(s, polls[0], joystick);
    assert(polls.take(n as int)[0] == polls[0]);
    if n == 1 {
        assert(run(s2, polls.drop_first(), joystick) == Seq::<Command>::empty());
        assert(run(s2, polls.take(1).drop_first(), joystick) == Seq::<Command>::empty());
        assert(run(s, polls, joystick) =~= seq![Command::Exit]);
        assert(run(s, polls.take(1), joystick) =~= seq![Command::Exit]);
    } else {
        let rest = polls.drop_first();
        assert forall|i: int| 0 <= i < n - 2 implies !is_exit(#[trigger] rest[i]) by {
            assert(rest[i] == polls[i + 1]);
        }
        lemma_exit_ends_run(s2, rest, joystick, (n - 1) as nat);
        assert(polls.take(n as int).drop_first() =~= rest.take(n - 1));
        assert(run(s, polls, joystick) =~= seq![c] + run(s2, rest, joystick));
    }
}

/// A run polls once per iteration: it never makes more iterations than
/// there were polls, and its first `n` iterations are those of the run that
/// sees only the first `n` polls. So a burst of `k` queued events takes at
/// least `k` iterations to be seen.
pub proof fn lemma_one_poll_per_iteration(
    s: SchedulerState,
    polls: Seq<Option<Event>>,
    joystick: bool,
    n: nat,
)
    requires
        n <= polls.len(),
    ensures
        run(s, polls, joystick).len() <= polls.len(),
        run(s, polls.take(n as int), joystick).len() <= n,
        run(s, polls.take(n as int), joystick).len() <= run(s, polls, joystick).len(),
        run(s, polls.take(n as int), joystick) == run(s, polls, joystick).take(
            run(s, polls.take(n as int), joystick).len() as int,
        ),
    decreases polls.len(),
{
    if polls.len() == 0 || !s.running {
        assert(run(s, polls.take(n as int), joystick) =~= Seq::<Command>::empty());
    } else {
        let (s2, c) = next(s, polls[0], joystick);
        let rest = polls.drop_first();
        if n == 0 {
            assert(run(s, polls.take(0), joystick) =~= Seq::<Command>::empty());
            lemma_one_poll_per_iteration(s2, rest, joystick, 0);
        } else {
            lemma_one_poll_per_iteration(s2, rest, joystick, (n - 1) as nat);
            assert(polls.take(n as int)[0] == polls[0]);
            assert(polls.take(n as int).drop_first() =~= rest.take(n - 1));
            let short = run(s2, rest.take(n - 1), joystick);
            assert(run(s, polls.take(n as int), joystick) =~= seq![c] + short);
            assert(run(s, polls, joystick) =~= seq![c] + run(s2, rest, joystick));
            let full = run(s2, rest, joystick);
            assert(short == full.take(short.len() as int));
            assert forall|k: int| 0 <= k < short.len() + 1 implies (seq![c] + short)[k] == (seq![c]
                + full)[k] by {
                if k > 0 {
                    assert(short[k - 1] == full[k - 1]);
                }
            }
            assert((seq![c] + short) =~= (seq![c] + full).take(short.len() + 1int));
        }
    }
}

/// Iteration `i` of a run issues a speed change exactly when the event it
/// polled asks for one, with the same speed: each request is passed on once,
/// in its own iteration.
pub proof fn lemma_speed_change_passed_once(
    s: SchedulerState,
    polls: Seq<Option<Event>>,
    joystick: bool,
    i: nat,
    v: EmulationSpeed,
)
    requires
        i < run(s, polls, joystick).len(),
    ensures
        run(s, polls, joystick)[i as int] == Command::SetSpeed(v) <==> polls[i as int] == Some(
            Event::ChangeSpeed(v),
        ),
    decreases i,
{
    lemma_one_poll_per_iteration(s, polls, joystick, 0);
    let (s2, c) = next(s, polls[0], joystick);
    let rest = polls.drop_first();
    assert(run(s, polls, joystick) =~= seq![c] + run(s2, rest, joystick));
    if i > 0 {
        lemma_speed_change_passed_once(s2, rest, joystick, (i - 1) as nat, v);
        assert(rest[i - 1] == polls[i as int]);
    }
}

} // verus!
