//! The reconnect supervisor: when to probe, when to log in, how long to wait.
//!
//! The supervisor decides and the caller acts. The caller hands in what
//! happened as an `Event` and gets back what to do next as an `Action`; it
//! sleeps, probes and logs in, the supervisor never does.

use vstd::prelude::*;

verus! {

/// Milliseconds to wait once, after the start, before the first probe.
pub const GRACE_MILLIS: u64 = 5000;

/// Milliseconds between two probes in steady running.
pub const STEADY_MILLIS: u64 = 3000;

/// Milliseconds to let an accepted login settle before the status is read
/// again.
pub const SETTLE_MILLIS: u64 = 500;

/// Milliseconds to wait after the first login, where it failed.
pub const EXTENDED_MILLIS: u64 = 2000;

/// Where the supervisor stands.
#[derive(Clone, Copy, Debug, PartialEq, Eq, Structural)]
pub enum SupervisorState {
    /// Waiting for the next tick.
    Idle,
    /// A probe is under way.
    Probing,
    /// A probe found the host offline with credentials at hand.
    AuthRequired,
    /// A login is under way.
    Authenticating,
    /// Waiting after the first login failed.
    Backoff,
}

/// What the caller reports.
#[derive(Clone, Copy, Debug, PartialEq, Eq, Structural)]
pub enum Event {
    /// The wait that was asked for is over; at the start, nothing has happened
    /// yet.
    Tick,
    /// A probe ended: whether the host is online, and whether an account name
    /// and a password are configured.
    Probed { online: bool, credentials_ready: bool },
    /// A login ended: whether the portal accepted it.
    LoginFinished { accepted: bool },
}

/// What the caller is to do next.
#[derive(Clone, Copy, Debug, PartialEq, Eq, Structural)]
pub enum Action {
    /// Sleep, then report a tick.
    Wait { millis: u64 },
    /// Probe the portal, then report what was found.
    Probe,
    /// Log in, then report how it ended.
    Login,
}

/// The supervisor as plain values.
pub struct Machine {
    pub state: SupervisorState,
    /// The wait at the start has been asked for.
    pub grace_observed: bool,
    /// No login has been tried yet.
    pub first_attempt_pending: bool,
    /// The next probe only refreshes the status after an accepted login.
    pub refreshing: bool,
}

/// The supervisor's memory between two events.
pub struct Supervisor {
    state: SupervisorState,
    grace_observed: bool,
    first_attempt_pending: bool,
    refreshing: bool,
}

impl View for Supervisor {
    type V = Machine;

    closed spec fn view(&self) -> Machine {
        Machine {
            state: self.state,
            grace_observed: self.grace_observed,
            first_attempt_pending: self.first_attempt_pending,
            refreshing: self.refreshing,
        }
    }
}

/// The supervisor at the start: idle, nothing observed, nothing tried.
pub open spec fn start() -> Machine {
    Machine {
        state: SupervisorState::Idle,
        grace_observed: false,
        first_attempt_pending: true,
        refreshing: false,
    }
}

/// Back to idle for the steady interval.
pub open spec fn rest(m: Machine) -> (Machine, Option<Action>) {
    (
        Machine { state: SupervisorState::Idle, refreshing: false, ..m },
        Some(Action::Wait { millis: STEADY_MILLIS }),
    )
}

/// A tick. The first one asks for the wait at the start, once. Every later one
/// starts a probe, from idle and from the back-off alike. It is ignored while
/// a probe or a login is under way.
pub open spec fn on_tick(m: Machine) -> (Machine, Option<Action>) {
    match m.state {
        SupervisorState::Idle => if !m.grace_observed {
            (Machine { grace_observed: true, ..m }, Some(Action::Wait { millis: GRACE_MILLIS }))
        } else {
            (Machine { state: SupervisorState::Probing, ..m }, Some(Action::Probe))
        },
        SupervisorState::Backoff => (
            Machine { state: SupervisorState::Probing, ..m },
            Some(Action::Probe),
        ),
        _ => (m, None),
    }
}

/// True when a probe with this finding calls for a login: the host is
/// offline, credentials are configured, the wait at the start is behind, and
/// the probe was not the one that refreshes the status after a login.
pub open spec fn login_due(m: Machine, online: bool, credentials_ready: bool) -> bool {
    !m.refreshing && !online && credentials_ready && m.grace_observed
}

/// From the need to log in to the login itself, at once.
pub open spec fn authenticate(m: Machine) -> (Machine, Option<Action>)
    recommends
        m.state == SupervisorState::AuthRequired,
{
    (Machine { state: SupervisorState::Authenticating, ..m }, Some(Action::Login))
}

/// The end of a probe. Where a login is due the supervisor passes through
/// `AuthRequired` into `Authenticating`; else it rests for the steady
/// interval. It is ignored unless a probe is under way.
pub open spec fn on_probed(m: Machine, online: bool, credentials_ready: bool) -> (
    Machine,
    Option<Action>,
) {
    if m.state != SupervisorState::Probing {
        (m, None)
    } else if login_due(m, online, credentials_ready) {
        authenticate(Machine { state: SupervisorState::AuthRequired, ..m })
    } else {
        rest(m)
    }
}

/// The end of a login. Accepted: idle for the settle delay, and the next probe
/// refreshes the status. Failed for the first login ever tried: back off for
/// the extended interval. Failed later: rest for the steady interval. Either
/// way a login has now been tried. It is ignored unless a login is under way.
pub open spec fn on_login_finished(m: Machine, accepted: bool) -> (Machine, Option<Action>) {
    if m.state != SupervisorState::Authenticating {
        (m, None)
    } else if accepted {
        (
            Machine {
                state: SupervisorState::Idle,
                first_attempt_pending: false,
                refreshing: true,
                ..m
            },
            Some(Action::Wait { millis: SETTLE_MILLIS }),
        )
    } else if m.first_attempt_pending {
        (
            Machine { state: SupervisorState::Backoff, first_attempt_pending: false, ..m },
            Some(Action::Wait { millis: EXTENDED_MILLIS }),
        )
    } else {
        rest(m)
    }
}

/// The supervisor after an event, and what the caller is to do; no action
/// where the event does not fit the state, which then stays as it is.
pub open spec fn next(m: Machine, event: Event) -> (Machine, Option<Action>) {
    match event {
        Event::Tick => on_tick(m),
        Event::Probed { online, credentials_ready } => on_probed(m, online, credentials_ready),
        Event::LoginFinished { accepted } => on_login_finished(m, accepted),
    }
}

/// True when the state waits for this kind of event.
pub open spec fn expects(state: SupervisorState, event: Event) -> bool {
    match event {
        Event::Tick => state == SupervisorState::Idle || state == SupervisorState::Backoff,
        Event::Probed { .. } => state == SupervisorState::Probing,
        Event::LoginFinished { .. } => state == SupervisorState::Authenticating,
    }
}

impl Machine {
    /// What holds of the supervisor between any two events: it never rests in
    /// `AuthRequired`, it has asked for the wait at the start before it leaves
    /// idle for the first time, and a refreshing probe is pending only while
    /// idle or probing.
    pub open spec fn well_formed(self) -> bool {
        &&& self.state != SupervisorState::AuthRequired
        &&& self.state != SupervisorState::Idle ==> self.grace_observed
        &&& self.refreshing ==> (self.state == SupervisorState::Idle || self.state
            == SupervisorState::Probing)
        &&& self.refreshing ==> !self.first_attempt_pending
    }
}

/// The supervisor after a run of events, from left to right.
pub open spec fn run(m: Machine, events: Seq<Event>) -> Machine
    decreases events.len(),
{
    if events.len() == 0 {
        m
    } else {
        next(run(m, events.drop_last()), events.last()).0
    }
}

/// How often a run of events makes the supervisor ask for the extended wait.
pub open spec fn extended_waits(m: Machine, events: Seq<Event>) -> nat
    decreases events.len(),
{
    if events.len() == 0 {
        0
    } else {
        let before = run(m, events.drop_last());
        let asked: nat = if next(before, events.last()).1 == Some(
            Action::Wait { millis: EXTENDED_MILLIS },
        ) {
            1
        } else {
            0
        };
        extended_waits(m, events.drop_last()) + asked
    }
}

/// The supervisor starts well formed and every event keeps it so.
pub proof fn lemma_well_formed_kept(m: Machine, event: Event)
    requires
        m.well_formed(),
    ensures
        start().well_formed(),
        next(m, event).0.well_formed(),
{
}

/// No event stops the supervisor: one that fits the state gets an action, and
/// one that does not is ignored.
pub proof fn lemma_never_stops(m: Machine, event: Event)
    ensures
        expects(m.state, event) <==> next(m, event).1 is Some,
        !expects(m.state, event) ==> next(m, event).0 == m,
{
}

/// Where the first login ever tried fails, the supervisor asks for the
/// extended wait, not the steady one, and the tick after it starts a probe at
/// once; no later login gets that wait.
pub proof fn lemma_first_failure_backs_off(m: Machine)
    requires
        m.state == SupervisorState::Authenticating,
    ensures
        ({
            let (after, action) = next(m, Event::LoginFinished { accepted: false });
            if m.first_attempt_pending {
                &&& action == Some(Action::Wait { millis: EXTENDED_MILLIS })
                &&& after.state == SupervisorState::Backoff
                &&& next(after, Event::Tick).1 == Some(Action::Probe)
                &&& next(after, Event::Tick).0.state == SupervisorState::Probing
            } else {
                &&& action == Some(Action::Wait { millis: STEADY_MILLIS })
                &&& after.state == SupervisorState::Idle
            }
        }),
        !next(m, Event::LoginFinished { accepted: false }).0.first_attempt_pending,
        !next(m, Event::LoginFinished { accepted: true }).0.first_attempt_pending,
{
}

/// Once a login has been tried, no run of events brings the first attempt
/// back.
pub proof fn lemma_first_attempt_spent(m: Machine, events: Seq<Event>)
    requires
        !m.first_attempt_pending,
    ensures
        !run(m, events).first_attempt_pending,
    decreases events.len(),
{
    if events.len() > 0 {
        lemma_first_attempt_spent(m, events.drop_last());
    }
}

/// Whatever happens, the supervisor asks for the extended wait at most once,
/// and never after a login has been tried.
pub proof fn lemma_single_extended_wait(m: Machine, events: Seq<Event>)
    ensures
        extended_waits(m, events) <= 1,
        !m.first_attempt_pending ==> extended_waits(m, events) == 0,
        extended_waits(m, events) == 1 ==> !run(m, events).first_attempt_pending,
    decreases events.len(),
{
    if events.len() > 0 {
        lemma_single_extended_wait(m, events.drop_last());
        if !m.first_attempt_pending {
            lemma_first_attempt_spent(m, events.drop_last());
        }
    }
}

impl Supervisor {
    /// The supervisor at the start.
    pub fn new() -> (supervisor: Self)
        ensures
            supervisor@ == start(),
            supervisor@.well_formed(),
    {
        Supervisor {
            state: SupervisorState::Idle,
            grace_observed: false,
            first_attempt_pending: true,
            refreshing: false,
        }
    }

    /// Where the supervisor stands.
    pub fn state(&self) -> (state: SupervisorState)
        ensures
            state == self@.state,
    {
        self.state
    }

    /// True until the first login has been tried.
    pub fn first_attempt_pending(&self) -> (pending: bool)
        ensures
            pending == self@.first_attempt_pending,
    {
        self.first_attempt_pending
    }

    /// Rests for the steady interval.
    fn rest(&mut self) -> (action: Option<Action>)
        ensures
            (final(self)@, action) == rest(old(self)@),
    {
        self.state = SupervisorState::Idle;
        self.refreshing = false;
        Some(Action::Wait { millis: STEADY_MILLIS })
    }

    /// Starts the login that a probe called for.
    fn authenticate(&mut self) -> (action: Option<Action>)
        requires
            old(self)@.state == SupervisorState::AuthRequired,
        ensures
            (final(self)@, action) == authenticate(old(self)@),
    {
        self.state = SupervisorState::Authenticating;
        Some(Action::Login)
    }

    /// Takes an event and says what to do next.
    pub fn step(&mut self, event: Event) -> (action: Option<Action>)
        ensures
            (final(self)@, action) == next(old(self)@, event),
            old(self)@.well_formed() ==> final(self)@.well_formed(),
            action is Some <==> expects(old(self)@.state, event),
    {
        match event {
            Event::Tick => match self.state {
                SupervisorState::Idle => {
                    if !self.grace_observed {
                        self.grace_observed = true;
                        Some(Action::Wait { millis: GRACE_MILLIS })
                    } else {
                        self.state = SupervisorState::Probing;
                        Some(Action::Probe)
                    }
                },
                SupervisorState::Backoff => {
                    self.state = SupervisorState::Probing;
                    Some(Action::Probe)
                },
                _ => None,
            },
            Event::Probed { online, credentials_ready } => {
                if self.state != SupervisorState::Probing {
                    None
                } else if !self.refreshing && !online && credentials_ready && self.grace_observed {
                    self.state = SupervisorState::AuthRequired;
                    self.authenticate()
                } else {
                    self.rest()
                }
            },
            Event::LoginFinished { accepted } => {
                if self.state != SupervisorState::Authenticating {
                    None
                } else if accepted {
                    self.state = SupervisorState::Idle;
                    self.first_attempt_pending = false;
                    self.refreshing = true;
                    Some(Action::Wait { millis: SETTLE_MILLIS })
                } else if self.first_attempt_pending {
                    self.state = SupervisorState::Backoff;
                    self.first_attempt_pending = false;
                    Some(Action::Wait { millis: EXTENDED_MILLIS })
                } else {
                    self.rest()
                }
            },
        }
    }
}

} // verus!
