//! When the application ends, and what its supervisor does next.

use vstd::prelude::*;
use vstd::string::*;

verus! {

/// What one round of supervision decides.
#[derive(Debug, Clone, Copy, PartialEq, Eq, Structural)]
pub enum SupervisorAction {
    /// End the event loop.
    Exit,
    /// Close every window: nothing will ever draw them again.
    CloseAll,
    /// Wait for the next message.
    Wait,
}

/// The decision of one round.
pub open spec fn supervisor_action(
    main_done: bool,
    all_loops_done: bool,
    windows_settled: bool,
    all_closed: bool,
    device_lost: bool,
    open_windows: nat,
    pending_creates: nat,
) -> SupervisorAction {
    if device_lost || all_closed || (main_done && all_loops_done && windows_settled) {
        SupervisorAction::Exit
    } else if main_done && all_loops_done && open_windows > 0 && pending_creates == 0 {
        SupervisorAction::CloseAll
    } else {
        SupervisorAction::Wait
    }
}

/// Decides one round: exit when the main task and all loops are done and the
/// windows settled, when every window was closed, or when the device is lost;
/// otherwise close all windows that nothing drives any more; otherwise wait.
pub fn decide_supervisor_action(
    main_done: bool,
    all_loops_done: bool,
    windows_settled: bool,
    all_closed: bool,
    device_lost: bool,
    open_windows: usize,
    pending_creates: usize,
) -> (r: SupervisorAction)
    ensures
        r == supervisor_action(
            main_done,
            all_loops_done,
            windows_settled,
            all_closed,
            device_lost,
            open_windows as nat,
            pending_creates as nat,
        ),
{
    if (main_done && all_loops_done && windows_settled) || all_closed || device_lost {
        SupervisorAction::Exit
    } else if main_done && all_loops_done && pending_creates == 0 && open_windows > 0 {
        SupervisorAction::CloseAll
    } else {
        SupervisorAction::Wait
    }
}

/// What the supervisor sees of the application when its queue is empty.
#[derive(Debug)]
pub struct Snapshot {
    pub main_done: bool,
    /// Whether any loop was ever started.
    pub loops_requested: bool,
    /// For each loop that was started, whether it has ended.
    pub loops_done: Vec<bool>,
    pub window_count: usize,
    pub pending_creates: usize,
    pub device_lost: bool,
}

impl Snapshot {
    /// Whether no loop is running and none is about to start.
    pub open spec fn all_loops_done(self) -> bool {
        self.loops_requested ==> self.loops_done@.len() > 0 && forall|i: int|
            0 <= i < self.loops_done@.len() ==> self.loops_done@[i]
    }

    fn loops_are_done(&self) -> (r: bool)
        ensures
            r == self.all_loops_done(),
    {
        if !self.loops_requested {
            return true;
        }
        if self.loops_done.len() == 0 {
            return false;
        }
        let mut i: usize = 0;
        while i < self.loops_done.len()
            invariant
                i <= self.loops_done.len(),
                forall|j: int| 0 <= j < i ==> self.loops_done@[j],
                self.loops_requested,
            decreases self.loops_done.len() - i,
        {
            if !self.loops_done[i] {
                return false;
            }
            i = i + 1;
        }
        true
    }
}

/// What happened at the supervisor's queue.
#[derive(Debug)]
pub enum SupervisorInput {
    /// A message was taken and applied; whether it brought a new window.
    Applied { is_created: bool },
    /// The queue is empty.
    Empty { seen: Snapshot },
    /// Every sender is gone.
    Disconnected,
}

/// What the supervisor does next.
#[derive(Debug, Clone, Copy, PartialEq, Eq, Structural)]
pub enum SupervisorStep {
    /// Look at the queue without waiting.
    Poll,
    /// Count one window request as served and wake the loops; then look at the
    /// queue without waiting.
    ServeThenPoll,
    /// Wait for a message.
    Block,
    /// Close every open window; then look at the queue without waiting.
    CloseAllThenPoll,
    /// Tell the event loop to end, and stop.
    Exit,
    /// Stop.
    Stop,
}

/// The supervisor between two looks at its queue.
#[derive(Debug, Clone, Copy, PartialEq, Eq, Structural)]
pub struct Supervisor {
    /// How many windows have come.
    pub created_windows: usize,
    /// How many windows to wait for before the loops start.
    pub expected_windows: usize,
    /// Whether this round has taken a message without waiting.
    pub processed: bool,
    /// Whether the supervisor is waiting for a message.
    pub blocked: bool,
}

impl Supervisor {
    /// Whether all windows have come that the loops wait for.
    pub open spec fn ready(self) -> bool {
        self.created_windows >= self.expected_windows
    }

    /// What a round decides on what it sees.
    pub open spec fn decision(self, seen: Snapshot) -> SupervisorAction {
        let none_left = seen.window_count == 0 && seen.pending_creates == 0;
        supervisor_action(
            seen.main_done,
            seen.all_loops_done(),
            self.ready() && none_left,
            self.created_windows > 0 && none_left,
            seen.device_lost,
            seen.window_count as nat,
            seen.pending_creates as nat,
        )
    }

    /// The supervisor after `input`, and what it does.
    pub open spec fn transition(self, input: SupervisorInput) -> (Supervisor, SupervisorStep) {
        match input {
            SupervisorInput::Applied { is_created } => (
                Supervisor {
                    created_windows: if is_created {
                        (self.created_windows + 1) as usize
                    } else {
                        self.created_windows
                    },
                    processed: !self.blocked,
                    blocked: false,
                    ..self
                },
                if is_created {
                    SupervisorStep::ServeThenPoll
                } else {
                    SupervisorStep::Poll
                },
            ),
            SupervisorInput::Disconnected => (self, SupervisorStep::Stop),
            SupervisorInput::Empty { seen } => match self.decision(seen) {
                SupervisorAction::Exit => (self, SupervisorStep::Exit),
                SupervisorAction::CloseAll => (
                    Supervisor { processed: false, blocked: false, ..self },
                    SupervisorStep::CloseAllThenPoll,
                ),
                SupervisorAction::Wait => (
                    Supervisor { processed: false, blocked: !self.processed, ..self },
                    if self.processed {
                        SupervisorStep::Poll
                    } else {
                        SupervisorStep::Block
                    },
                ),
            },
        }
    }

    /// A supervisor that waits for `expected_windows` windows.
    pub fn new(expected_windows: usize) -> (r: Self)
        ensures
            r == (Supervisor {
                created_windows: 0,
                expected_windows,
                processed: false,
                blocked: false,
            }),
    {
        Supervisor { created_windows: 0, expected_windows, processed: false, blocked: false }
    }

    /// Whether all windows have come that the loops wait for.
    pub fn windows_ready(&self) -> (r: bool)
        ensures
            r == self.ready(),
    {
        self.created_windows >= self.expected_windows
    }

    /// Takes note of what happened at the queue and says what to do next.
    pub fn step(&mut self, input: SupervisorInput) -> (r: SupervisorStep)
        requires
            old(self).created_windows < usize::MAX,
        ensures
            (*final(self), r) == old(self).transition(input),
    {
        match input {
            SupervisorInput::Applied { is_created } => {
                self.processed = !self.blocked;
                self.blocked = false;
                if is_created {
                    self.created_windows = self.created_windows + 1;
                    SupervisorStep::ServeThenPoll
                } else {
                    SupervisorStep::Poll
                }
            },
            SupervisorInput::Disconnected => SupervisorStep::Stop,
            SupervisorInput::Empty { seen } => {
                let none_left = seen.window_count == 0 && seen.pending_creates == 0;
                let action = decide_supervisor_action(
                    seen.main_done,
                    seen.loops_are_done(),
                    self.windows_ready() && none_left,
                    self.created_windows > 0 && none_left,
                    seen.device_lost,
                    seen.window_count,
                    seen.pending_creates,
                );
                match action {
                    SupervisorAction::Exit => SupervisorStep::Exit,
                    SupervisorAction::CloseAll => {
                        self.processed = false;
                        self.blocked = false;
                        SupervisorStep::CloseAllThenPoll
                    },
                    SupervisorAction::Wait => {
                        let poll = self.processed;
                        self.processed = false;
                        self.blocked = !poll;
                        if poll {
                            SupervisorStep::Poll
                        } else {
                            SupervisorStep::Block
                        }
                    },
                }
            },
        }
    }

    /// Law: a lost device ends the application, whatever else holds.
    pub proof fn lemma_lost_device_exits(self, seen: Snapshot)
        requires
            seen.device_lost,
        ensures
            self.transition(SupervisorInput::Empty { seen }).1 == SupervisorStep::Exit,
    {
    }

    /// Law: windows are never closed by the supervisor while a window is still
    /// on its way, while a loop runs, or before the main task is done.
    pub proof fn lemma_close_all_only_when_abandoned(self, seen: Snapshot)
        requires
            self.transition(SupervisorInput::Empty { seen }).1 == SupervisorStep::CloseAllThenPoll,
        ensures
            seen.main_done,
            seen.all_loops_done(),
            seen.pending_creates == 0,
            seen.window_count > 0,
    {
    }

    /// Law: once a round closes all windows, the next round that sees none left
    /// exits.
    pub proof fn lemma_close_all_leads_to_exit(self, seen: Snapshot, after: Snapshot)
        requires
            self.created_windows > 0 || self.expected_windows == 0,
            self.transition(SupervisorInput::Empty { seen }).1 == SupervisorStep::CloseAllThenPoll,
            after.window_count == 0,
            after.pending_creates == 0,
            after.main_done == seen.main_done,
            after.all_loops_done() == seen.all_loops_done(),
        ensures
            self.transition(SupervisorInput::Empty { seen }).0.transition(
                SupervisorInput::Empty { seen: after },
            ).1 == SupervisorStep::Exit,
    {
    }
}

/// The text of a panic: the string it was raised with, in either of its two
/// forms, or a stand-in.
pub fn panic_payload_to_string(as_str: Option<&str>, as_string: Option<&String>) -> (r: String)
    ensures
        r@ == (match (as_str, as_string) {
            (Some(s), _) => s@,
            (None, Some(s)) => s@,
            (None, None) => "<non-string panic payload>"@,
        }),
{
    match as_str {
        Some(s) => String::from_str(s),
        None => match as_string {
            Some(s) => s.clone(),
            None => String::from_str("<non-string panic payload>"),
        },
    }
}

/// The name of a thread: its own, or `vireo-thread-` and its number.
pub fn thread_name(name: Option<String>, number: usize) -> (r: String)
    ensures
        r@ == (match name {
            Some(name) => name@,
            None => "vireo-thread-"@ + crate::decimal::decimal_text(number as nat),
        }),
{
    match name {
        Some(name) => name,
        None => {
            let mut text = String::from_str("vireo-thread-");
            let digits = crate::decimal::decimal_string(number as u64);
            text.append(digits.as_str());
            text
        },
    }
}

/// The tick rate limit of a thread: its own, or that of the application.
pub fn thread_tps(own: Option<u32>, max_fps: Option<u32>) -> (r: Option<u32>)
    ensures
        r == (if own is Some {
            own
        } else {
            max_fps
        }),
{
    match own {
        Some(_) => own,
        None => max_fps,
    }
}

} // verus!
