//! The delivery worker as a state machine.
//!
//! The worker waits for a message (`Running`), posts a payload (`Delivering`),
//! sleeps after a transport failure (`Backoff`), and stops for good
//! (`Terminated`). Any HTTP response, whatever its status, ends the retries of
//! a message; only transport failures are retried.
//!
//! The shutdown sentinel is read only between messages, so a message whose
//! retries are under way (its backoff sleeps included) is finished first.
use vstd::prelude::*;
use crate::message::{json_text_of, EncodeError, WorkerMessage};

verus! {

/// Attempts made for one message before it is dropped.
pub const MAX_RETRIES: u32 = 10;

/// Delay after the first failed attempt; each later failure doubles it.
pub const BACKOFF_BASE_MS: u64 = 100;

pub open spec fn pow2(n: nat) -> nat
    decreases n,
{
    if n == 0 {
        1
    } else {
        2 * pow2((n - 1) as nat)
    }
}

/// The sleep that follows failed attempt number `attempt` (counted from 0).
pub open spec fn backoff_ms(attempt: nat) -> nat {
    (BACKOFF_BASE_MS * pow2(attempt)) as nat
}

/// Where the worker stands.
#[derive(Debug, PartialEq, Eq)]
pub enum WorkerState {
    /// Waiting for the next message.
    Running,
    /// Attempt number `attempt` of posting `body` to `url` is due or in flight.
    Delivering { url: String, body: String, attempt: u32 },
    /// Sleeping after the failure of attempt number `attempt`.
    Backoff { url: String, body: String, attempt: u32 },
    /// Stopped; nothing more is done.
    Terminated,
}

/// What happened since the last action.
#[derive(Debug, PartialEq, Eq)]
pub enum WorkerEvent {
    /// A data message was dequeued; `wire` is its body in wire form.
    Data { url: String, wire: Result<String, EncodeError> },
    /// The shutdown sentinel was dequeued.
    Shutdown,
    /// The queue is closed and empty.
    Closed,
    /// The POST request got an HTTP response, whatever its status.
    Responded,
    /// The POST request failed at the transport level.
    TransportFailed,
    /// The backoff sleep is over.
    Slept,
}

/// What the driver of the worker does next.
#[derive(Debug, PartialEq, Eq)]
pub enum WorkerAction {
    /// Wait for the next message on the queue.
    Receive,
    /// POST `body` to `url` with `Content-Type: application/json`.
    Post { url: String, body: String, attempt: u32 },
    /// Sleep for `ms` milliseconds.
    Sleep { ms: u64 },
    /// Report that the message for `url` was dropped, then wait for the next one.
    ReportDropped { url: String },
    /// A payload could not be encoded: a bug upstream, fatal to the worker.
    Abort,
    /// Stop the worker.
    Exit,
}

impl WorkerState {
    /// Attempt numbers stay below `MAX_RETRIES`.
    pub open spec fn valid(self) -> bool {
        match self {
            WorkerState::Delivering { attempt, .. } => attempt < MAX_RETRIES,
            WorkerState::Backoff { attempt, .. } => attempt < MAX_RETRIES,
            _ => true,
        }
    }
}

/// One transition. An event that the state does not wait for changes nothing
/// and asks again for the pending action.
pub open spec fn next(s: WorkerState, e: WorkerEvent) -> (WorkerState, WorkerAction) {
    match s {
        WorkerState::Running => match e {
            WorkerEvent::Data { url, wire } => match wire {
                Ok(body) => (
                    WorkerState::Delivering { url, body, attempt: 0 },
                    WorkerAction::Post { url, body, attempt: 0 },
                ),
                Err(_) => (WorkerState::Terminated, WorkerAction::Abort),
            },
            WorkerEvent::Shutdown => (WorkerState::Terminated, WorkerAction::Exit),
            WorkerEvent::Closed => (WorkerState::Terminated, WorkerAction::Exit),
            _ => (WorkerState::Running, WorkerAction::Receive),
        },
        WorkerState::Delivering { url, body, attempt } => match e {
            WorkerEvent::Responded => (WorkerState::Running, WorkerAction::Receive),
            WorkerEvent::TransportFailed => (
                WorkerState::Backoff { url, body, attempt },
                WorkerAction::Sleep { ms: backoff_ms(attempt as nat) as u64 },
            ),
            _ => (s, WorkerAction::Post { url, body, attempt }),
        },
        WorkerState::Backoff { url, body, attempt } => match e {
            WorkerEvent::Slept => if attempt + 1 < MAX_RETRIES {
                (
                    WorkerState::Delivering { url, body, attempt: (attempt + 1) as u32 },
                    WorkerAction::Post { url, body, attempt: (attempt + 1) as u32 },
                )
            } else {
                (WorkerState::Running, WorkerAction::ReportDropped { url })
            },
            _ => (s, WorkerAction::Sleep { ms: backoff_ms(attempt as nat) as u64 }),
        },
        WorkerState::Terminated => (WorkerState::Terminated, WorkerAction::Exit),
    }
}

proof fn lemma_pow2_monotone(a: nat, b: nat)
    requires
        a <= b,
    ensures
        pow2(a) <= pow2(b),
    decreases b,
{
    if a < b {
        lemma_pow2_monotone(a, (b - 1) as nat);
    }
}

/// The backoff delay, in milliseconds, after failed attempt number `attempt`.
pub fn backoff_delay_ms(attempt: u32) -> (r: u64)
    requires
        attempt < MAX_RETRIES,
    ensures
        r == backoff_ms(attempt as nat),
{
    proof {
        assert(pow2(9) == 512) by {
            reveal_with_fuel(pow2, 10);
        }
    }
    let mut delay: u64 = BACKOFF_BASE_MS;
    let mut i: u32 = 0;
    while i < attempt
        invariant
            i <= attempt,
            attempt < MAX_RETRIES,
            pow2(9) == 512,
            delay == BACKOFF_BASE_MS * pow2(i as nat),
        decreases attempt - i,
    {
        proof {
            lemma_pow2_monotone(i as nat, 8);
            lemma_pow2_monotone(8, 9);
        }
        delay = delay * 2;
        i = i + 1;
    }
    delay
}

fn transition(s: WorkerState, e: WorkerEvent) -> (r: (WorkerState, WorkerAction))
    requires
        s.valid(),
    ensures
        r == next(s, e),
        r.0.valid(),
{
    match s {
        WorkerState::Running => match e {
            WorkerEvent::Data { url, wire } => match wire {
                Ok(body) => {
                    let a = WorkerAction::Post { url: url.clone(), body: body.clone(), attempt: 0 };
                    (WorkerState::Delivering { url, body, attempt: 0 }, a)
                },
                Err(_) => (WorkerState::Terminated, WorkerAction::Abort),
            },
            WorkerEvent::Shutdown => (WorkerState::Terminated, WorkerAction::Exit),
            WorkerEvent::Closed => (WorkerState::Terminated, WorkerAction::Exit),
            _ => (WorkerState::Running, WorkerAction::Receive),
        },
        WorkerState::Delivering { url, body, attempt } => match e {
            WorkerEvent::Responded => (WorkerState::Running, WorkerAction::Receive),
            WorkerEvent::TransportFailed => {
                let ms = backoff_delay_ms(attempt);
                (WorkerState::Backoff { url, body, attempt }, WorkerAction::Sleep { ms })
            },
            _ => {
                let a = WorkerAction::Post { url: url.clone(), body: body.clone(), attempt };
                (WorkerState::Delivering { url, body, attempt }, a)
            },
        },
        WorkerState::Backoff { url, body, attempt } => match e {
            WorkerEvent::Slept => if attempt + 1 < MAX_RETRIES {
                let a = WorkerAction::Post {
                    url: url.clone(),
                    body: body.clone(),
                    attempt: attempt + 1,
                };
                (WorkerState::Delivering { url, body, attempt: attempt + 1 }, a)
            } else {
                (WorkerState::Running, WorkerAction::ReportDropped { url })
            },
            _ => {
                let ms = backoff_delay_ms(attempt);
                (WorkerState::Backoff { url, body, attempt }, WorkerAction::Sleep { ms })
            },
        },
        WorkerState::Terminated => (WorkerState::Terminated, WorkerAction::Exit),
    }
}

/// Turns what the queue handed out (`None`: closed and empty) into an event,
/// encoding the body of a data message.
pub fn received(msg: Option<WorkerMessage>) -> (e: WorkerEvent)
    ensures
        match msg {
            None => e == WorkerEvent::Closed,
            Some(WorkerMessage::Shutdown) => e == WorkerEvent::Shutdown,
            Some(WorkerMessage::Data(p)) => e matches WorkerEvent::Data { url, wire } && url@
                == p.url_spec() && wire is Ok && wire->Ok_0@ == json_text_of(p.body_spec()),
        },
{
    match msg {
        None => WorkerEvent::Closed,
        Some(WorkerMessage::Shutdown) => WorkerEvent::Shutdown,
        Some(WorkerMessage::Data(p)) => {
            let wire = p.wire_body();
            WorkerEvent::Data { url: p.webhook_url().to_string(), wire }
        },
    }
}

/// The delivery worker's state, driven one event at a time.
pub struct Worker {
    state: WorkerState,
}

impl View for Worker {
    type V = WorkerState;

    closed spec fn view(&self) -> WorkerState {
        self.state
    }
}

impl Worker {
    #[verifier::type_invariant]
    spec fn well_formed(self) -> bool {
        self.state.valid()
    }

    /// A worker waiting for its first message.
    pub fn new() -> (w: Worker)
        ensures
            w@ == WorkerState::Running,
    {
        Worker { state: WorkerState::Running }
    }

    /// Takes one event and returns the action to perform next.
    pub fn step(&mut self, event: WorkerEvent) -> (a: WorkerAction)
        ensures
            (final(self)@, a) == next(old(self)@, event),
            final(self)@.valid(),
    {
        proof {
            use_type_invariant(&*self);
        }
        let mut s = WorkerState::Terminated;
        std::mem::swap(&mut s, &mut self.state);
        let (ns, a) = transition(s, event);
        self.state = ns;
        a
    }

    /// Where the worker stands.
    pub fn state(&self) -> (r: &WorkerState)
        ensures
            *r == self@,
    {
        &self.state
    }

    /// Whether the worker has stopped for good.
    pub fn is_terminated(&self) -> (r: bool)
        ensures
            r == (self@ is Terminated),
    {
        match self.state {
            WorkerState::Terminated => true,
            _ => false,
        }
    }
}

} // verus!
