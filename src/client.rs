//! The per-connection state machine. Readiness events set the state; each
//! `poll` turn acts on it. The socket I/O and the worker threads stay with
//! the caller: this machine says what to do, and is told what happened.
use vstd::prelude::*;
use vstd::string::*;

use crate::command::{select_command, selected, CommandKind};

verus! {

/// The connection state machine's alphabet. Before the first `poll` a
/// connection has no state at all.
#[derive(Debug)]
pub enum ClientStates {
    Waiting,
    ReadCommand,
    RunningCommand,
    /// The bytes of the response that have not been written yet.
    WriteOutput(Vec<u8>),
    ToBeClosed,
    Close,
    Closed,
}

/// The position of a state in the transition table; `0` is the state before
/// the first `poll`.
pub open spec fn label(s: Option<ClientStates>) -> int {
    match s {
        None => 0,
        Some(ClientStates::Waiting) => 1,
        Some(ClientStates::ReadCommand) => 2,
        Some(ClientStates::RunningCommand) => 3,
        Some(ClientStates::WriteOutput(_)) => 4,
        Some(ClientStates::ToBeClosed) => 5,
        Some(ClientStates::Close) => 6,
        Some(ClientStates::Closed) => 7,
    }
}

/// The transition table: staying put, or one of its edges.
pub open spec fn edge(a: int, b: int) -> bool {
    ||| a == b
    ||| a == 0 && b == 1
    ||| a == 1 && b == 2
    ||| a == 2 && (b == 3 || b == 4 || b == 5)
    ||| a == 3 && b == 4
    ||| a == 4 && (b == 1 || b == 5)
    ||| a == 5 && b == 6
    ||| a == 6 && b == 7
}

pub open spec fn step_allowed(from: Option<ClientStates>, to: Option<ClientStates>) -> bool {
    edge(label(from), label(to))
}

/// A history of state labels: it starts before the first `poll` and moves
/// only along the transition table.
pub open spec fn is_path(labels: Seq<int>) -> bool {
    &&& labels.len() > 0
    &&& labels[0] == 0
    &&& forall|i: int| 0 <= i < labels.len() - 1 ==> edge(labels[i], #[trigger] labels[i + 1])
}

/// A step either leaves the history as it was or adds the new state's label.
pub open spec fn recorded(before: Seq<int>, after: Seq<int>, now: Option<ClientStates>) -> bool {
    after == before || after == before.push(label(now))
}

/// The answer to a line that no command claims.
pub open spec fn invalid_command() -> Seq<u8> {
    seq![105u8, 110, 118, 97, 108, 105, 100, 32, 99, 111, 109, 109, 97, 110, 100]
}

/// A complete request line: it ends with its `\n`.
pub open spec fn is_complete_line(t: Seq<char>) -> bool {
    t.len() > 0 && t.last() == '\n'
}

/// What the caller is to do after a transition.
#[derive(Debug)]
pub struct Step {
    /// Put the connection on the run queue.
    pub schedule: bool,
    /// Wait for the connection's worker to finish.
    pub join_worker: bool,
    /// Start a worker that runs this command on the line just read.
    pub spawn: Option<CommandKind>,
    /// Register the connection's socket with the poller.
    pub register: bool,
    /// Deregister the socket and retire the connection.
    pub retire: bool,
}

/// The bytes held by a `WriteOutput` state.
pub open spec fn payload(s: Option<ClientStates>) -> Seq<u8> {
    match s {
        Some(ClientStates::WriteOutput(p)) => p@,
        _ => Seq::empty(),
    }
}

pub open spec fn quiet(s: Step) -> bool {
    !s.schedule && !s.join_worker && s.spawn.is_none() && !s.register && !s.retire
}

/// What a `poll` turn asks of the caller.
#[derive(Debug)]
pub enum PollAction {
    /// Read one line from the socket and hand it to `read_command`.
    ReadLine,
    /// Write these bytes once and hand the outcome to `write_command`.
    Write(Vec<u8>),
    /// The transition is made; carry out the step.
    Apply(Step),
}

/// The step of an `Apply` action.
pub open spec fn applied(a: PollAction) -> Option<Step> {
    match a {
        PollAction::Apply(s) => Some(s),
        _ => None,
    }
}

/// The bytes of a `Write` action.
pub open spec fn to_write(a: PollAction) -> Option<Seq<u8>> {
    match a {
        PollAction::Write(p) => Some(p@),
        _ => None,
    }
}

/// The outcome of one non-blocking write.
#[derive(Clone, Copy, Debug, PartialEq, Eq, Structural)]
pub enum WriteOutcome {
    /// This many bytes were written.
    Written(usize),
    WouldBlock,
    Interrupted,
    Failed,
}

fn step(schedule: bool, join_worker: bool) -> (r: Step)
    ensures
        r.schedule == schedule,
        r.join_worker == join_worker,
        r.spawn.is_none(),
        !r.register,
        !r.retire,
{
    Step { schedule, join_worker, spawn: None, register: false, retire: false }
}

fn invalid_command_bytes() -> (r: Vec<u8>)
    ensures
        r@ == invalid_command(),
{
    let r = vec![105u8, 110, 118, 97, 108, 105, 100, 32, 99, 111, 109, 109, 97, 110, 100];
    assert(r@ =~= invalid_command());
    r
}

fn ends_with_newline(s: &str) -> (r: bool)
    ensures
        r == is_complete_line(s@),
{
    let n = s.unicode_len();
    n > 0 && s.get_char(n - 1) == '\n'
}

/// One client connection's state machine.
pub struct AsyncClientHandler {
    fd: usize,
    name: String,
    state: Option<ClientStates>,
    worker_in_flight: bool,
    is_writeable: bool,
    /// The labels of the states this connection has been in, oldest first.
    history: Ghost<Seq<int>>,
}

impl AsyncClientHandler {
    pub closed spec fn spec_fd(&self) -> usize {
        self.fd
    }

    pub closed spec fn spec_name(&self) -> Seq<char> {
        self.name@
    }

    pub closed spec fn spec_state(&self) -> Option<ClientStates> {
        self.state
    }

    /// A worker of this connection is running, or has finished and not been joined.
    pub closed spec fn spec_worker(&self) -> bool {
        self.worker_in_flight
    }

    pub closed spec fn spec_writable(&self) -> bool {
        self.is_writeable
    }

    /// A worker is held only from the start of a command until the
    /// connection leaves the write phase or starts to close.
    /// The labels of the states this connection has been in, from its
    /// creation to now.
    pub closed spec fn spec_history(&self) -> Seq<int> {
        self.history@
    }

    /// The history is a path of the transition table that ends in the
    /// current state.
    pub closed spec fn path_ok(&self) -> bool {
        &&& is_path(self.history@)
        &&& self.history@.last() == label(self.state)
    }

    /// Moves to `s` along an edge of the table and records it.
    fn set_state(&mut self, s: ClientStates)
        requires
            old(self).path_ok(),
            edge(label(old(self).state), label(Some(s))),
        ensures
            final(self).path_ok(),
            final(self).state == Some(s),
            final(self).history@ == old(self).history@.push(label(Some(s))),
            final(self).fd == old(self).fd,
            final(self).name == old(self).name,
            final(self).worker_in_flight == old(self).worker_in_flight,
            final(self).is_writeable == old(self).is_writeable,
    {
        proof {
            lemma_path_extends(self.history@, label(Some(s)));
        }
        self.state = Some(s);
        self.history = Ghost(self.history@.push(label(Some(s))));
    }

    pub closed spec fn wf(&self) -> bool {
        &&& self.path_ok()
        &&& self.worker_in_flight ==> (label(self.state) == 3 || label(self.state) == 4 || label(
            self.state,
        ) == 5)
        &&& label(self.state) == 3 ==> self.worker_in_flight
    }

    pub fn new(fd: usize, name: String) -> (r: Self)
        ensures
            r.wf(),
            r.spec_fd() == fd,
            r.spec_name() == name@,
            r.spec_state().is_none(),
            !r.spec_worker(),
            !r.spec_writable(),
            r.spec_history() == seq![0int],
    {
        let ghost start: Seq<int> = seq![0int];
        AsyncClientHandler {
            fd,
            name,
            state: None,
            worker_in_flight: false,
            is_writeable: false,
            history: Ghost(start),
        }
    }

    pub fn id(&self) -> (r: usize)
        ensures
            r == self.spec_fd(),
    {
        self.fd
    }

    pub fn name(&self) -> (r: String)
        ensures
            r@ == self.spec_name(),
    {
        self.name.clone()
    }

    pub fn state(&self) -> (r: &Option<ClientStates>)
        ensures
            *r == self.spec_state(),
    {
        &self.state
    }

    pub fn has_worker(&self) -> (r: bool)
        ensures
            r == self.spec_worker(),
    {
        self.worker_in_flight
    }

    pub fn is_writeable(&self) -> (r: bool)
        ensures
            r == self.spec_writable(),
    {
        self.is_writeable
    }

    /// The first `poll`: the connection registers with the poller and waits.
    pub fn initalize(&mut self) -> (r: Step)
        requires
            old(self).wf(),
            old(self).spec_state().is_none(),
        ensures
            final(self).wf(),
            recorded(old(self).spec_history(), final(self).spec_history(), final(self).spec_state()),
            final(self).spec_state() == Some(ClientStates::Waiting),
            final(self).spec_worker() == old(self).spec_worker(),
            final(self).spec_fd() == old(self).spec_fd(),
            final(self).spec_writable() == old(self).spec_writable(),
            r.register,
            !r.schedule && !r.join_worker && r.spawn.is_none() && !r.retire,
    {
        self.set_state(ClientStates::Waiting);
        Step { schedule: false, join_worker: false, spawn: None, register: true, retire: false }
    }

    /// The read phase, given the line read (`None` on an I/O error). A line
    /// without its `\n` means the peer closed mid-request: the connection
    /// closes. A command that claims the line gets a worker; any other line
    /// is answered `invalid command`.
    pub fn read_command(&mut self, line: Option<&str>) -> (r: Step)
        requires
            old(self).wf(),
            old(self).spec_state() == Some(ClientStates::ReadCommand),
        ensures
            final(self).wf(),
            recorded(old(self).spec_history(), final(self).spec_history(), final(self).spec_state()),
            step_allowed(old(self).spec_state(), final(self).spec_state()),
            final(self).spec_fd() == old(self).spec_fd(),
            final(self).spec_writable() == old(self).spec_writable(),
            !r.register && !r.retire,
            r.spawn.is_some() ==> !old(self).spec_worker(),
            match line {
                Some(t) if is_complete_line(t@) => match selected(t@) {
                    Some(k) => {
                        &&& final(self).spec_state() == Some(ClientStates::RunningCommand)
                        &&& final(self).spec_worker()
                        &&& r.spawn == Some(k)
                        &&& !r.schedule && !r.join_worker
                    },
                    None => {
                        &&& label(final(self).spec_state()) == 4
                        &&& payload(final(self).spec_state()) == invalid_command()
                        &&& final(self).spec_worker() == old(self).spec_worker()
                        &&& r.spawn.is_none() && r.schedule && !r.join_worker
                    },
                },
                _ => {
                    &&& final(self).spec_state() == Some(ClientStates::ToBeClosed)
                    &&& !final(self).spec_worker()
                    &&& r.join_worker == old(self).spec_worker()
                    &&& r.spawn.is_none() && r.schedule
                },
            },
    {
        let complete = match line {
            Some(t) => ends_with_newline(t),
            None => false,
        };
        if !complete {
            let join = self.worker_in_flight;
            self.worker_in_flight = false;
            self.set_state(ClientStates::ToBeClosed);
            return step(true, join);
        }
        let t = line.unwrap();
        match select_command(t) {
            Some(k) => {
                self.worker_in_flight = true;
                self.set_state(ClientStates::RunningCommand);
                Step { schedule: false, join_worker: false, spawn: Some(k), register: false, retire: false }
            },
            None => {
                self.set_state(ClientStates::WriteOutput(invalid_command_bytes()));
                step(true, false)
            },
        }
    }

    /// The write phase, given the outcome of one write of the pending bytes.
    /// Only the bytes not yet written stay pending, so a response goes out
    /// once, whole and in order.
    pub fn write_command(&mut self, outcome: WriteOutcome) -> (r: Step)
        requires
            old(self).wf(),
            label(old(self).spec_state()) == 4,
            outcome matches WriteOutcome::Written(n) ==> n <= payload(old(self).spec_state()).len(),
        ensures
            final(self).wf(),
            recorded(old(self).spec_history(), final(self).spec_history(), final(self).spec_state()),
            step_allowed(old(self).spec_state(), final(self).spec_state()),
            final(self).spec_fd() == old(self).spec_fd(),
            final(self).spec_writable() == old(self).spec_writable(),
            r.spawn.is_none() && !r.register && !r.retire,
            ({
                let p = payload(old(self).spec_state());
                match outcome {
                    WriteOutcome::Written(n) => if n == p.len() {
                        &&& final(self).spec_state() == Some(ClientStates::Waiting)
                        &&& !final(self).spec_worker()
                        &&& r.join_worker == old(self).spec_worker()
                        &&& !r.schedule
                    } else {
                        &&& label(final(self).spec_state()) == 4
                        &&& payload(final(self).spec_state()) == p.subrange(n as int, p.len() as int)
                        &&& final(self).spec_worker() == old(self).spec_worker()
                        &&& r.schedule && !r.join_worker
                    },
                    WriteOutcome::WouldBlock | WriteOutcome::Interrupted => {
                        &&& final(self).spec_state() == old(self).spec_state()
                        &&& final(self).spec_worker() == old(self).spec_worker()
                        &&& r.schedule && !r.join_worker
                    },
                    WriteOutcome::Failed => {
                        &&& final(self).spec_state() == Some(ClientStates::ToBeClosed)
                        &&& final(self).spec_worker() == old(self).spec_worker()
                        &&& r.schedule && !r.join_worker
                    },
                }
            }),
    {
        match outcome {
            WriteOutcome::Written(n) => {
                let rest = match &self.state {
                    Some(ClientStates::WriteOutput(p)) => {
                        if n == p.len() {
                            None
                        } else {
                            let mut q = p.clone();
                            assert(q@ =~= p@);
                            Some(q.split_off(n))
                        }
                    },
                    _ => None,
                };
                match rest {
                    None => {
                        let join = self.worker_in_flight;
                        self.worker_in_flight = false;
                        self.set_state(ClientStates::Waiting);
                        step(false, join)
                    },
                    Some(rest) => {
                        self.set_state(ClientStates::WriteOutput(rest));
                        step(true, false)
                    },
                }
            },
            WriteOutcome::WouldBlock | WriteOutcome::Interrupted => step(true, false),
            WriteOutcome::Failed => {
                self.set_state(ClientStates::ToBeClosed);
                step(true, false)
            },
        }
    }

    /// Waits for any worker, then moves on to `Close`.
    pub fn to_be_closed(&mut self) -> (r: Step)
        requires
            old(self).wf(),
            old(self).spec_state() == Some(ClientStates::ToBeClosed),
        ensures
            final(self).wf(),
            recorded(old(self).spec_history(), final(self).spec_history(), final(self).spec_state()),
            final(self).spec_state() == Some(ClientStates::Close),
            !final(self).spec_worker(),
            final(self).spec_fd() == old(self).spec_fd(),
            final(self).spec_writable() == old(self).spec_writable(),
            r.join_worker == old(self).spec_worker(),
            r.schedule && r.spawn.is_none() && !r.register && !r.retire,
    {
        let join = self.worker_in_flight;
        self.worker_in_flight = false;
        self.set_state(ClientStates::Close);
        step(true, join)
    }

    /// Waits for any worker, then retires the connection.
    pub fn close(&mut self) -> (r: Step)
        requires
            old(self).wf(),
            old(self).spec_state() == Some(ClientStates::Close),
        ensures
            final(self).wf(),
            recorded(old(self).spec_history(), final(self).spec_history(), final(self).spec_state()),
            final(self).spec_state() == Some(ClientStates::Closed),
            !final(self).spec_worker(),
            final(self).spec_fd() == old(self).spec_fd(),
            final(self).spec_writable() == old(self).spec_writable(),
            r.join_worker == old(self).spec_worker(),
            r.retire && !r.schedule && r.spawn.is_none() && !r.register,
    {
        let join = self.worker_in_flight;
        self.worker_in_flight = false;
        self.set_state(ClientStates::Closed);
        Step { schedule: false, join_worker: join, spawn: None, register: false, retire: true }
    }

    /// One cooperative turn: act on the current state.
    pub fn poll(&mut self) -> (r: PollAction)
        requires
            old(self).wf(),
        ensures
            final(self).wf(),
            recorded(old(self).spec_history(), final(self).spec_history(), final(self).spec_state()),
            step_allowed(old(self).spec_state(), final(self).spec_state()),
            final(self).spec_fd() == old(self).spec_fd(),
            final(self).spec_writable() == old(self).spec_writable(),
            match old(self).spec_state() {
                None => {
                    &&& final(self).spec_state() == Some(ClientStates::Waiting)
                    &&& final(self).spec_worker() == old(self).spec_worker()
                    &&& applied(r) matches Some(s) && s.register && !s.schedule && !s.join_worker
                        && s.spawn.is_none() && !s.retire
                },
                Some(ClientStates::ReadCommand) => {
                    &&& r is ReadLine
                    &&& *final(self) == *old(self)
                },
                Some(ClientStates::WriteOutput(p)) => {
                    &&& to_write(r) == Some(p@)
                    &&& *final(self) == *old(self)
                },
                Some(ClientStates::ToBeClosed) => {
                    &&& final(self).spec_state() == Some(ClientStates::Close)
                    &&& !final(self).spec_worker()
                    &&& applied(r) matches Some(s) && s.schedule && s.join_worker
                        == old(self).spec_worker() && s.spawn.is_none() && !s.register && !s.retire
                },
                Some(ClientStates::Close) => {
                    &&& final(self).spec_state() == Some(ClientStates::Closed)
                    &&& !final(self).spec_worker()
                    &&& applied(r) matches Some(s) && s.retire && s.join_worker
                        == old(self).spec_worker() && s.spawn.is_none() && !s.register
                        && !s.schedule
                },
                _ => {
                    &&& *final(self) == *old(self)
                    &&& applied(r) matches Some(s) && quiet(s)
                },
            },
    {
        match &self.state {
            None => PollAction::Apply(self.initalize()),
            Some(ClientStates::ReadCommand) => PollAction::ReadLine,
            Some(ClientStates::WriteOutput(p)) => {
                let q = p.clone();
                assert(q@ =~= p@);
                PollAction::Write(q)
            },
            Some(ClientStates::ToBeClosed) => PollAction::Apply(self.to_be_closed()),
            Some(ClientStates::Close) => PollAction::Apply(self.close()),
            _ => PollAction::Apply(step(false, false)),
        }
    }

    /// Takes one readiness event. A readable event wakes a waiting
    /// connection; in any other state the pending state is kept.
    pub fn handle_event(&mut self, readable: bool, writable: bool, write_closed: bool) -> (schedule:
        bool)
        requires
            old(self).wf(),
        ensures
            final(self).wf(),
            recorded(old(self).spec_history(), final(self).spec_history(), final(self).spec_state()),
            step_allowed(old(self).spec_state(), final(self).spec_state()),
            final(self).spec_fd() == old(self).spec_fd(),
            final(self).spec_worker() == old(self).spec_worker(),
            schedule == (readable && old(self).spec_state() == Some(ClientStates::Waiting)),
            schedule ==> final(self).spec_state() == Some(ClientStates::ReadCommand),
            !schedule ==> final(self).spec_state() == old(self).spec_state(),
            final(self).spec_writable() == if write_closed {
                false
            } else if writable {
                true
            } else {
                old(self).spec_writable()
            },
    {
        let mut schedule = false;
        if readable {
            if let Some(ClientStates::Waiting) = self.state {
                self.set_state(ClientStates::ReadCommand);
                schedule = true;
            }
        }
        if writable {
            self.is_writeable = true;
        }
        if write_closed {
            self.is_writeable = false;
        }
        schedule
    }

    /// A worker hands over its response: a running command moves on to the
    /// write phase. In any other state nothing changes.
    pub fn deliver_output(&mut self, output: Vec<u8>) -> (taken: bool)
        requires
            old(self).wf(),
        ensures
            final(self).wf(),
            recorded(old(self).spec_history(), final(self).spec_history(), final(self).spec_state()),
            step_allowed(old(self).spec_state(), final(self).spec_state()),
            final(self).spec_fd() == old(self).spec_fd(),
            final(self).spec_worker() == old(self).spec_worker(),
            final(self).spec_writable() == old(self).spec_writable(),
            taken == (old(self).spec_state() == Some(ClientStates::RunningCommand)),
            taken ==> label(final(self).spec_state()) == 4 && payload(final(self).spec_state())
                == output@,
            !taken ==> final(self).spec_state() == old(self).spec_state(),
    {
        if let Some(ClientStates::RunningCommand) = self.state {
            self.set_state(ClientStates::WriteOutput(output));
            true
        } else {
            false
        }
    }
}

/// Once a connection is `Closed`, the transition table lets it go nowhere else.
pub proof fn lemma_closed_is_final(to: Option<ClientStates>)
    requires
        step_allowed(Some(ClientStates::Closed), to),
    ensures
        to == Some(ClientStates::Closed),
{
}

/// A short write loses and repeats nothing: the bytes written, followed by
/// the bytes left pending, are the payload.
pub proof fn lemma_short_write_keeps_payload(p: Seq<u8>, n: int)
    requires
        0 <= n <= p.len(),
    ensures
        p.subrange(0, n) + p.subrange(n, p.len() as int) == p,
{
    assert(p.subrange(0, n) + p.subrange(n, p.len() as int) =~= p);
}

/// Extending a path along an edge of the table gives a path.
pub proof fn lemma_path_extends(labels: Seq<int>, next: int)
    requires
        is_path(labels),
        edge(labels.last(), next),
    ensures
        is_path(labels.push(next)),
{
    let l2 = labels.push(next);
    assert forall|i: int| 0 <= i < l2.len() - 1 implies edge(l2[i], #[trigger] l2[i + 1]) by {
        if i < labels.len() - 1 {
            assert(l2[i] == labels[i] && l2[i + 1] == labels[i + 1]);
        }
    }
}

/// The bytes that a series of writes takes from `p`, the `i`-th write
/// taking `ns[i]` bytes from the front of what is still pending.
pub open spec fn written(p: Seq<u8>, ns: Seq<int>) -> Seq<u8>
    decreases ns.len(),
{
    if ns.len() == 0 {
        Seq::empty()
    } else {
        p.subrange(0, ns[0]) + written(p.subrange(ns[0], p.len() as int), ns.drop_first())
    }
}

/// What is still pending after that series of writes.
pub open spec fn pending(p: Seq<u8>, ns: Seq<int>) -> Seq<u8>
    decreases ns.len(),
{
    if ns.len() == 0 {
        p
    } else {
        pending(p.subrange(ns[0], p.len() as int), ns.drop_first())
    }
}

/// Each write takes no more than is pending.
pub open spec fn fits(p: Seq<u8>, ns: Seq<int>) -> bool
    decreases ns.len(),
{
    ns.len() == 0 || (0 <= ns[0] <= p.len() && fits(
        p.subrange(ns[0], p.len() as int),
        ns.drop_first(),
    ))
}

/// Any series of short writes, each followed by keeping only the unwritten
/// rest, delivers the payload once, in order: what was written, followed by
/// what is pending, is the payload; once nothing is pending, the payload
/// went out whole.
pub proof fn lemma_writes_deliver_payload(p: Seq<u8>, ns: Seq<int>)
    requires
        fits(p, ns),
    ensures
        written(p, ns) + pending(p, ns) == p,
        pending(p, ns).len() == 0 ==> written(p, ns) == p,
    decreases ns.len(),
{
    if ns.len() > 0 {
        let rest = p.subrange(ns[0], p.len() as int);
        lemma_writes_deliver_payload(rest, ns.drop_first());
        assert(written(p, ns) + pending(p, ns) =~= p.subrange(0, ns[0]) + (written(
            rest,
            ns.drop_first(),
        ) + pending(rest, ns.drop_first())));
        assert(p.subrange(0, ns[0]) + rest =~= p);
    }
    if pending(p, ns).len() == 0 {
        assert(written(p, ns) + pending(p, ns) =~= written(p, ns));
    }
}

} // verus!
