//! The reactor's bookkeeping: the registered tokens, the run queue, and the
//! queues of connections waiting to be installed or retired. The poller
//! itself belongs to the caller, which acts on what these methods decide.
use vstd::prelude::*;
use std::collections::HashSet;
use std::collections::VecDeque;

verus! {

broadcast use vstd::std_specs::hash::group_hash_axioms;

/// The token of the cross-thread wakeup; no connection may use it.
pub const WAKER_TOKEN: usize = 0;

/// What `register` decided.
#[derive(Clone, Copy, Debug, PartialEq, Eq, Structural)]
pub enum Registration {
    /// A new token: register the source with the poller.
    Fresh,
    /// Already registered: nothing to do.
    Known,
    /// The wakeup's token: refused.
    Reserved,
}

/// What one call of the poller returned.
#[derive(Clone, Copy, Debug, PartialEq, Eq, Structural)]
pub enum PollOutcome {
    /// This many readiness events were delivered.
    Events(usize),
    /// The wait was interrupted.
    Interrupted,
    /// Any other error.
    Failed,
}

/// What `wait` does next.
#[derive(Clone, Copy, Debug, PartialEq, Eq, Structural)]
pub enum WaitStep {
    /// Stop waiting and serve the events and the run queue.
    Done,
    /// Call the poller again.
    Again,
    /// Stop with the poller's error.
    Fail,
}

pub struct Reactor<H> {
    existing_tokens: HashSet<usize>,
    tasks: VecDeque<usize>,
    new_source: VecDeque<(usize, H)>,
    old_source: VecDeque<usize>,
}

impl<H> Reactor<H> {
    pub closed spec fn spec_tokens(&self) -> Set<usize> {
        self.existing_tokens@
    }

    /// The run queue, front first.
    pub closed spec fn spec_tasks(&self) -> Seq<usize> {
        self.tasks@
    }

    /// The connections waiting to be installed, front first.
    pub closed spec fn spec_new_source(&self) -> Seq<(usize, H)> {
        self.new_source@
    }

    /// The connections waiting to be retired, front first.
    pub closed spec fn spec_old_source(&self) -> Seq<usize> {
        self.old_source@
    }

    /// The wakeup's token is never a connection's.
    pub open spec fn wf(&self) -> bool {
        !self.spec_tokens().contains(WAKER_TOKEN)
    }

    pub fn new() -> (r: Self)
        ensures
            r.wf(),
            r.spec_tokens() == Set::<usize>::empty(),
            r.spec_tasks() == Seq::<usize>::empty(),
            r.spec_new_source() == Seq::<(usize, H)>::empty(),
            r.spec_old_source() == Seq::<usize>::empty(),
    {
        Reactor {
            existing_tokens: HashSet::new(),
            tasks: VecDeque::new(),
            new_source: VecDeque::new(),
            old_source: VecDeque::new(),
        }
    }

    pub fn is_registered(&self, fd: usize) -> (r: bool)
        ensures
            r == self.spec_tokens().contains(fd),
    {
        self.existing_tokens.contains(&fd)
    }

    /// Decides whether `fd` is to be registered with the poller: only a
    /// `Fresh` token is. Nothing is recorded until the poller has accepted
    /// it (`confirm_registered`), so a refused registration leaves no trace.
    pub fn register(&self, fd: usize) -> (r: Registration)
        ensures
            r == (if fd == WAKER_TOKEN {
                Registration::Reserved
            } else if self.spec_tokens().contains(fd) {
                Registration::Known
            } else {
                Registration::Fresh
            }),
    {
        if fd == WAKER_TOKEN {
            Registration::Reserved
        } else if self.existing_tokens.contains(&fd) {
            Registration::Known
        } else {
            Registration::Fresh
        }
    }

    /// Records `fd` as registered, once the poller has accepted it.
    pub fn confirm_registered(&mut self, fd: usize)
        requires
            old(self).wf(),
            fd != WAKER_TOKEN,
        ensures
            final(self).wf(),
            final(self).spec_tokens() == old(self).spec_tokens().insert(fd),
            final(self).spec_tasks() == old(self).spec_tasks(),
            final(self).spec_new_source() == old(self).spec_new_source(),
            final(self).spec_old_source() == old(self).spec_old_source(),
    {
        self.existing_tokens.insert(fd);
    }

    /// Appends `id` to the run queue.
    pub fn schedule(&mut self, id: usize)
        requires
            old(self).wf(),
        ensures
            final(self).wf(),
            final(self).spec_tasks() == old(self).spec_tasks().push(id),
            final(self).spec_tokens() == old(self).spec_tokens(),
            final(self).spec_new_source() == old(self).spec_new_source(),
            final(self).spec_old_source() == old(self).spec_old_source(),
    {
        self.tasks.push_back(id);
    }

    /// Queues a new connection for installation and schedules its first poll.
    pub fn add_new_connection(&mut self, fd: usize, handler: H)
        requires
            old(self).wf(),
        ensures
            final(self).wf(),
            final(self).spec_new_source() == old(self).spec_new_source().push((fd, handler)),
            final(self).spec_tasks() == old(self).spec_tasks().push(fd),
            final(self).spec_tokens() == old(self).spec_tokens(),
            final(self).spec_old_source() == old(self).spec_old_source(),
    {
        self.new_source.push_back((fd, handler));
        self.schedule(fd);
    }

    /// Forgets `fd`'s registration and queues it for retirement; the caller
    /// deregisters its source from the poller.
    pub fn remove_old_connection(&mut self, fd: usize)
        requires
            old(self).wf(),
        ensures
            final(self).wf(),
            final(self).spec_tokens() == old(self).spec_tokens().remove(fd),
            final(self).spec_old_source() == old(self).spec_old_source().push(fd),
            final(self).spec_tasks() == old(self).spec_tasks(),
            final(self).spec_new_source() == old(self).spec_new_source(),
    {
        self.existing_tokens.remove(&fd);
        self.old_source.push_back(fd);
    }

    pub fn has_tasks(&self) -> (r: bool)
        ensures
            r == (self.spec_tasks().len() > 0),
    {
        self.tasks.len() > 0
    }

    /// Takes the front of the run queue.
    pub fn next_task(&mut self) -> (r: Option<usize>)
        requires
            old(self).wf(),
        ensures
            final(self).wf(),
            match r {
                Some(id) => old(self).spec_tasks().len() > 0 && id == old(self).spec_tasks()[0]
                    && final(self).spec_tasks() == old(self).spec_tasks().drop_first(),
                None => old(self).spec_tasks().len() == 0 && final(self).spec_tasks()
                    == old(self).spec_tasks(),
            },
            final(self).spec_tokens() == old(self).spec_tokens(),
            final(self).spec_new_source() == old(self).spec_new_source(),
            final(self).spec_old_source() == old(self).spec_old_source(),
    {
        let r = self.tasks.pop_front();
        proof {
            if r.is_some() {
                assert(self.tasks@ =~= old(self).spec_tasks().drop_first());
            }
        }
        r
    }

    /// Takes the oldest connection waiting to be installed.
    pub fn next_new_connection(&mut self) -> (r: Option<(usize, H)>)
        requires
            old(self).wf(),
        ensures
            final(self).wf(),
            match r {
                Some(p) => old(self).spec_new_source().len() > 0 && p == old(
                    self,
                ).spec_new_source()[0] && final(self).spec_new_source() == old(
                    self,
                ).spec_new_source().drop_first(),
                None => old(self).spec_new_source().len() == 0 && final(self).spec_new_source()
                    == old(self).spec_new_source(),
            },
            final(self).spec_tokens() == old(self).spec_tokens(),
            final(self).spec_tasks() == old(self).spec_tasks(),
            final(self).spec_old_source() == old(self).spec_old_source(),
    {
        let r = self.new_source.pop_front();
        proof {
            if r.is_some() {
                assert(self.new_source@ =~= old(self).spec_new_source().drop_first());
            }
        }
        r
    }

    /// Takes the oldest connection waiting to be retired.
    pub fn next_old_connection(&mut self) -> (r: Option<usize>)
        requires
            old(self).wf(),
        ensures
            final(self).wf(),
            match r {
                Some(id) => old(self).spec_old_source().len() > 0 && id == old(
                    self,
                ).spec_old_source()[0] && final(self).spec_old_source() == old(
                    self,
                ).spec_old_source().drop_first(),
                None => old(self).spec_old_source().len() == 0 && final(self).spec_old_source()
                    == old(self).spec_old_source(),
            },
            final(self).spec_tokens() == old(self).spec_tokens(),
            final(self).spec_tasks() == old(self).spec_tasks(),
            final(self).spec_new_source() == old(self).spec_new_source(),
    {
        let r = self.old_source.pop_front();
        proof {
            if r.is_some() {
                assert(self.old_source@ =~= old(self).spec_old_source().drop_first());
            }
        }
        r
    }

    /// The wait loop's decision after one call of the poller: stop once
    /// events came, once the run queue holds work, or on an interrupt; fail
    /// on any other error; else wait again.
    pub fn wait(&self, outcome: PollOutcome) -> (r: WaitStep)
        ensures
            r == match outcome {
                PollOutcome::Events(n) => if n > 0 || self.spec_tasks().len() > 0 {
                    WaitStep::Done
                } else {
                    WaitStep::Again
                },
                PollOutcome::Interrupted => WaitStep::Done,
                PollOutcome::Failed => WaitStep::Fail,
            },
    {
        match outcome {
            PollOutcome::Events(n) => if n > 0 || self.tasks.len() > 0 {
                WaitStep::Done
            } else {
                WaitStep::Again
            },
            PollOutcome::Interrupted => WaitStep::Done,
            PollOutcome::Failed => WaitStep::Fail,
        }
    }
}

} // verus!
