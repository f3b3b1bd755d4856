//! The dispatcher/supervisor state machine: `Accepting`, then
//! `Draining`, then `Terminated`. While accepting, each parsed non-exit
//! command is dispatched and its handle recorded in issue order; a parse
//! failure is reported and accepting continues. Once exit is read the
//! supervisor drains: it hands out every recorded handle exactly once,
//! in issue order, and terminates only when all of them have been
//! awaited. No input is accepted outside `Accepting`, so no work can be
//! issued after the drain begins and none is left behind at exit.

use vstd::prelude::*;
use crate::grammar::Command;
use crate::grammar::CommandModel;
use crate::grammar::parse_spec;

verus! {

/// The supervisor's lifecycle phase.
#[derive(PartialEq, Eq, Structural, Clone, Copy, Debug)]
pub enum Mode {
    Accepting,
    Draining,
    Terminated,
}

/// What the supervisor decided about one input line.
pub enum LineOutcome {
    /// A non-exit command: dispatch it now; its handle is already
    /// recorded as the newest entry of the issue-ordered record.
    Dispatched(Command),
    /// The line did not parse; report it and keep accepting.
    Invalid,
    /// The exit command: stop accepting and begin the drain.
    ExitRequested,
}

/// The supervisor itself. It records, as ghost state, the model of every
/// command it dispatched, in issue order; the caller holds the real
/// handles in the same order.
pub struct Supervisor {
    mode: Mode,
    handles: usize,
    drained: usize,
    issued: Ghost<Seq<CommandModel>>,
}

impl Supervisor {
    /// The lifecycle phase.
    pub closed spec fn mode_spec(self) -> Mode {
        self.mode
    }

    /// The models of the dispatched commands, in issue order.
    pub closed spec fn issued_spec(self) -> Seq<CommandModel> {
        self.issued@
    }

    /// How many handles the drain has already handed out.
    pub closed spec fn drained_spec(self) -> int {
        self.drained as int
    }

    /// The state invariant: the handle count tracks the issue record,
    /// draining never overruns it, nothing is drained while accepting,
    /// and termination means the drain went through the whole record.
    pub closed spec fn inv(self) -> bool {
        &&& self.handles == self.issued@.len()
        &&& self.drained <= self.handles
        &&& (self.mode == Mode::Accepting ==> self.drained == 0)
        &&& (self.mode == Mode::Terminated ==> self.drained == self.handles)
    }

    /// A fresh supervisor: accepting, nothing issued, nothing drained.
    pub fn new() -> (r: Supervisor)
        ensures
            r.inv(),
            r.mode_spec() == Mode::Accepting,
            r.issued_spec() == Seq::<CommandModel>::empty(),
            r.drained_spec() == 0,
    {
        Supervisor { mode: Mode::Accepting, handles: 0, drained: 0, issued: Ghost(Seq::empty()) }
    }

    /// The lifecycle phase, for the caller that drives the loop.
    pub fn current_mode(&self) -> (r: Mode)
        ensures
            r == self.mode_spec(),
    {
        self.mode
    }

    /// How many handles have been issued so far.
    pub fn handle_count(&self) -> (r: usize)
        requires
            self.inv(),
        ensures
            r == self.issued_spec().len(),
    {
        self.handles
    }

    /// Handles one input line while accepting. A line that parses to a
    /// non-exit command is dispatched: it is appended to the issue
    /// record and returned for the caller to schedule. A line that does
    /// not parse changes nothing. The exit command moves the supervisor
    /// to `Draining`, after which no line is ever handled again.
    pub fn on_line(&mut self, line: &str) -> (r: LineOutcome)
        requires
            old(self).inv(),
            old(self).mode_spec() == Mode::Accepting,
            old(self).issued_spec().len() < usize::MAX,
        ensures
            final(self).inv(),
            match r {
                LineOutcome::Dispatched(c) => {
                    &&& parse_spec(line@) == Some(c@)
                    &&& !(c@ is Exit)
                    &&& final(self).mode_spec() == Mode::Accepting
                    &&& final(self).issued_spec() == old(self).issued_spec().push(c@)
                    &&& final(self).drained_spec() == 0
                },
                LineOutcome::Invalid => {
                    &&& parse_spec(line@) is None
                    &&& *final(self) == *old(self)
                },
                LineOutcome::ExitRequested => {
                    &&& parse_spec(line@) == Some(CommandModel::Exit)
                    &&& final(self).mode_spec() == Mode::Draining
                    &&& final(self).issued_spec() == old(self).issued_spec()
                    &&& final(self).drained_spec() == 0
                },
            },
    {
        match Command::from_str(line) {
            Ok(c) => {
                match c {
                    Command::Exit => {
                        self.mode = Mode::Draining;
                        LineOutcome::ExitRequested
                    },
                    _ => {
                        self.handles = self.handles + 1;
                        proof {
                            self.issued@ = self.issued@.push(c@);
                        }
                        LineOutcome::Dispatched(c)
                    },
                }
            },
            Err(_) => LineOutcome::Invalid,
        }
    }

    /// One step of the draining sweep: the index of the next handle to
    /// await, in issue order, each exactly once; `None` once every
    /// handle has been handed out, at which point the supervisor is
    /// `Terminated`.
    pub fn drain_next(&mut self) -> (r: Option<usize>)
        requires
            old(self).inv(),
            old(self).mode_spec() == Mode::Draining,
        ensures
            final(self).inv(),
            final(self).issued_spec() == old(self).issued_spec(),
            match r {
                Some(idx) => {
                    &&& idx as int == old(self).drained_spec()
                    &&& idx < old(self).issued_spec().len()
                    &&& final(self).drained_spec() == old(self).drained_spec() + 1
                    &&& final(self).mode_spec() == Mode::Draining
                },
                None => {
                    &&& old(self).drained_spec() == old(self).issued_spec().len()
                    &&& final(self).drained_spec() == old(self).drained_spec()
                    &&& final(self).mode_spec() == Mode::Terminated
                },
            },
    {
        if self.drained < self.handles {
            let idx = self.drained;
            self.drained = self.drained + 1;
            Some(idx)
        } else {
            self.mode = Mode::Terminated;
            None
        }
    }
}

/// The shutdown guarantee: the supervisor is `Terminated` only once
/// every handle issued before the drain began has been handed out to be
/// awaited. No dispatched work is dropped or left unobserved at exit.
pub proof fn lemma_terminated_means_fully_drained(s: Supervisor)
    requires
        s.inv(),
        s.mode_spec() == Mode::Terminated,
    ensures
        s.drained_spec() == s.issued_spec().len(),
{
}

} // verus!
