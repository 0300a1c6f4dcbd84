//! The invocation the orchestrator hands the core: a label selector and a
//! verb with its namespace. The surrounding program parses the command line
//! into this shape; the core only reads it.

use vstd::prelude::*;

use crate::engine::Action;

verus! {

/// The verb of one invocation, with the namespace it applies to.
#[derive(Debug)]
pub enum Command {
    /// Resume the matched workloads.
    Start { namespace: String },
    /// Suspend the matched workloads.
    Stop { namespace: String },
}

/// One invocation: which workloads, and what to do with them.
#[derive(Debug)]
pub struct Arguments {
    pub label: String,
    pub cmd: Command,
}

impl Arguments {
    pub open spec fn spec_namespace(&self) -> Seq<char> {
        match self.cmd {
            Command::Start { namespace } => namespace@,
            Command::Stop { namespace } => namespace@,
        }
    }

    /// Whether this invocation suspends rather than resumes.
    pub fn is_stop_action(&self) -> (r: bool)
        ensures
            r == (self.cmd is Stop),
    {
        match &self.cmd {
            Command::Start { namespace: _ } => false,
            Command::Stop { namespace: _ } => true,
        }
    }

    /// The namespace the invocation applies to.
    pub fn get_namespace(&self) -> (r: &String)
        ensures
            r@ == self.spec_namespace(),
    {
        match &self.cmd {
            Command::Start { namespace } => namespace,
            Command::Stop { namespace } => namespace,
        }
    }

    /// The action the invocation's verb asks the engine for.
    pub fn action(&self) -> (a: Action)
        ensures
            a == (if self.cmd is Stop {
                Action::Suspend
            } else {
                Action::Resume
            }),
    {
        if self.is_stop_action() {
            Action::Suspend
        } else {
            Action::Resume
        }
    }
}

} // verus!
