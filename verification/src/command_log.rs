//! The Command Log: the durable audit record of one command invocation.
//! A record is created RUNNING and moves exactly once to a terminal
//! status — SUCCESS, ERROR or SKIPPED — at which point it receives its
//! closing timestamp and elapsed time, in milliseconds.

use vstd::prelude::*;

use crate::args::opt_view;

verus! {

/// The lifecycle status of a Command Log record.
#[derive(Clone, Copy, PartialEq, Eq, Structural, Debug)]
pub enum CommandStatus {
    /// The invocation is in flight; a RUNNING record is what the lock
    /// check looks for.
    RUNNING,
    /// The command body returned without error.
    SUCCESS,
    /// The command body raised an error.
    ERROR,
    /// The invocation was skipped because of a lock conflict; the body
    /// never ran.
    SKIPPED,
}

impl CommandStatus {
    /// The statuses from which no further transition occurs.
    pub open spec fn is_terminal(self) -> bool {
        self != CommandStatus::RUNNING
    }
}

/// One audit record. Identity is assigned by the Log Store on creation;
/// timestamps are milliseconds on the store's clock.
pub struct CommandLog {
    pub id: Option<u64>,
    pub command_name: String,
    pub command_args: String,
    pub status: CommandStatus,
    pub message: Option<String>,
    pub created_at: i64,
    pub closed_at: Option<i64>,
    pub elapsed: Option<i64>,
}

impl CommandLog {
    /// Well-formedness: a RUNNING record has no closing fields and no
    /// message; a terminal record is closed no earlier than it was
    /// created, its elapsed time is exactly the closing distance, a
    /// SUCCESS carries no message, and ERROR and SKIPPED each carry one.
    pub open spec fn wf(self) -> bool {
        match self.status {
            CommandStatus::RUNNING => self.message is None && self.closed_at is None
                && self.elapsed is None,
            _ => match (self.closed_at, self.elapsed) {
                (Some(c), Some(e)) => {
                    &&& self.created_at <= c
                    &&& e == c - self.created_at
                    &&& (self.status == CommandStatus::SUCCESS ==> self.message is None)
                    &&& (self.status == CommandStatus::ERROR || self.status
                        == CommandStatus::SKIPPED ==> self.message is Some)
                },
                _ => false,
            },
        }
    }

    /// The record that opens an invocation of `name` with canonical
    /// arguments `args` at time `now`, before the store assigns it an
    /// identity.
    pub open spec fn is_fresh_running(
        self,
        name: Seq<char>,
        args: Seq<char>,
        now: i64,
    ) -> bool {
        &&& self.command_name@ == name
        &&& self.command_args@ == args
        &&& self.status == CommandStatus::RUNNING
        &&& self.message is None
        &&& self.created_at == now
        &&& self.closed_at is None
        &&& self.elapsed is None
    }

    /// `self` is `from` moved to terminal `status` at time `now` with
    /// message `message`: everything else is carried over unchanged,
    /// and the closing fields are computed from `now`.
    pub open spec fn is_closed_from(
        self,
        from: CommandLog,
        status: CommandStatus,
        message: Option<Seq<char>>,
        now: i64,
    ) -> bool {
        &&& self.id == from.id
        &&& self.command_name@ == from.command_name@
        &&& self.command_args@ == from.command_args@
        &&& self.status == status
        &&& opt_view(self.message) == message
        &&& self.created_at == from.created_at
        &&& self.closed_at == Some(now)
        &&& self.elapsed == Some((now - from.created_at) as i64)
    }

    /// Move a RUNNING record to a terminal status. This consumes the
    /// record: a closed record is never closed again.
    pub fn close(self, status: CommandStatus, message: Option<String>, now: i64) -> (r:
        CommandLog)
        requires
            self.wf(),
            self.status == CommandStatus::RUNNING,
            status.is_terminal(),
            0 <= self.created_at <= now,
            status == CommandStatus::SUCCESS ==> message is None,
            status == CommandStatus::ERROR || status == CommandStatus::SKIPPED ==> message
                is Some,
        ensures
            r.wf(),
            r.status.is_terminal(),
            r.is_closed_from(self, status, opt_view(message), now),
    {
        let elapsed = now - self.created_at;
        CommandLog {
            status,
            message,
            closed_at: Some(now),
            elapsed: Some(elapsed),
            ..self
        }
    }
}

/// Elapsed non-negativity: every well-formed terminal log is closed, its
/// elapsed time is exactly `closed_at - created_at` in milliseconds, and
/// that distance is never negative.
pub proof fn lemma_elapsed_non_negative(l: CommandLog)
    requires
        l.wf(),
        l.status.is_terminal(),
    ensures
        l.closed_at is Some,
        l.elapsed is Some,
        l.elapsed->0 == l.closed_at->0 - l.created_at,
        l.elapsed->0 >= 0,
{
}

} // verus!
