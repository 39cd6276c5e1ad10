//! The command byte of the taskstats family.

use crate::error::TaskStatsError;
use vstd::prelude::*;

verus! {

/// Command byte of a request from user space and of the kernel's answer to it.
pub const TASKSTATS_CMD_GET: u8 = 1;

/// Command byte of a report that the kernel sends on its own.
pub const TASKSTATS_CMD_NEW: u8 = 2;

/// The commands of the taskstats family.
#[derive(Clone, Copy, Debug, PartialEq, Eq, Structural)]
pub enum TaskStatsCmds {
    /// Request from user space, and the kernel's answer to it.
    Get,
    /// Report that the kernel sends on its own.
    New,
}

impl TaskStatsCmds {
    /// The byte that stands for a command on the wire.
    pub open spec fn code(self) -> u8 {
        match self {
            TaskStatsCmds::Get => TASKSTATS_CMD_GET,
            TaskStatsCmds::New => TASKSTATS_CMD_NEW,
        }
    }

    /// The command that a byte stands for, if any.
    pub open spec fn from_code(value: u8) -> Option<TaskStatsCmds> {
        if value == TASKSTATS_CMD_GET {
            Some(TaskStatsCmds::Get)
        } else if value == TASKSTATS_CMD_NEW {
            Some(TaskStatsCmds::New)
        } else {
            None
        }
    }

    /// Decoding the byte of a command gives the command back.
    pub proof fn lemma_code_round_trip(self)
        ensures
            Self::from_code(self.code()) == Some(self),
    {
    }

    /// A byte that decodes to a command is the byte of that command, so no two
    /// commands share a byte and every other byte is refused.
    pub proof fn lemma_from_code_inverse(value: u8)
        ensures
            Self::from_code(value) matches Some(cmd) ==> cmd.code() == value,
            Self::from_code(value) is None <==> value != TASKSTATS_CMD_GET && value
                != TASKSTATS_CMD_NEW,
    {
    }
}

impl From<TaskStatsCmds> for u8 {
    /// The byte that stands for the command on the wire.
    fn from(cmd: TaskStatsCmds) -> (byte: u8) {
        match cmd {
            TaskStatsCmds::Get => TASKSTATS_CMD_GET,
            TaskStatsCmds::New => TASKSTATS_CMD_NEW,
        }
    }
}

impl vstd::std_specs::convert::FromSpecImpl<TaskStatsCmds> for u8 {
    open spec fn obeys_from_spec() -> bool {
        true
    }

    open spec fn from_spec(cmd: TaskStatsCmds) -> u8 {
        cmd.code()
    }
}

impl TryFrom<u8> for TaskStatsCmds {
    type Error = TaskStatsError;

    /// The command that the byte stands for; a byte that stands for none is
    /// refused, and the failure holds the byte.
    fn try_from(value: u8) -> (result: Result<TaskStatsCmds, TaskStatsError>) {
        if value == TASKSTATS_CMD_GET {
            Ok(TaskStatsCmds::Get)
        } else if value == TASKSTATS_CMD_NEW {
            Ok(TaskStatsCmds::New)
        } else {
            Err(TaskStatsError::UnknownCommand(value))
        }
    }
}

impl vstd::std_specs::convert::TryFromSpecImpl<u8> for TaskStatsCmds {
    open spec fn obeys_try_from_spec() -> bool {
        true
    }

    open spec fn try_from_spec(value: u8) -> Result<TaskStatsCmds, TaskStatsError> {
        match Self::from_code(value) {
            Some(cmd) => Ok(cmd),
            None => Err(TaskStatsError::UnknownCommand(value)),
        }
    }
}

} // verus!
