//! Codec for the taskstats generic netlink family: the command payload that user
//! space sends, the attributes of the kernel's reports and the fixed-layout
//! accounting record that those reports carry.

pub mod cmd_attrs;
pub mod command;
pub mod cursor;
pub mod error;
pub mod event_attrs;
pub mod message;
pub mod native;
pub mod nla;
pub mod stats;

pub use cmd_attrs::{
    TaskStatsCmdAttrs, TASKSTATS_CMD_ATTR_DEREGISTER_CPUMASK, TASKSTATS_CMD_ATTR_PID,
    TASKSTATS_CMD_ATTR_REGISTER_CPUMASK, TASKSTATS_CMD_ATTR_TGID,
};
pub use command::{TaskStatsCmds, TASKSTATS_CMD_GET, TASKSTATS_CMD_NEW};
pub use error::{Stage, TaskStatsError};
pub use event_attrs::{parse_taskstat_event_nlas, TaskStatsEventAttrs};
pub use message::{parse_taskstat_nlas, GenlFamily, GenlHeader, TaskStatsCmd};
pub use stats::Statistics;
