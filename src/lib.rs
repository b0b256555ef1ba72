//! Lifecycle of spawned child processes: validation of launch requests,
//! exit tracking that reaps a process exactly once, signal gating that never
//! targets a reaped process id, and the state of the standard-stream pipes.

mod text;
pub mod stdio;
pub mod spawn;
pub mod exit;
pub mod tracking;
pub mod signal;
pub mod stream;
pub mod write;
pub mod fdflags;

pub use exit::{exit_code, ChildSlot, ExitCache, UNKNOWN_EXIT_CODE};
pub use fdflags::nonblocking_flags;
pub use signal::{signal_target, SignalRefusal};
pub use spawn::{merge_env, plan_spawn, LaunchError, SpawnPlan, StreamId};
pub use stdio::{parse_stdio_config, ConfigError, StdioConfig};
pub use stream::{CloseOutcome, IoFailure, PipeSlot, ReadOutcome, WriteOutcome, READ_CHUNK};
pub use text::text_equals;
pub use tracking::{
    known_exit, known_liveness, record_reap, settle_poll, wait_step, BlockOutcome, PollStatus, WaitError, WaitStep,
};
pub use write::{pending_after, write_outcome};
