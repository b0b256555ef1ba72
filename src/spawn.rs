use vstd::prelude::*;

use crate::stdio::{is_valid_config, parse_stdio_config, parses_to, ConfigError, StdioConfig};
use crate::text::text_equals;

verus! {

/// One of the three standard streams of a child process.
#[derive(Debug, Clone, Copy, PartialEq, Eq, Structural)]
pub enum StreamId {
    Stdin,
    Stdout,
    Stderr,
}

/// Why a launch failed; no handle exists after any of them.
#[derive(Debug)]
pub enum LaunchError {
    /// A stream configuration was rejected before any OS call.
    InvalidConfig(StreamId, ConfigError),
    /// The file of a `file` stream could not be opened or created.
    StdioSetupFailed(StreamId, String),
    /// The OS refused to start the process.
    SpawnFailed(String),
    /// A pipe could not be put into non-blocking mode.
    NonBlockingFailed(StreamId, String),
}

/// A validated launch request.
pub struct SpawnPlan {
    pub command: String,
    pub args: Vec<String>,
    pub stdin: StdioConfig,
    pub stdout: StdioConfig,
    pub stderr: StdioConfig,
    /// Environment overrides with unique keys, each with its last value.
    pub env: Vec<(String, String)>,
    /// The working directory, or `None` to inherit the caller's.
    pub cwd: Option<String>,
}

/// Whether entry `i` of `env` is the last one with its key.
pub open spec fn is_last(env: Seq<(String, String)>, i: int) -> bool {
    forall|j: int| i < j < env.len() ==> #[trigger] env[j].0@ != env[i].0@
}

pub open spec fn same_entry(a: (String, String), b: (String, String)) -> bool {
    a.0@ == b.0@ && a.1@ == b.1@
}

/// `e` is the last entry of `env` for its key.
pub open spec fn from_last(env: Seq<(String, String)>, e: (String, String)) -> bool {
    exists|i: int| 0 <= i < env.len() && is_last(env, i) && #[trigger] same_entry(e, env[i])
}

/// `r` holds, once each, the last entry of `env` for every key of `env`.
pub open spec fn merged_env(env: Seq<(String, String)>, r: Seq<(String, String)>) -> bool {
    &&& forall|a: int, b: int| 0 <= a < b < r.len() ==> #[trigger] r[a].0@ != #[trigger] r[b].0@
    &&& forall|m: int| 0 <= m < r.len() ==> #[trigger] from_last(env, r[m])
    &&& forall|i: int|
        0 <= i < env.len() && #[trigger] is_last(env, i) ==> exists|m: int|
            0 <= m < r.len() && #[trigger] same_entry(r[m], env[i])
}

fn is_last_entry(env: &Vec<(String, String)>, i: usize) -> (r: bool)
    requires
        i < env@.len(),
    ensures
        r == is_last(env@, i as int),
{
    let n: usize = env.len();
    let mut j: usize = i + 1;
    while j < n
        invariant
            n == env@.len(),
            i < j <= env@.len(),
            forall|k: int| i < k < j ==> #[trigger] env@[k].0@ != env@[i as int].0@,
        decreases env@.len() - j,
    {
        if text_equals(env[j].0.as_str(), env[i].0.as_str()) {
            return false;
        }
        j = j + 1;
    }
    true
}

proof fn lemma_merged(env: Seq<(String, String)>, r: Seq<(String, String)>, idx: Seq<int>)
    requires
        idx.len() == r.len(),
        forall|m: int| 0 <= m < r.len() ==> 0 <= #[trigger] idx[m] < env.len(),
        forall|a: int, b: int| 0 <= a < b < idx.len() ==> #[trigger] idx[a] < #[trigger] idx[b],
        forall|m: int|
            0 <= m < r.len() ==> is_last(env, #[trigger] idx[m]) && same_entry(r[m], env[idx[m]]),
        forall|k: int|
            0 <= k < env.len() && #[trigger] is_last(env, k) ==> exists|m: int|
                0 <= m < r.len() && idx[m] == k,
    ensures
        merged_env(env, r),
{
    assert forall|a: int, b: int| 0 <= a < b < r.len() implies #[trigger] r[a].0@
        != #[trigger] r[b].0@ by {
        assert(idx[a] < idx[b]);
        assert(is_last(env, idx[a]));
        assert(env[idx[b]].0@ != env[idx[a]].0@);
    }
    assert forall|m: int| 0 <= m < r.len() implies #[trigger] from_last(env, r[m]) by {
        let k = idx[m];
        assert(is_last(env, k));
        assert(same_entry(r[m], env[k]));
    }
    assert forall|k: int| 0 <= k < env.len() && #[trigger] is_last(env, k) implies exists|m: int|
        0 <= m < r.len() && #[trigger] same_entry(r[m], env[k]) by {
        let m = choose|m: int| 0 <= m < r.len() && idx[m] == k;
        assert(same_entry(r[m], env[k]));
    }
}

/// Collapses environment overrides to one entry per key; a later entry
/// overrides an earlier one with the same key.
pub fn merge_env(env: &Vec<(String, String)>) -> (r: Vec<(String, String)>)
    ensures
        merged_env(env@, r@),
{
    let mut r: Vec<(String, String)> = Vec::new();
    let ghost mut idx: Seq<int> = Seq::empty();
    let mut i: usize = 0;
    while i < env.len()
        invariant
            i <= env@.len(),
            idx.len() == r@.len(),
            forall|m: int| 0 <= m < r@.len() ==> 0 <= #[trigger] idx[m] < i,
            forall|a: int, b: int| 0 <= a < b < idx.len() ==> #[trigger] idx[a] < #[trigger] idx[b],
            forall|m: int|
                0 <= m < r@.len() ==> is_last(env@, #[trigger] idx[m]) && same_entry(
                    r@[m],
                    env@[idx[m]],
                ),
            forall|k: int|
                0 <= k < i && #[trigger] is_last(env@, k) ==> exists|m: int|
                    0 <= m < r@.len() && idx[m] == k,
        decreases env@.len() - i,
    {
        if is_last_entry(env, i) {
            let key = env[i].0.clone();
            let value = env[i].1.clone();
            let ghost old_idx = idx;
            r.push((key, value));
            proof {
                idx = idx.push(i as int);
                assert forall|k: int|
                    0 <= k < i + 1 && #[trigger] is_last(env@, k) implies exists|m: int|
                        0 <= m < r@.len() && idx[m] == k by {
                    if k == i {
                        assert(idx[idx.len() - 1] == k);
                    } else {
                        let m = choose|m: int| 0 <= m < old_idx.len() && old_idx[m] == k;
                        assert(idx[m] == k);
                    }
                }
            }
        }
        i = i + 1;
    }
    proof {
        lemma_merged(env@, r@, idx);
    }
    r
}

/// Validates a launch request: the stream configurations of stdin, stdout
/// and stderr, in that order, the first rejected one deciding the error; the
/// environment overrides collapsed to one entry per key; an empty working
/// directory meaning the caller's own.
pub fn plan_spawn(
    command: String,
    args: Vec<String>,
    stdin_mode: &str,
    stdin_path: &str,
    stdout_mode: &str,
    stdout_path: &str,
    stderr_mode: &str,
    stderr_path: &str,
    env: Vec<(String, String)>,
    cwd: String,
) -> (r: Result<SpawnPlan, LaunchError>)
    ensures
        r is Ok <==> (is_valid_config(stdin_mode@, stdin_path@) && is_valid_config(
            stdout_mode@,
            stdout_path@,
        ) && is_valid_config(stderr_mode@, stderr_path@)),
        r matches Err(e) ==> (e matches LaunchError::InvalidConfig(s, c) && if !is_valid_config(
            stdin_mode@,
            stdin_path@,
        ) {
            s == StreamId::Stdin && parses_to(stdin_mode@, stdin_path@, Err(c))
        } else if !is_valid_config(stdout_mode@, stdout_path@) {
            s == StreamId::Stdout && parses_to(stdout_mode@, stdout_path@, Err(c))
        } else {
            s == StreamId::Stderr && parses_to(stderr_mode@, stderr_path@, Err(c))
        }),
        r matches Ok(p) ==> {
            &&& parses_to(stdin_mode@, stdin_path@, Ok(p.stdin))
            &&& parses_to(stdout_mode@, stdout_path@, Ok(p.stdout))
            &&& parses_to(stderr_mode@, stderr_path@, Ok(p.stderr))
            &&& p.command@ == command@
            &&& p.args@ == args@
            &&& merged_env(env@, p.env@)
            &&& if cwd@.len() == 0 {
                p.cwd is None
            } else {
                p.cwd matches Some(c) && c@ == cwd@
            }
        },
{
    let stdin = match parse_stdio_config(stdin_mode, stdin_path) {
        Ok(c) => c,
        Err(e) => {
            return Err(LaunchError::InvalidConfig(StreamId::Stdin, e));
        },
    };
    let stdout = match parse_stdio_config(stdout_mode, stdout_path) {
        Ok(c) => c,
        Err(e) => {
            return Err(LaunchError::InvalidConfig(StreamId::Stdout, e));
        },
    };
    let stderr = match parse_stdio_config(stderr_mode, stderr_path) {
        Ok(c) => c,
        Err(e) => {
            return Err(LaunchError::InvalidConfig(StreamId::Stderr, e));
        },
    };
    let env = merge_env(&env);
    let cwd = if cwd.as_str().is_empty() {
        None
    } else {
        Some(cwd)
    };
    Ok(SpawnPlan { command, args, stdin, stdout, stderr, env, cwd })
}

impl SpawnPlan {
    /// The streams wired to a pipe, which are put into non-blocking mode
    /// after the launch: stdout, stderr, then stdin.
    pub fn piped_streams(&self) -> (r: Vec<StreamId>)
        ensures
            r@ == (if self.stdout is Pipe { seq![StreamId::Stdout] } else { Seq::empty() })
                + (if self.stderr is Pipe { seq![StreamId::Stderr] } else { Seq::empty() })
                + (if self.stdin is Pipe { seq![StreamId::Stdin] } else { Seq::empty() }),
    {
        let mut r: Vec<StreamId> = Vec::new();
        if matches!(self.stdout, StdioConfig::Pipe) {
            r.push(StreamId::Stdout);
        }
        if matches!(self.stderr, StdioConfig::Pipe) {
            r.push(StreamId::Stderr);
        }
        if matches!(self.stdin, StdioConfig::Pipe) {
            r.push(StreamId::Stdin);
        }
        assert(r@ =~= (if self.stdout is Pipe { seq![StreamId::Stdout] } else { Seq::empty() })
            + (if self.stderr is Pipe { seq![StreamId::Stderr] } else { Seq::empty() })
            + (if self.stdin is Pipe { seq![StreamId::Stdin] } else { Seq::empty() }));
        r
    }
}

} // verus!
