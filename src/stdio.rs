use vstd::prelude::*;

use crate::text::text_equals;

verus! {

/// How one standard stream of a child process is wired at spawn time.
#[derive(Debug)]
pub enum StdioConfig {
    /// Connected to a discard sink or an empty source.
    Null,
    /// Connected to an anonymous pipe whose far end the handle keeps.
    Pipe,
    /// Shares the caller's own stream.
    Inherit,
    /// Connected to a file: read for stdin, truncated or created for output.
    File(String),
}

/// A stream configuration that was rejected before any OS call.
#[derive(Debug)]
pub enum ConfigError {
    /// The mode string is none of `null`, `pipe`, `inherit`, `file`.
    InvalidMode(String),
    /// Mode `file` was given with an empty path.
    MissingPath,
}

pub open spec fn is_known_mode(mode: Seq<char>) -> bool {
    mode == "null"@ || mode == "pipe"@ || mode == "inherit"@ || mode == "file"@
}

/// The inputs on which `parse_stdio_config` succeeds.
pub open spec fn is_valid_config(mode: Seq<char>, path: Seq<char>) -> bool {
    is_known_mode(mode) && (mode == "file"@ ==> path.len() > 0)
}

proof fn lemma_modes_distinct()
    ensures
        "null"@ != "file"@,
        "pipe"@ != "file"@,
        "inherit"@ != "file"@,
        "null"@ != "pipe"@,
        "null"@ != "inherit"@,
        "pipe"@ != "inherit"@,
{
    reveal_strlit("null");
    reveal_strlit("pipe");
    reveal_strlit("inherit");
    reveal_strlit("file");
    assert("null"@[0] != "file"@[0]);
    assert("pipe"@[0] != "file"@[0]);
    assert("null"@[0] != "pipe"@[0]);
}

/// Relation between the inputs of `parse_stdio_config` and its result.
pub open spec fn parses_to(mode: Seq<char>, path: Seq<char>, r: Result<StdioConfig, ConfigError>) -> bool {
    if mode == "null"@ {
        r matches Ok(StdioConfig::Null)
    } else if mode == "pipe"@ {
        r matches Ok(StdioConfig::Pipe)
    } else if mode == "inherit"@ {
        r matches Ok(StdioConfig::Inherit)
    } else if mode == "file"@ {
        if path.len() == 0 {
            r matches Err(ConfigError::MissingPath)
        } else {
            r matches Ok(StdioConfig::File(p)) && p@ == path
        }
    } else {
        r matches Err(ConfigError::InvalidMode(m)) && m@ == mode
    }
}

/// Reads a stream mode string and its companion path.
pub fn parse_stdio_config(mode: &str, path: &str) -> (r: Result<StdioConfig, ConfigError>)
    ensures
        parses_to(mode@, path@, r),
        r is Ok <==> is_valid_config(mode@, path@),
        mode@ == "null"@ ==> r matches Ok(StdioConfig::Null),
        mode@ == "pipe"@ ==> r matches Ok(StdioConfig::Pipe),
        mode@ == "inherit"@ ==> r matches Ok(StdioConfig::Inherit),
{
    proof {
        lemma_modes_distinct();
    }
    if text_equals(mode, "null") {
        Ok(StdioConfig::Null)
    } else if text_equals(mode, "pipe") {
        Ok(StdioConfig::Pipe)
    } else if text_equals(mode, "inherit") {
        Ok(StdioConfig::Inherit)
    } else if text_equals(mode, "file") {
        if path.is_empty() {
            Err(ConfigError::MissingPath)
        } else {
            Ok(StdioConfig::File(path.to_string()))
        }
    } else {
        Err(ConfigError::InvalidMode(mode.to_string()))
    }
}

} // verus!
