use procman::{merge_env, parse_stdio_config, plan_spawn, ConfigError, LaunchError, StdioConfig, StreamId};

fn s(x: &str) -> String {
    x.to_string()
}

#[test]
fn parses_each_mode() {
    assert!(matches!(parse_stdio_config("null", ""), Ok(StdioConfig::Null)));
    assert!(matches!(parse_stdio_config("pipe", ""), Ok(StdioConfig::Pipe)));
    assert!(matches!(parse_stdio_config("inherit", "ignored"), Ok(StdioConfig::Inherit)));
    match parse_stdio_config("file", "/tmp/out.log") {
        Ok(StdioConfig::File(p)) => assert_eq!(p, "/tmp/out.log"),
        other => panic!("unexpected {:?}", other),
    }
}

#[test]
fn file_mode_without_path_is_rejected() {
    assert!(matches!(parse_stdio_config("file", ""), Err(ConfigError::MissingPath)));
}

#[test]
fn unknown_mode_is_rejected() {
    match parse_stdio_config("socket", "") {
        Err(ConfigError::InvalidMode(m)) => assert_eq!(m, "socket"),
        other => panic!("unexpected {:?}", other),
    }
    assert!(matches!(parse_stdio_config("", ""), Err(ConfigError::InvalidMode(_))));
    assert!(matches!(parse_stdio_config("Pipe", ""), Err(ConfigError::InvalidMode(_))));
}

#[test]
fn later_env_override_wins() {
    let env = vec![(s("A"), s("1")), (s("B"), s("2")), (s("A"), s("3"))];
    let merged = merge_env(&env);
    assert_eq!(merged, vec![(s("B"), s("2")), (s("A"), s("3"))]);
    assert!(merge_env(&Vec::new()).is_empty());
}

#[test]
fn plan_reports_first_bad_stream() {
    let r = plan_spawn(s("cat"), vec![], "pipe", "", "file", "", "bogus", "", vec![], s(""));
    assert!(matches!(r, Err(LaunchError::InvalidConfig(StreamId::Stdout, ConfigError::MissingPath))));
    let r = plan_spawn(s("cat"), vec![], "pipe", "", "pipe", "", "bogus", "", vec![], s(""));
    assert!(matches!(r, Err(LaunchError::InvalidConfig(StreamId::Stderr, ConfigError::InvalidMode(_)))));
    let r = plan_spawn(s("cat"), vec![], "x", "", "pipe", "", "bogus", "", vec![], s(""));
    assert!(matches!(r, Err(LaunchError::InvalidConfig(StreamId::Stdin, ConfigError::InvalidMode(_)))));
}

#[test]
fn plan_keeps_request() {
    let env = vec![(s("K"), s("v1")), (s("K"), s("v2"))];
    let plan = plan_spawn(s("sh"), vec![s("-c"), s("true")], "pipe", "", "null", "", "inherit", "", env, s(""))
        .unwrap();
    assert_eq!(plan.command, "sh");
    assert_eq!(plan.args, vec![s("-c"), s("true")]);
    assert!(matches!(plan.stdin, StdioConfig::Pipe));
    assert!(matches!(plan.stdout, StdioConfig::Null));
    assert!(matches!(plan.stderr, StdioConfig::Inherit));
    assert_eq!(plan.env, vec![(s("K"), s("v2"))]);
    assert_eq!(plan.cwd, None);
    assert_eq!(plan.piped_streams(), vec![StreamId::Stdin]);

    let plan = plan_spawn(s("sh"), vec![], "pipe", "", "pipe", "", "pipe", "", vec![], s("/tmp")).unwrap();
    assert_eq!(plan.cwd, Some(s("/tmp")));
    assert_eq!(plan.piped_streams(), vec![StreamId::Stdout, StreamId::Stderr, StreamId::Stdin]);
}
