use zeroclaw_tools::ssh_control::{begin, dispatch, finish, generate_help, resolve_action, SshArgs, SshStage};
use zeroclaw_tools::tool::{CommandOutcome, Opening};

#[test]
fn test_resolve_action_returns_known_commands() {
    assert_eq!(resolve_action("shutdown"), Some("shutdown /s /t 0"));
    assert_eq!(resolve_action("restart"), Some("shutdown /r /t 0"));
    assert_eq!(
        resolve_action("lock"),
        Some("rundll32.exe user32.dll,LockWorkStation")
    );
    assert_eq!(
        resolve_action("sleep"),
        Some("rundll32.exe powrprof.dll,SetSuspendState 0,1,0")
    );
    assert_eq!(resolve_action("hibernate"), Some("shutdown /h"));
    assert_eq!(resolve_action("logoff"), Some("shutdown /l"));
}

#[test]
fn test_resolve_action_returns_none_for_unknown() {
    assert_eq!(resolve_action("unknown_action"), None);
    assert_eq!(resolve_action("custom"), None);
    assert_eq!(resolve_action("help"), None);
}

#[test]
fn test_generate_help_contains_usage_info() {
    let help = generate_help();
    assert!(help.contains("SSH Control Tool"));
    assert!(help.contains("Preset Actions"));
    assert!(help.contains("shutdown"));
    assert!(help.contains("restart"));
    assert!(help.contains("Usage Examples"));
    assert!(help.contains("192.168.2.168"));
}

fn some(s: &str) -> Option<String> {
    Some(s.to_string())
}

fn args(action: Option<&str>) -> SshArgs {
    SshArgs {
        action: action.map(|s| s.to_string()),
        host: some("192.168.2.168"),
        user: some("hello"),
        command: None,
        key_path: None,
    }
}

#[test]
fn help_lists_every_preset_line() {
    let help = generate_help();
    assert!(help.contains("  \u{2022} `lock` \u{2014} rundll32.exe user32.dll,LockWorkStation\n"));
    assert!(help.contains("  \u{2022} `logoff` \u{2014} shutdown /l\n"));
    assert!(help.starts_with("\u{1f527} **SSH Control Tool**"));
}

#[test]
fn begin_without_action_fails() {
    match begin(&args(None)) {
        Opening::Fail(m) => assert_eq!(m, "Missing 'action' parameter"),
        _ => panic!("expected failure"),
    }
}

#[test]
fn begin_help_answers_without_policy() {
    match begin(&args(Some("help"))) {
        Opening::Reply(r) => {
            assert!(r.success);
            assert_eq!(r.output, generate_help());
            assert!(r.error.is_none());
        }
        _ => panic!("expected a reply"),
    }
}

#[test]
fn begin_other_actions_need_policy() {
    match begin(&args(Some("shutdown"))) {
        Opening::CheckPolicy(t) => assert_eq!(t, "ssh_control"),
        _ => panic!("expected a policy check"),
    }
}

#[test]
fn dispatch_refused_by_policy() {
    match dispatch(&args(Some("shutdown")), Err("read-only mode".to_string())) {
        SshStage::Reply(r) => {
            assert!(!r.success);
            assert_eq!(r.output, "");
            assert_eq!(r.error.as_deref(), Some("read-only mode"));
        }
        _ => panic!("expected a reply"),
    }
}

#[test]
fn dispatch_preset_builds_ssh_command() {
    match dispatch(&args(Some("restart")), Ok(())) {
        SshStage::Run { action, target, command } => {
            assert_eq!(action, "restart");
            assert_eq!(target, "hello@192.168.2.168");
            assert_eq!(command.program, "ssh");
            assert_eq!(
                command.args,
                vec![
                    "-i",
                    "~/.ssh/id_ed25519",
                    "-o",
                    "StrictHostKeyChecking=no",
                    "-o",
                    "UserKnownHostsFile=/dev/null",
                    "-o",
                    "ConnectTimeout=10",
                    "hello@192.168.2.168",
                    "shutdown /r /t 0"
                ]
            );
        }
        _ => panic!("expected a run"),
    }
}

#[test]
fn dispatch_custom_uses_given_command_and_key() {
    let mut a = args(Some("custom"));
    a.command = some("ipconfig");
    a.key_path = some("/keys/id");
    match dispatch(&a, Ok(())) {
        SshStage::Run { command, .. } => {
            assert_eq!(command.args[1], "/keys/id");
            assert_eq!(command.args[9], "ipconfig");
        }
        _ => panic!("expected a run"),
    }
}

#[test]
fn dispatch_missing_parameters_fail_in_order() {
    let mut a = args(Some("shutdown"));
    a.host = None;
    a.user = None;
    match dispatch(&a, Ok(())) {
        SshStage::Fail(m) => assert_eq!(m, "Missing 'host' parameter. Use action 'help' for usage guide."),
        _ => panic!("expected failure"),
    }
    let mut a = args(Some("shutdown"));
    a.user = None;
    match dispatch(&a, Ok(())) {
        SshStage::Fail(m) => assert_eq!(m, "Missing 'user' parameter. Use action 'help' for usage guide."),
        _ => panic!("expected failure"),
    }
    match dispatch(&args(Some("custom")), Ok(())) {
        SshStage::Fail(m) => assert_eq!(m, "Missing 'command' parameter for custom action"),
        _ => panic!("expected failure"),
    }
    match dispatch(&args(Some("reboot")), Ok(())) {
        SshStage::Fail(m) => assert_eq!(m, "Unknown action 'reboot'. Use action 'help' for full usage guide."),
        _ => panic!("expected failure"),
    }
}

#[test]
fn finish_reports_each_outcome() {
    let a = "shutdown".to_string();
    let t = "hello@host".to_string();
    let ok = finish(&a, &t, &CommandOutcome::Exited {
        success: true,
        code: Some(0),
        stdout: "  done \n".to_string(),
        stderr: String::new(),
    });
    assert!(ok.success);
    assert_eq!(ok.output, "Successfully executed 'shutdown' on hello@host.\ndone");
    assert!(ok.error.is_none());

    let bad = finish(&a, &t, &CommandOutcome::Exited {
        success: false,
        code: Some(255),
        stdout: " partial ".to_string(),
        stderr: "Connection refused\n".to_string(),
    });
    assert!(!bad.success);
    assert_eq!(bad.output, "partial");
    assert_eq!(bad.error.as_deref(), Some("SSH command failed (exit code 255). Connection refused"));

    let killed = finish(&a, &t, &CommandOutcome::Exited {
        success: false,
        code: None,
        stdout: String::new(),
        stderr: String::new(),
    });
    assert_eq!(killed.error.as_deref(), Some("SSH command failed (exit code unknown). "));

    let spawn = finish(&a, &t, &CommandOutcome::SpawnFailed("No such file or directory (os error 2)".to_string()));
    assert!(!spawn.success);
    assert_eq!(spawn.output, "");
    assert_eq!(
        spawn.error.as_deref(),
        Some("Failed to execute SSH command: No such file or directory (os error 2)")
    );
}

#[test]
fn ssh_dispatch_agrees_with_begin() {
    for verdict in [Ok(()), Err("denied".to_string())] {
        match dispatch(&args(None), verdict.clone()) {
            SshStage::Fail(m) => assert_eq!(m, "Missing 'action' parameter"),
            _ => panic!("expected failure"),
        }
        match dispatch(&args(Some("help")), verdict) {
            SshStage::Reply(r) => {
                assert!(r.success);
                assert_eq!(r.output, generate_help());
            }
            _ => panic!("expected a reply"),
        }
    }
}
