use zeroclaw_tools::check_ipv4::{
    begin, dispatch, generate_help, is_valid_ipv4, local_next, local_start, parameters_schema,
    ping_finished, public_next, Ipv4Args, Ipv4Stage, LocalProbe, Platform,
};
use zeroclaw_tools::tool::{CommandOutcome, Opening, ToolResult};

fn args(mode: Option<&str>, target: Option<&str>) -> Ipv4Args {
    Ipv4Args { mode: mode.map(|s| s.to_string()), target_ip: target.map(|s| s.to_string()) }
}

fn exited(success: bool, code: Option<i32>, stdout: &str, stderr: &str) -> CommandOutcome {
    CommandOutcome::Exited { success, code, stdout: stdout.to_string(), stderr: stderr.to_string() }
}

fn reply(st: Ipv4Stage) -> ToolResult {
    match st {
        Ipv4Stage::Reply(r) => r,
        _ => panic!("expected a reply"),
    }
}

#[test]
fn ipv4_accepts_dotted_quads() {
    assert!(is_valid_ipv4("192.168.1.1"));
    assert!(is_valid_ipv4("0.0.0.0"));
    assert!(is_valid_ipv4("255.255.255.255"));
    assert!(is_valid_ipv4("8.8.8.8"));
}

#[test]
fn ipv4_parts_are_unsigned_byte_numerals() {
    assert!(is_valid_ipv4("010.001.000.255"));
    assert!(!is_valid_ipv4("+1.2.3.4"));
    assert!(!is_valid_ipv4("1.2.3.+4"));
    assert!(!is_valid_ipv4("-1.2.3.4"));
    assert!(!is_valid_ipv4("+.2.3.4"));
    assert!(!is_valid_ipv4("256.1.1.1"));
    assert!(!is_valid_ipv4("1.1.1.1000"));
}

#[test]
fn ipv4_rejects_wrong_shapes() {
    assert!(!is_valid_ipv4(""));
    assert!(!is_valid_ipv4("1.2.3"));
    assert!(!is_valid_ipv4("1.2.3.4.5"));
    assert!(!is_valid_ipv4("1..3.4"));
    assert!(!is_valid_ipv4("1.2.3.4."));
    assert!(!is_valid_ipv4(" 1.2.3.4"));
    assert!(!is_valid_ipv4("a.b.c.d"));
    assert!(!is_valid_ipv4("１.2.3.4"));
}

#[test]
fn every_dotted_byte_quad_is_valid() {
    for (a, b, c, d) in [(0u8, 0u8, 0u8, 0u8), (255, 255, 255, 255), (10, 0, 99, 100), (1, 22, 233, 9)] {
        assert!(is_valid_ipv4(&format!("{}.{}.{}.{}", a, b, c, d)));
    }
}

#[test]
fn help_text_is_the_guide() {
    let h = generate_help();
    assert!(h.starts_with("\u{1f527} **Check IPv4 Tool** \u{2014} Network diagnostics\n\n"));
    assert!(h.contains("{\"mode\": \"ping\", \"target_ip\": \"8.8.8.8\"}"));
    assert!(h.ends_with("  \u{2022} `target_ip` \u{2014} Target IPv4 address (required for ping mode)\n"));
}

#[test]
fn ipv4_begin_branches() {
    match begin(&args(None, None)) {
        Opening::Fail(m) => assert_eq!(m, "Missing 'mode' parameter. Use 'help' for usage guide."),
        _ => panic!(),
    }
    match begin(&args(Some("help"), None)) {
        Opening::Reply(r) => {
            assert!(r.success && r.error.is_none());
            assert_eq!(r.output, generate_help());
        }
        _ => panic!(),
    }
    match begin(&args(Some("bogus"), None)) {
        Opening::CheckPolicy(t) => assert_eq!(t, "check_ipv4"),
        _ => panic!(),
    }
}

#[test]
fn dispatch_policy_refusal() {
    let r = reply(dispatch(&args(Some("ping"), Some("8.8.8.8")), Err("denied".to_string()), Platform::Linux));
    assert!(!r.success);
    assert_eq!(r.output, "");
    assert_eq!(r.error.as_deref(), Some("denied"));
}

#[test]
fn dispatch_ping_paths() {
    match dispatch(&args(Some("ping"), None), Ok(()), Platform::Linux) {
        Ipv4Stage::Fail(m) => assert_eq!(m, "Missing 'target_ip' parameter (required for ping mode)"),
        _ => panic!(),
    }
    let r = reply(dispatch(&args(Some("ping"), Some("999.1.1.1")), Ok(()), Platform::Linux));
    assert_eq!(
        r.error.as_deref(),
        Some("Invalid IPv4 address format: '999.1.1.1'. Expected format: x.x.x.x (e.g. 192.168.1.1)")
    );
    match dispatch(&args(Some("ping"), Some("8.8.8.8")), Ok(()), Platform::Linux) {
        Ipv4Stage::Ping { target, command } => {
            assert_eq!(target, "8.8.8.8");
            assert_eq!(command.program, "ping");
            assert_eq!(command.args, vec!["-c", "4", "-W", "5", "8.8.8.8"]);
        }
        _ => panic!(),
    }
}

#[test]
fn dispatch_invalid_mode() {
    let r = reply(dispatch(&args(Some("trace"), None), Ok(()), Platform::Linux));
    assert_eq!(r.error.as_deref(), Some("Invalid mode 'trace'. Use 'help' for full usage guide."));
}

#[test]
fn ping_reports() {
    let target = "8.8.8.8".to_string();
    let out = "PING 8.8.8.8\r\n64 bytes\r\n4 packets transmitted, 4 received, 0% packet loss\r\nrtt\n";
    let r = ping_finished(&target, &exited(true, Some(0), out, ""));
    assert!(r.success);
    assert_eq!(
        r.output,
        format!("Ping to 8.8.8.8 successful.\n{}\n4 packets transmitted, 4 received, 0% packet loss", out.trim())
    );
    let r = ping_finished(&target, &exited(true, Some(0), "no summary", ""));
    assert_eq!(r.output, "Ping to 8.8.8.8 successful.\nno summary\n");
    let r = ping_finished(&target, &exited(false, Some(1), " x ", " unreachable\n"));
    assert!(!r.success);
    assert_eq!(r.output, "x");
    assert_eq!(r.error.as_deref(), Some("Ping to 8.8.8.8 failed (exit code 1). unreachable"));
    let r = ping_finished(&target, &exited(false, Some(-2147483648), "", ""));
    assert_eq!(r.error.as_deref(), Some("Ping to 8.8.8.8 failed (exit code -2147483648). "));
    let r = ping_finished(&target, &CommandOutcome::SpawnFailed("not found".to_string()));
    assert_eq!(r.error.as_deref(), Some("Failed to execute ping command: not found"));
}

#[test]
fn local_lookup_on_linux() {
    let probe = match local_start(Platform::Linux) {
        Ipv4Stage::Local { probe, command } => {
            assert_eq!(command.program, "hostname");
            assert_eq!(command.args, vec!["-I"]);
            probe
        }
        _ => panic!(),
    };
    let r = reply(local_next(probe, &exited(true, Some(0), " fe80::1 10.0.0.5 172.17.0.1 \n", "")));
    assert!(r.success);
    assert_eq!(r.output, "Local IPv4 address: 10.0.0.5");

    let next = local_next(probe, &exited(false, Some(1), "10.0.0.5", ""));
    let probe2 = match next {
        Ipv4Stage::Local { probe, command } => {
            assert_eq!(probe, LocalProbe::IpAddrShow);
            assert_eq!(command.program, "ip");
            assert_eq!(command.args, vec!["-4", "addr", "show"]);
            probe
        }
        _ => panic!(),
    };
    let listing = "1: lo\n    inet 127.0.0.1/8 scope host lo\n2: eth0\n    inet 192.168.1.20/24 brd 192.168.1.255\n";
    let r = reply(local_next(probe2, &exited(true, Some(0), listing, "")));
    assert_eq!(r.output, "Local IPv4 address: 127.0.0.1");
    let r = reply(local_next(probe2, &exited(true, Some(0), "inet6 ::1/128\n", "")));
    assert!(!r.success);
    assert_eq!(r.error.as_deref(), Some("Could not determine local IPv4 address"));
}

#[test]
fn local_lookup_on_macos_and_elsewhere() {
    let probe = match local_start(Platform::MacOs) {
        Ipv4Stage::Local { probe, command } => {
            assert_eq!(command.program, "ipconfig");
            assert_eq!(command.args, vec!["getifaddr", "en0"]);
            probe
        }
        _ => panic!(),
    };
    let r = reply(local_next(probe, &exited(true, Some(0), "192.168.0.7\n", "")));
    assert_eq!(r.output, "Local IPv4 address (en0): 192.168.0.7");
    let probe2 = match local_next(probe, &CommandOutcome::SpawnFailed("x".to_string())) {
        Ipv4Stage::Local { probe, command } => {
            assert_eq!(command.program, "ifconfig");
            assert_eq!(command.args, vec!["en0"]);
            probe
        }
        _ => panic!(),
    };
    let r = reply(local_next(probe2, &exited(false, Some(1), "\tinet 10.1.2.3 netmask 0xffffff00\n", "")));
    assert_eq!(r.output, "Local IPv4 address (en0): 10.1.2.3");
    let r = reply(local_start(Platform::Other));
    assert_eq!(r.error.as_deref(), Some("Could not determine local IPv4 address"));
}

#[test]
fn public_lookup_tries_services_in_order() {
    let first = dispatch(&args(Some("public"), None), Ok(()), Platform::Linux);
    match &first {
        Ipv4Stage::Public { service, command } => {
            assert_eq!(*service, 0);
            assert_eq!(command.program, "curl");
            assert_eq!(command.args, vec!["-s", "-m", "10", "--fail", "https://api.ipify.org"]);
        }
        _ => panic!(),
    }
    match public_next(0, &exited(true, Some(0), "<html>", "")) {
        Ipv4Stage::Public { service, command } => {
            assert_eq!(service, 1);
            assert_eq!(command.args[4], "https://ifconfig.me");
        }
        _ => panic!(),
    }
    let r = reply(public_next(1, &exited(true, Some(0), "203.0.113.9\n", "")));
    assert_eq!(r.output, "Public IPv4 address: 203.0.113.9 (via https://ifconfig.me)");
    let r = reply(public_next(2, &exited(false, Some(22), "203.0.113.9", "")));
    assert_eq!(r.error.as_deref(), Some("Could not determine public IPv4 address. All services failed."));
}

#[test]
fn schema_lists_parameters() {
    let s = parameters_schema();
    assert_eq!(s.required, vec!["mode"]);
    assert_eq!(s.properties.len(), 2);
    assert_eq!(s.properties[0].name, "mode");
    assert_eq!(s.properties[0].choices, Some(vec!["help".to_string(), "ping".to_string(), "local".to_string(), "public".to_string()]));
    assert_eq!(s.properties[1].name, "target_ip");
    assert!(s.properties[1].choices.is_none());
}

#[test]
fn ipv4_dispatch_agrees_with_begin() {
    for verdict in [Ok(()), Err("denied".to_string())] {
        match dispatch(&args(None, None), verdict.clone(), Platform::Linux) {
            Ipv4Stage::Fail(m) => assert_eq!(m, "Missing 'mode' parameter. Use 'help' for usage guide."),
            _ => panic!(),
        }
        let r = reply(dispatch(&args(Some("help"), None), verdict, Platform::Other));
        assert!(r.success);
        assert_eq!(r.output, generate_help());
    }
}
