use zeroclaw_tools::tool::{CommandOutcome, Opening};
use zeroclaw_tools::wake_on_lan::{begin, dispatch, finish, generate_help, is_valid_mac_address, WolArgs, WolStage};

fn args(mac: Option<&str>) -> WolArgs {
    WolArgs { mac_address: mac.map(|s| s.to_string()) }
}

#[test]
fn mac_accepts_common_formats() {
    assert!(is_valid_mac_address("AA:BB:CC:DD:EE:FF"));
    assert!(is_valid_mac_address("aa-bb-cc-dd-ee-ff"));
    assert!(is_valid_mac_address("AABBCCDDEEFF"));
    assert!(is_valid_mac_address("0a:1B:2c:3D:4e:5F"));
    assert!(is_valid_mac_address("::AABB-CCDDEEFF--"));
}

#[test]
fn mac_rejects_others() {
    assert!(!is_valid_mac_address(""));
    assert!(!is_valid_mac_address("AABCCDDEEFF"));
    assert!(!is_valid_mac_address("AA:BB:CC:DD:EE:FF:00"));
    assert!(!is_valid_mac_address("GG:BB:CC:DD:EE:FF"));
    assert!(!is_valid_mac_address("AA BB CC DD EE FF"));
    assert!(!is_valid_mac_address("AA.BB.CC.DD.EE.FF"));
    assert!(!is_valid_mac_address("ÄA:BB:CC:DD:EE:F"));
}

#[test]
fn every_hex_byte_sextet_is_valid() {
    let bytes = [0x00u8, 0x1f, 0xa0, 0xff, 0x42, 0x9c];
    for sep in ["", ":", "-"] {
        let text: Vec<String> = bytes.iter().map(|b| format!("{:02X}", b)).collect();
        assert!(is_valid_mac_address(&text.join(sep)));
    }
}

#[test]
fn wol_begin_branches() {
    match begin(&args(None)) {
        Opening::Fail(m) => assert_eq!(m, "Missing 'mac_address' parameter. Use 'help' for usage guide."),
        _ => panic!(),
    }
    match begin(&args(Some("help"))) {
        Opening::Reply(r) => {
            assert!(r.success);
            assert_eq!(r.output, generate_help());
            assert!(r.output.contains("Wake-on-LAN Tool"));
        }
        _ => panic!(),
    }
    match begin(&args(Some("zz"))) {
        Opening::CheckPolicy(t) => assert_eq!(t, "wake_on_lan"),
        _ => panic!(),
    }
}

#[test]
fn dispatch_branches() {
    match dispatch(&args(Some("AA:BB:CC:DD:EE:FF")), Err("no".to_string())) {
        WolStage::Reply(r) => {
            assert!(!r.success);
            assert_eq!(r.error.as_deref(), Some("no"));
        }
        _ => panic!(),
    }
    match dispatch(&args(Some("AA:BB")), Ok(())) {
        WolStage::Reply(r) => assert_eq!(
            r.error.as_deref(),
            Some("Invalid MAC address format: 'AA:BB'. Expected format: AA:BB:CC:DD:EE:FF, AA-BB-CC-DD-EE-FF, or AABCCDDEEFF")
        ),
        _ => panic!(),
    }
    match dispatch(&args(Some("AA:BB:CC:DD:EE:FF")), Ok(())) {
        WolStage::Run { mac, command } => {
            assert_eq!(mac, "AA:BB:CC:DD:EE:FF");
            assert_eq!(command.program, "wakeonlan");
            assert_eq!(command.args, vec!["AA:BB:CC:DD:EE:FF"]);
        }
        _ => panic!(),
    }
}

#[test]
fn finish_reports() {
    let mac = "AA:BB:CC:DD:EE:FF".to_string();
    let r = finish(&mac, &CommandOutcome::Exited {
        success: true,
        code: Some(0),
        stdout: "Sending magic packet\n".to_string(),
        stderr: " slow \n".to_string(),
    });
    assert!(r.success && r.error.is_none());
    assert_eq!(
        r.output,
        "Wake-on-LAN magic packet sent to AA:BB:CC:DD:EE:FF.\nOutput: Sending magic packet\nWarning: slow"
    );
    let r = finish(&mac, &CommandOutcome::Exited { success: true, code: Some(0), stdout: "  ".to_string(), stderr: String::new() });
    assert_eq!(r.output, "Wake-on-LAN magic packet sent to AA:BB:CC:DD:EE:FF.");
    let r = finish(&mac, &CommandOutcome::Exited { success: false, code: Some(2), stdout: "o".to_string(), stderr: "bad\n".to_string() });
    assert!(!r.success);
    assert_eq!(r.output, "o");
    assert_eq!(r.error.as_deref(), Some("wakeonlan command failed with exit code 2.\nbad"));
    let r = finish(&mac, &CommandOutcome::SpawnFailed("missing".to_string()));
    assert_eq!(
        r.error.as_deref(),
        Some("Failed to execute wakeonlan command: missing. Ensure `wakeonlan` is installed on the system.")
    );
}

#[test]
fn wol_dispatch_agrees_with_begin() {
    for verdict in [Ok(()), Err("denied".to_string())] {
        match dispatch(&args(None), verdict.clone()) {
            WolStage::Fail(m) => assert_eq!(m, "Missing 'mac_address' parameter. Use 'help' for usage guide."),
            _ => panic!(),
        }
        match dispatch(&args(Some("help")), verdict) {
            WolStage::Reply(r) => assert_eq!(r.output, generate_help()),
            _ => panic!(),
        }
    }
}
