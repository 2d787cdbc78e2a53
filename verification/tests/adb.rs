use std::cell::RefCell;
use std::path::PathBuf;

use skry::adb::{command_outcome, forward_port, launch_error, launch_failure, parse_port, pkill_outcome};
use skry::{parse_connect_result, parse_devices, parse_mdns_services, parse_pair_result, select_device};
use skry::{Adb, AdbError, Device, DeviceState, MdnsKind, Target, Transport};

const SAMPLE: &str = "List of devices attached\n\
    R5CY139AG4E            device usb:1-1.4 product:e1q model:SM_S928B device:e1q transport_id:1\n\
    192.168.1.5:37251      device product:e1q model:SM_S928B device:e1q transport_id:2\n";

#[test]
fn parses_usb_and_wifi() {
    let devs = parse_devices(SAMPLE);
    assert_eq!(devs.len(), 2);
    assert_eq!(devs[0].serial, "R5CY139AG4E");
    assert_eq!(devs[0].transport, Transport::Usb);
    assert_eq!(devs[0].model.as_deref(), Some("SM S928B"));
    assert_eq!(devs[1].serial, "192.168.1.5:37251");
    assert_eq!(devs[1].transport, Transport::Wifi);
}

#[test]
fn parses_unauthorized_without_model() {
    let out = "List of devices attached\nR5CY139AG4E       unauthorized usb:1-1 transport_id:3\n";
    let devs = parse_devices(out);
    assert_eq!(devs.len(), 1);
    assert_eq!(devs[0].state, DeviceState::Unauthorized);
    assert!(devs[0].model.is_none());
}

#[test]
fn empty_list_parses_to_nothing() {
    assert!(parse_devices("List of devices attached\n\n").is_empty());
}

#[test]
fn select_no_device_errs() {
    assert!(matches!(select_device(&[], None), Err(AdbError::NoDevice)));
}

#[test]
fn select_single_ready() {
    let devs = parse_devices(SAMPLE);
    let one = vec![devs[0].clone()];
    let sel = select_device(&one, None).unwrap();
    assert_eq!(sel.serial, "R5CY139AG4E");
}

#[test]
fn select_ambiguous_when_two_ready() {
    let devs = parse_devices(SAMPLE);
    assert!(matches!(select_device(&devs, None), Err(AdbError::AmbiguousDevice { .. })));
}

#[test]
fn select_by_serial_picks_exact() {
    let devs = parse_devices(SAMPLE);
    let sel = select_device(&devs, Some("192.168.1.5:37251")).unwrap();
    assert_eq!(sel.transport, Transport::Wifi);
}

#[test]
fn select_by_unknown_serial_errs() {
    let devs = parse_devices(SAMPLE);
    assert!(matches!(select_device(&devs, Some("NOPE")), Err(AdbError::SerialNotFound { .. })));
}

#[test]
fn select_single_unauthorized_yields_unauthorized() {
    let out = "List of devices attached\nR5CY139AG4E unauthorized transport_id:1\n";
    let devs = parse_devices(out);
    assert!(matches!(select_device(&devs, None), Err(AdbError::Unauthorized { .. })));
}

#[test]
fn select_single_offline_yields_not_ready() {
    let out = "List of devices attached\nR5CY139AG4E offline transport_id:1\n";
    let devs = parse_devices(out);
    assert!(matches!(select_device(&devs, None), Err(AdbError::NotReady { .. })));
}

#[test]
fn select_serial_unauthorized_yields_unauthorized() {
    let out = "List of devices attached\nABC unauthorized transport_id:1\nXYZ device transport_id:2\n";
    let devs = parse_devices(out);
    assert!(matches!(select_device(&devs, Some("ABC")), Err(AdbError::Unauthorized { .. })));
}

#[test]
fn parses_mdns_services() {
    let out = "List of discovered mdns services\n\
        adb-R5CY139AG4E-AbCdEf\t_adb-tls-connect._tcp\t192.168.1.5:37251\n\
        adb-R5CY139AG4E-AbCdEf\t_adb-tls-pairing._tcp\t192.168.1.5:42000\n";
    let svcs = parse_mdns_services(out);
    assert_eq!(svcs.len(), 2);
    assert_eq!(svcs[0].kind, MdnsKind::Connect);
    assert_eq!(svcs[0].addr, "192.168.1.5:37251");
    assert_eq!(svcs[1].kind, MdnsKind::Pairing);
}

#[test]
fn ignores_daemon_and_header_in_mdns() {
    let out = "* daemon started successfully *\nList of discovered mdns services\n";
    assert!(parse_mdns_services(out).is_empty());
}

#[test]
fn connect_ok_variants() {
    assert!(parse_connect_result("h:5555", "connected to h:5555").is_ok());
    assert!(parse_connect_result("h:5555", "already connected to h:5555").is_ok());
}

#[test]
fn connect_failure_is_error() {
    let err = parse_connect_result(
        "192.168.1.5:5555",
        "failed to connect to '192.168.1.5:5555': Connection refused",
    )
    .unwrap_err();
    assert!(matches!(err, AdbError::ConnectFailed { .. }));
}

#[test]
fn pair_ok_and_failure() {
    assert!(parse_pair_result("h:42000", "Successfully paired to h:42000 [guid=adb-xxx]").is_ok());
    assert!(matches!(
        parse_pair_result("h:42000", "Failed: Wrong pairing code").unwrap_err(),
        AdbError::PairFailed { .. }
    ));
}

#[test]
fn connect_only_daemon_line_is_error() {
    assert!(parse_connect_result("h:5555", "* daemon started successfully *\n").is_err());
}

#[test]
fn connect_case_insensitive() {
    assert!(parse_connect_result("h:5555", "CONNECTED TO h:5555").is_ok());
}

#[test]
fn connect_ok_after_daemon_prefix() {
    let out = "* daemon not running; starting now at tcp:5037 *\n\
        * daemon started successfully *\n\
        connected to 192.168.1.5:5555\n";
    assert!(parse_connect_result("192.168.1.5:5555", out).is_ok());
}

// ---- further cases of the same parsers ----

#[test]
fn device_lines_keep_other_states_and_skip_short_lines() {
    let out = "List of devices attached\nabc recovery\nlonely\n\n";
    let devs = parse_devices(out);
    assert_eq!(devs.len(), 1);
    assert_eq!(devs[0].state, DeviceState::Other("recovery".to_string()));
    assert!(devs[0].model.is_none());
}

#[test]
fn device_state_parse_and_text() {
    assert_eq!(DeviceState::parse("device"), DeviceState::Device);
    assert_eq!(DeviceState::parse("offline"), DeviceState::Offline);
    assert_eq!(DeviceState::parse("authorizing"), DeviceState::Authorizing);
    assert_eq!(DeviceState::parse("bootloader"), DeviceState::Other("bootloader".to_string()));
    assert!(DeviceState::Device.is_ready());
    assert!(!DeviceState::Unauthorized.is_ready());
    assert_eq!(DeviceState::Offline.to_string(), "offline");
    assert_eq!(DeviceState::Other("sideload".to_string()).to_string(), "sideload");
}

#[test]
fn transport_inferred_from_serial() {
    assert_eq!(Device::infer_transport("192.168.1.5:5555"), Transport::Wifi);
    assert_eq!(Device::infer_transport("R5CY139AG4E"), Transport::Usb);
    assert_eq!(Device::infer_transport("host:"), Transport::Usb);
    assert_eq!(Device::infer_transport("host:55a"), Transport::Usb);
    assert_eq!(Device::infer_transport("a:b:7"), Transport::Wifi);
}

#[test]
fn device_label_names_model_and_medium() {
    let devs = parse_devices(SAMPLE);
    assert_eq!(devs[0].label(), "R5CY139AG4E (SM S928B, USB)");
    let bare = Device {
        serial: "10.0.0.2:5555".to_string(),
        state: DeviceState::Device,
        transport: Transport::Wifi,
        model: None,
    };
    assert_eq!(bare.label(), "10.0.0.2:5555 (Wi-Fi)");
}

#[test]
fn mdns_other_kind_and_short_line() {
    let out = "inst _other._tcp 1.2.3.4:9\nonly two\n";
    let svcs = parse_mdns_services(out);
    assert_eq!(svcs.len(), 1);
    assert_eq!(svcs[0].instance, "inst");
    assert_eq!(svcs[0].kind, MdnsKind::Other("_other._tcp".to_string()));
}

#[test]
fn connect_error_keeps_trimmed_detail() {
    match parse_connect_result("h:1", "  cannot connect  \n") {
        Err(AdbError::ConnectFailed { target, detail }) => {
            assert_eq!(target, "h:1");
            assert_eq!(detail, "cannot connect");
        }
        other => panic!("unexpected {:?}", other),
    }
}

#[test]
fn forward_port_takes_last_nonblank_line() {
    assert_eq!(forward_port("* daemon started successfully *\n 40123 \n\n"), "40123");
    assert_eq!(forward_port(""), "");
    assert_eq!(forward_port("\n  \n"), "");
}

#[test]
fn pkill_without_match_is_success() {
    let not_found = Err(AdbError::CommandFailed { args: vec![], code: Some(1), stderr: String::new() });
    assert!(pkill_outcome(not_found).is_ok());
    let other = Err(AdbError::CommandFailed { args: vec![], code: Some(2), stderr: String::new() });
    assert!(matches!(pkill_outcome(other), Err(AdbError::CommandFailed { code: Some(2), .. })));
    assert!(pkill_outcome(Ok("x".to_string())).is_ok());
}

#[test]
fn command_outcome_reports_failure() {
    let ok = command_outcome(true, Some(0), "out".to_string(), "err".to_string(), vec![]);
    assert_eq!(ok.unwrap(), "out");
    let failed = command_outcome(false, None, "out".to_string(), "boom".to_string(), vec!["-s".to_string()]);
    match failed {
        Err(AdbError::CommandFailed { args, code, stderr }) => {
            assert_eq!(args, vec!["-s".to_string()]);
            assert_eq!(code, None);
            assert_eq!(stderr, "boom");
        }
        other => panic!("unexpected {:?}", other),
    }
}

/// A runner that answers every command with `answer`, as adb would print it.
fn answering(answer: &'static str) -> impl Fn(PathBuf, Vec<String>) -> Result<String, AdbError> {
    move |_program: PathBuf, _args: Vec<String>| Ok(answer.to_string())
}

/// A runner that fails every command the way adb fails, reporting its arguments.
fn failing(code: i32) -> impl Fn(PathBuf, Vec<String>) -> Result<String, AdbError> {
    move |_program: PathBuf, args: Vec<String>| {
        command_outcome(false, Some(code), String::new(), "error: closed".to_string(), args)
    }
}

fn sample_target() -> Target {
    let adb = Adb::from_program(PathBuf::from("adb"));
    adb.resolve_target(&answering(SAMPLE), Some("R5CY139AG4E")).unwrap()
}

#[test]
fn devices_reads_what_adb_lists() {
    let seen: RefCell<Vec<(PathBuf, Vec<String>)>> = RefCell::new(Vec::new());
    let run = |program: PathBuf, args: Vec<String>| {
        seen.borrow_mut().push((program, args));
        Ok(SAMPLE.to_string())
    };
    let adb = Adb::from_program(PathBuf::from("/opt/adb"));
    let devs = adb.devices(&run).unwrap();
    assert_eq!(devs.len(), 2);
    assert_eq!(seen.borrow()[0], (PathBuf::from("/opt/adb"), vec!["devices".to_string(), "-l".to_string()]));
    assert!(matches!(adb.devices(&failing(1)), Err(AdbError::CommandFailed { code: Some(1), .. })));
}

#[test]
fn resolve_target_applies_selection() {
    let adb = Adb::from_program(PathBuf::from("adb"));
    let target = adb.resolve_target(&answering(SAMPLE), Some("R5CY139AG4E")).unwrap();
    assert_eq!(target.serial(), "R5CY139AG4E");
    assert_eq!(target.device().transport, Transport::Usb);
    assert_eq!(target.program(), &PathBuf::from("adb"));
    assert!(matches!(adb.resolve_target(&answering(SAMPLE), None), Err(AdbError::AmbiguousDevice { .. })));
    assert!(matches!(
        adb.resolve_target(&answering("List of devices attached\n"), None),
        Err(AdbError::NoDevice)
    ));
}

#[test]
fn target_commands_carry_serial() {
    let target = sample_target();
    assert_eq!(
        target.command_args(&["forward", "tcp:0", "localabstract:skry"]),
        vec!["-s", "R5CY139AG4E", "forward", "tcp:0", "localabstract:skry"]
    );
    let seen: RefCell<Vec<Vec<String>>> = RefCell::new(Vec::new());
    let run = |_program: PathBuf, args: Vec<String>| {
        seen.borrow_mut().push(args);
        Ok(String::new())
    };
    target.push(&run, "a.jar", "/data/local/tmp/a.jar").unwrap();
    target.remove_forward(&run, "tcp:40123").unwrap();
    target.shell(&run, &["ls", "-l"]).unwrap();
    target.kill_server(&run, "skry.Main").unwrap();
    let seen = seen.borrow();
    assert_eq!(seen[0], vec!["-s", "R5CY139AG4E", "push", "a.jar", "/data/local/tmp/a.jar"]);
    assert_eq!(seen[1], vec!["-s", "R5CY139AG4E", "forward", "--remove", "tcp:40123"]);
    assert_eq!(seen[2], vec!["-s", "R5CY139AG4E", "shell", "ls", "-l"]);
    assert_eq!(seen[3], vec!["-s", "R5CY139AG4E", "shell", "pkill", "-f", "skry.Main"]);
}

#[test]
fn server_launch_command() {
    let target = sample_target();
    assert_eq!(
        target.app_process_args("/data/local/tmp/s.jar", "skry.Main", &["2400".to_string()]),
        vec![
            "-s",
            "R5CY139AG4E",
            "shell",
            "CLASSPATH=/data/local/tmp/s.jar",
            "app_process",
            "/",
            "skry.Main",
            "2400"
        ]
    );
    assert_eq!(target.app_process_args("j", "M", &[]).len(), 7);
}

#[test]
fn forward_gives_the_reported_port() {
    let target = sample_target();
    let port = target
        .forward(&answering("* daemon started successfully *\n40123\n"), "tcp:0", "localabstract:skry")
        .unwrap();
    assert_eq!(port, "40123");
    assert_eq!(parse_port(&port), Some(40123));
    match target.forward(&failing(1), "tcp:0", "localabstract:skry") {
        Err(AdbError::CommandFailed { args, code, .. }) => {
            assert_eq!(args, vec!["-s", "R5CY139AG4E", "forward", "tcp:0", "localabstract:skry"]);
            assert_eq!(code, Some(1));
        }
        other => panic!("unexpected {:?}", other),
    }
}

#[test]
fn kill_server_is_idempotent() {
    let target = sample_target();
    assert!(target.kill_server(&failing(1), "skry.Main").is_ok());
    assert!(matches!(target.kill_server(&failing(255), "skry.Main"), Err(AdbError::CommandFailed { .. })));
    assert!(target.kill_server(&answering(""), "skry.Main").is_ok());
}

#[test]
fn shell_and_push_pass_results_through() {
    let target = sample_target();
    assert_eq!(target.shell(&answering("hello\n"), &["echo", "hello"]).unwrap(), "hello\n");
    assert!(matches!(target.push(&failing(1), "a", "b"), Err(AdbError::CommandFailed { .. })));
    assert!(matches!(target.remove_forward(&failing(1), "tcp:1"), Err(AdbError::CommandFailed { .. })));
}

#[test]
fn port_text_is_read_like_u16_parse() {
    for text in ["40123", "+80", "0", "65535", "007", "", "+", "-1", "65536", "12a", " 1", "99999999999"] {
        assert_eq!(parse_port(text), text.parse::<u16>().ok(), "{text:?}");
    }
}

#[test]
fn launch_failure_maps_missing_binary() {
    let missing = std::io::Error::new(std::io::ErrorKind::NotFound, "nope");
    assert!(matches!(launch_failure(true, missing), AdbError::AdbNotFound));
    let other = std::io::Error::new(std::io::ErrorKind::PermissionDenied, "denied");
    assert!(matches!(launch_failure(false, other), AdbError::Io(_)));
    let missing = std::io::Error::new(std::io::ErrorKind::NotFound, "nope");
    assert!(matches!(launch_error(missing), AdbError::AdbNotFound));
    let other = std::io::Error::new(std::io::ErrorKind::PermissionDenied, "denied");
    assert!(matches!(launch_error(other), AdbError::Io(_)));
}

#[test]
fn adb_error_messages() {
    assert!(AdbError::AdbNotFound.to_string().starts_with("no se encontro 'adb' en el PATH."));
    assert_eq!(
        AdbError::NotReady { serial: "X".to_string(), state: "offline".to_string() }.to_string(),
        "dispositivo 'X' en estado 'offline', no operable.\n-> Solucion: reconecta el dispositivo o reinicia la depuracion."
    );
    let failed = AdbError::CommandFailed {
        args: vec!["-s".to_string(), "X".to_string(), "push".to_string()],
        code: Some(3),
        stderr: "  bad \n".to_string(),
    };
    assert_eq!(failed.to_string(), "comando adb fallo (codigo 3): adb -s X push\nbad");
    let signal = AdbError::CommandFailed { args: vec![], code: None, stderr: String::new() };
    assert_eq!(signal.to_string(), "comando adb fallo (codigo senal): adb \n");
    let devs = parse_devices(SAMPLE);
    let amb = AdbError::AmbiguousDevice { devices: devs };
    assert!(amb.to_string().ends_with(
        "Dispositivos disponibles:\n  - R5CY139AG4E (SM S928B, USB)\n  - 192.168.1.5:37251 (SM S928B, Wi-Fi)\n"
    ));
}

// ---- the parsers against direct readings with std's string functions ----

const TRICKY: [&str; 12] = [
    "",
    "\n",
    "List of devices attached\r\nR5CY device model:A_B_C\r\n",
    "  \u{3000}abc\u{2003}device  model:x_y \u{85}\n\n",
    "List of devices attached\nX offline usb:1\nY\tdevice\tproduct:p model:M1 model:M2\n",
    "a:5555 device\nb: device\nc:12x unauthorized\n",
    "* daemon started successfully *\nconnected to h:1\n",
    "ALREADY CONNECTED to x\r\n",
    "\u{a0}successfully paired to h\n",
    "failed to connect\n\n  \n",
    "inst\t_adb-tls-connect._tcp\t1.2.3.4:5\n* x\nList of discovered mdns services\n",
    "\u{2028}40123\u{2029}\n",
];

fn expected_devices(output: &str) -> Vec<(String, String, Transport, Option<String>)> {
    output
        .lines()
        .map(str::trim)
        .filter(|l| !l.is_empty() && *l != "List of devices attached")
        .filter_map(|line| {
            let mut parts = line.split_whitespace();
            let serial = parts.next()?.to_string();
            let state = parts.next()?.to_string();
            let model = parts.find_map(|kv| kv.strip_prefix("model:")).map(|m| m.replace('_', " "));
            let wifi = serial
                .rsplit_once(':')
                .is_some_and(|(_, port)| !port.is_empty() && port.bytes().all(|b| b.is_ascii_digit()));
            Some((serial, state, if wifi { Transport::Wifi } else { Transport::Usb }, model))
        })
        .collect()
}

#[test]
fn device_parsing_agrees_with_std_reading() {
    for text in TRICKY {
        let got: Vec<(String, String, Transport, Option<String>)> = parse_devices(text)
            .into_iter()
            .map(|d| (d.serial, d.state.to_string(), d.transport, d.model))
            .collect();
        assert_eq!(got, expected_devices(text), "{text:?}");
    }
}

#[test]
fn mdns_parsing_agrees_with_std_reading() {
    for text in TRICKY {
        let expected: Vec<(String, String)> = text
            .lines()
            .map(str::trim)
            .filter(|l| !l.is_empty() && !l.starts_with('*') && *l != "List of discovered mdns services")
            .filter_map(|l| {
                let mut parts = l.split_whitespace();
                let instance = parts.next()?.to_string();
                let _kind = parts.next()?;
                let addr = parts.next()?.to_string();
                Some((instance, addr))
            })
            .collect();
        let got: Vec<(String, String)> =
            parse_mdns_services(text).into_iter().map(|s| (s.instance, s.addr)).collect();
        assert_eq!(got, expected, "{text:?}");
    }
}

#[test]
fn connect_and_pair_agree_with_std_reading() {
    for text in TRICKY {
        let connected = text.lines().map(str::trim).any(|l| {
            let l = l.to_ascii_lowercase();
            l.starts_with("connected to") || l.starts_with("already connected")
        });
        assert_eq!(parse_connect_result("t", text).is_ok(), connected, "{text:?}");
        let paired = text.lines().map(str::trim).any(|l| l.to_ascii_lowercase().starts_with("successfully paired"));
        assert_eq!(parse_pair_result("t", text).is_ok(), paired, "{text:?}");
        if let Err(AdbError::ConnectFailed { detail, .. }) = parse_connect_result("t", text) {
            assert_eq!(detail, text.trim());
        }
    }
}

#[test]
fn forward_port_agrees_with_std_reading() {
    for text in TRICKY {
        let expected = text.lines().rev().map(str::trim).find(|l| !l.is_empty()).unwrap_or("").to_string();
        assert_eq!(forward_port(text), expected, "{text:?}");
    }
}
