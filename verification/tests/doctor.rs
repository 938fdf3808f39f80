use blent_host::codecs;
use blent_host::config::FileConfig;
use blent_host::doctor::{
    check_tablet_capacity, report_autostart, report_codec, report_configured_bitrate,
    report_configured_display, report_configured_fps, report_configured_input,
    report_encoder_availability, report_forwarding, report_helpers, report_input_dependencies,
    report_input_mapping, report_kwin_reachability, report_output_mode, report_process_query,
    MappingCheck, check_virtual_display, EvdiConnector, KscreenOutput, KscreenRead,
    select_sessions, TabletSession, app_installed, candidate_sessions, pick_candidate,
    select_session, transport_of, AttachedDevice, Transport, report_tablet_app,
};
use blent_host::desktop::Desktop;
use blent_host::report::Report;

#[test]
fn t313_doctor_accepts_the_cli_vaapi_alias() {
    let inventory = " V....D h264_vaapi H.264/AVC (VAAPI)\n V....D libx264 H.264/AVC\n";
    for (encoder, failures) in [("h264_vaapi", 0), ("vaapih264enc", 0), ("hevc_vaapi", 1)] {
        let mut cfg = FileConfig {
            encoder: encoder.into(),
            ..Default::default()
        };
        cfg.sanitize();
        assert_eq!(cfg.encoder, encoder, "T313: accepted configuration changed");
        let mut report = Report::new();
        report_encoder_availability(&mut report, &cfg, inventory);
        assert_eq!(report.failures, failures, "T313: encoder {encoder}");
        assert_eq!(report.warnings, 0);
        if failures > 0 {
            assert!(report
                .messages()
                .iter()
                .any(|message| message == "available instead: h264_vaapi, libx264"));
        }
    }
}

#[test]
fn t301_saved_bitrate_warnings_cover_both_limits() {
    for (bitrate, expected, warnings) in [
        (0, "0 Mbps — clamped to 1 Mbps at runtime", 1),
        (999, "0.999 Mbps — clamped to 1 Mbps at runtime", 1),
        (1000, "1 Mbps", 0),
        (60000, "60 Mbps", 0),
        (60001, "60.001 Mbps — clamped to 60 Mbps at runtime", 1),
    ] {
        let raw = FileConfig {
            bitrate,
            ..Default::default()
        };
        let mut effective = raw.clone();
        effective.sanitize();
        let mut report = Report::new();
        report_configured_bitrate(&mut report, &effective, Some(&raw));
        assert_eq!(report.warnings, warnings, "T301: saved bitrate {bitrate}");
        assert_eq!(report.failures, 0);
        assert!(
            report
                .messages()
                .iter()
                .any(|message| message.contains(expected)),
            "T301: inaccurate bitrate diagnostic: {:?}",
            report.messages()
        );
    }
}

#[test]
fn t301_saved_fps_warnings_cover_both_limits() {
    for (fps, warnings) in [(0, 1), (9, 1), (10, 0), (90, 0), (91, 1)] {
        let raw = FileConfig {
            fps,
            ..Default::default()
        };
        let mut effective = raw.clone();
        effective.sanitize();
        let mut report = Report::new();
        report_configured_fps(&mut report, &effective, Some(&raw));
        assert_eq!(report.warnings, warnings, "T301: saved fps {fps}");
        assert_eq!(report.failures, 0);
        if warnings > 0 {
            let text = report.messages().join("\n");
            assert!(text.contains(&format!("{fps} — clamped to {} at runtime", effective.fps)));
            assert_eq!(
                text.contains("above is duplicate frames"),
                fps > 90,
                "T301: high-rate guidance must not be given for a low rate"
            );
        }
    }
}

#[test]
fn t098_codec_report_requires_decoder_evidence() {
    let cfg = FileConfig {
        encoder: "hevc_nvenc".into(),
        ..Default::default()
    };
    for (raw, ten_bit, warnings, failures, message) in [
        (None, false, 1, 0, "unknown"),
        (Some("video/hevc Main10"), false, 1, 0, "unknown"),
        (
            Some("data=\"USCREEN_CODECS_V1:none\""),
            false,
            0,
            1,
            "no HEVC decoder",
        ),
        (
            Some("data=\"USCREEN_CODECS_V1:sw10\""),
            false,
            1,
            0,
            "software",
        ),
        (
            Some("data=\"USCREEN_CODECS_V1:hw8\""),
            true,
            0,
            1,
            "Main10 not reported",
        ),
        (
            Some("data=\"USCREEN_CODECS_V1:hw10\""),
            true,
            0,
            0,
            "hardware HEVC Main10",
        ),
        (
            Some("data=\"USCREEN_CODECS_V1:unknown10\""),
            false,
            1,
            0,
            "acceleration unknown",
        ),
    ] {
        let mut report = Report::new();
        report_codec(
            &mut report,
            &FileConfig {
                ten_bit,
                ..cfg.clone()
            },
            raw,
        );
        assert_eq!(
            (report.warnings, report.failures),
            (warnings, failures),
            "{raw:?}"
        );
        let text = report.messages().join("\n");
        assert!(text.contains(message), "{text}");
        assert!(
            !text.contains("switch the encoder") && !text.contains("tick 10-bit"),
            "{text}"
        );
    }
}

#[test]
fn t076_forwarding_checks_exact_app_to_host_ports_and_hints_selected_tablet() {
    let cfg = FileConfig {
        video_port: 19000,
        input_port: 19001,
        ..Default::default()
    };
    let mut r = Report::new();
    report_forwarding(
        &mut r,
        &cfg,
        "TABLET",
        "USB tcp:19000 tcp:19000\nUSB tcp:19001 tcp:19001\n",
    );
    assert_eq!(r.warnings, 2);
    let hints = r.messages().join("\n");
    assert!(hints.contains("adb -s TABLET reverse tcp:8890 tcp:19000"));
    assert!(hints.contains("adb -s TABLET reverse tcp:8891 tcp:19001"));
    let mut healthy = Report::new();
    report_forwarding(
        &mut healthy,
        &cfg,
        "TABLET",
        "USB tcp:8890 tcp:19000\nUSB tcp:8891 tcp:19001\n",
    );
    assert_eq!(healthy.warnings, 0);
}

#[test]
fn t024_one_helper_per_tablet_is_healthy() {
    let mut r = Report::new();
    report_helpers(&mut r, &[11, 12], Some(10), 2);
    assert_eq!(r.failures, 0);
    report_helpers(&mut r, &[11, 12, 13], Some(10), 2);
    assert_eq!(r.failures, 1);
}

#[test]
fn t025_auto_resolution_does_not_report_a_working_mode_as_corrupt() {
    let mut r = Report::new();
    let cfg = FileConfig {
        auto_resolution: true,
        ..Default::default()
    };
    report_output_mode(&mut r, &cfg, "DVI-I-1", 1920, 1080);
    assert_eq!(r.failures, 0);
    assert!(!r.messages().iter().any(|m| m.contains("skewed")));
}

#[test]
fn t060_missing_service_is_distinguished_from_disabled_service() {
    let mut r = Report::new();
    report_autostart(&mut r, "not-found", Some(String::new()));
    let messages = r.messages().join("\n");
    assert!(messages.contains("not installed"), "{messages}");
    assert!(!messages.contains("enable --now"));
}

#[test]
fn t438_auto_inventory_does_not_require_every_optional_codec() {
    let mut report = Report::new();
    codecs::report_codec(
        &mut report,
        &FileConfig::default(),
        Some("BLENT_CODECS_V2:h264=hw;hevc=none;vp9=none;av1=none"),
    );
    assert_eq!((report.warnings, report.failures), (0, 0));
}

#[test]
fn t438_unknown_encoder_does_not_claim_an_h264_selection() {
    let mut report = Report::new();
    let cfg = FileConfig {
        encoder: "unrecognized-encoder".into(),
        ..Default::default()
    };
    codecs::report_codec(&mut report, &cfg, Some("BLENT_CODECS_V2:h264=hw"));
    let text = report.messages().join("\n");
    assert!(text.contains("unknown encoder"), "T438: {text}");
    assert!(!text.contains("H.264"), "T438: {text}");
}

#[test]
fn t497_process_inventory_failure_is_unknown_not_an_empty_success() {
    let mut report = Report::new();
    report_process_query(
        &mut report,
        &FileConfig::default(),
        Err("fixture process access denied".to_string()),
    );
    assert_eq!(report.warnings, 1);
    assert_eq!(report.failures, 0);
    let messages = report.messages().join("\n");
    assert!(messages.contains("process inspection"));
    assert!(messages.contains("fixture process access denied"));
    assert!(!messages.contains("daemon PID"));
}

#[test]
fn t497_capacity_adapter_reports_requested_multiple_slots() {
    let cfg = FileConfig {
        max_tablets: 2,
        ..Default::default()
    };
    let mut report = Report::new();
    check_tablet_capacity(&mut report, &cfg, 0);
    let messages = report.messages().join("\n");
    assert!(messages.contains("tablet slots"));
    assert!(messages.contains('2'));
    assert_eq!(report.failures, 0);
}

#[test]
fn t497_input_report_distinguishes_disabled_and_dependent_devices() {
    for flags in 0..16 {
        let cfg = FileConfig {
            input_touch: flags & 1 != 0,
            input_pen: flags & 2 != 0,
            input_pointer: flags & 4 != 0,
            pen_only: flags & 8 != 0,
            ..Default::default()
        };
        let mut report = Report::new();
        report_configured_input(&mut report, &cfg);
        report_input_dependencies(&mut report, &cfg);
        let text = report.messages().join("\n");
        assert_eq!(
            text.contains("display-only"),
            !cfg.input_touch && !cfg.input_pen
        );
        assert_eq!(report.warnings, u32::from(cfg.pen_only && !cfg.input_pen));
        assert_eq!(report.failures, 0);
    }
}

#[test]
fn t497_display_report_follows_mode_position_and_actual_dimensions() {
    for position in ["left", "right", "above", "below", "unknown"] {
        for enabled in [false, true] {
            let cfg = FileConfig {
                position: position.into(),
                auto_resolution: enabled,
                pen_only: enabled,
                ..Default::default()
            };
            let mut report = Report::new();
            report_configured_display(&mut report, &cfg);
            report_output_mode(&mut report, &cfg, "fixture", 640, 480);
            assert_eq!(report.warnings, u32::from(!enabled));
            assert_eq!(report.failures, 0);
            let text = report.messages().join("\n");
            assert_eq!(text.contains("follows the tablet"), enabled);
            assert_eq!(text.contains("no display is streamed"), enabled);
        }
    }
}

#[test]
fn input_mapping_follows_devices_and_desktop() {
    let mut cfg = FileConfig {
        input_touch: false,
        input_pen: false,
        ..Default::default()
    };
    let mut report = Report::new();
    assert_eq!(report_input_mapping(&mut report, &cfg, Desktop::Other), None);
    assert_eq!((report.warnings, report.failures), (0, 0));
    assert_eq!(
        report.messages(),
        vec!["input mapping: disabled \u{2014} no virtual input devices requested".to_string()]
    );
    cfg.input_pen = true;
    let mut report = Report::new();
    assert_eq!(
        report_input_mapping(&mut report, &cfg, Desktop::X11),
        Some(MappingCheck::X11Tools)
    );
    assert_eq!(
        report_input_mapping(&mut report, &cfg, Desktop::KdeWayland),
        Some(MappingCheck::Kwin)
    );
    assert!(report.messages().is_empty());
    assert_eq!(report_input_mapping(&mut report, &cfg, Desktop::Other), None);
    assert_eq!(report.warnings, 1);
    assert_eq!(report.messages().len(), 2);
}

#[test]
fn kwin_reachability_gates_the_keyboard_check() {
    let mut report = Report::new();
    assert!(report_kwin_reachability(&mut report, Some("busctl")));
    assert_eq!(report.messages(), vec!["KWin D-Bus: reachable via busctl".to_string()]);
    assert_eq!(report.failures, 0);
    let mut report = Report::new();
    assert!(!report_kwin_reachability(&mut report, None));
    assert_eq!(report.failures, 1);
    assert_eq!(report.messages().len(), 2);
}

#[test]
fn virtual_display_needs_a_connector_and_follows_the_compositor() {
    let cfg = FileConfig::default();
    let mut report = Report::new();
    check_virtual_display(&mut report, &cfg, &[], KscreenRead::Outputs(vec![]));
    assert_eq!(report.failures, 1);
    assert_eq!(report.messages()[0], "EVDI connector: none found in sysfs");
    let connectors = [EvdiConnector {
        name: "DVI-I-1".into(),
        card: 2,
        edid: vec![],
        connected: true,
    }];
    let mut report = Report::new();
    check_virtual_display(&mut report, &cfg, &connectors, KscreenRead::InvalidJson);
    assert_eq!((report.warnings, report.failures), (1, 0));
    assert_eq!(
        report.messages(),
        vec![
            "EVDI connector: DVI-I-1 (connected)".to_string(),
            "kscreen-doctor: unparseable JSON output".to_string()
        ]
    );
    let outputs = vec![
        KscreenOutput {
            name: "DVI-I-1".into(),
            enabled: false,
            width: 0,
            height: 0,
            icc_profile: String::new(),
        },
        KscreenOutput {
            name: "eDP-1".into(),
            enabled: false,
            width: 0,
            height: 0,
            icc_profile: String::new(),
        },
    ];
    let mut report = Report::new();
    check_virtual_display(&mut report, &cfg, &connectors, KscreenRead::Outputs(outputs));
    assert_eq!(report.warnings, 1, "only the EVDI output is judged");
    assert_eq!(report.messages()[1], "KDE output: DVI-I-1 is disabled");
}

fn session(serial: &str, instance: u32) -> TabletSession {
    TabletSession {
        serial: serial.into(),
        instance,
        video_port: 8890 + 2 * instance as u16,
        input_port: 8891 + 2 * instance as u16,
    }
}

#[test]
fn sessions_are_selected_by_the_device_list_in_session_order() {
    let list = "List of devices attached\nR52W\tdevice\n192.168.1.9:5555\tdevice\nZX1\toffline\n";
    let mut report = Report::new();
    let selected = select_sessions(
        &mut report,
        list,
        &[session("192.168.1.9:5555", 0), session("ZX1", 1), session("R52W", 2)],
    );
    assert_eq!(selected, ["192.168.1.9:5555", "R52W"]);
    assert_eq!((report.warnings, report.failures), (1, 0));
    assert_eq!(
        report.messages(),
        [
            "tablet session: slot 1: 192.168.1.9:5555 (video 8890, input 8891)",
            "tablet session: slot 2: ZX1 (video 8892, input 8893)",
            "tablet: active transport no longer reachable; waiting for daemon refresh",
            "tablet session: slot 3: R52W (video 8894, input 8895)",
        ]
    );
    let mut report = Report::new();
    assert!(select_sessions(&mut report, "List of devices attached\nR52W\tunauthorized\n", &[]).is_empty());
    assert_eq!(report.failures, 1);
    assert_eq!(report.messages()[0], "tablet: attached but unauthorized");
    let mut report = Report::new();
    assert!(select_sessions(&mut report, "List of devices attached\n", &[]).is_empty());
    assert_eq!(report.warnings, 1);
    assert_eq!(report.messages(), ["tablet: no active tablet session"]);
}

fn device(serial: &str, identity: Option<&str>, installed: bool) -> AttachedDevice {
    AttachedDevice {
        serial: serial.into(),
        identity: identity.map(String::from),
        app_installed: installed,
    }
}

#[test]
fn transports_follow_the_serial_form() {
    assert_eq!(transport_of("R52W"), Transport::Usb);
    assert_eq!(transport_of("192.0.2.1:5555"), Transport::Network);
    assert_eq!(transport_of("adb-R52W-abc._adb-tls-connect._tcp"), Transport::Network);
    assert!(app_installed(Some("package:/data/app/uscreen.apk\n")));
    assert!(!app_installed(Some("")));
    assert!(!app_installed(None));
}

#[test]
fn the_candidate_is_the_first_cable_attached_tablet_with_the_app() {
    // The listing of the active-session test: only TABLET has the app.
    let listed = [
        device("PHONE", Some("p"), false),
        device("TABLET", Some("t"), true),
        device("192.0.2.1:5555", Some("n"), false),
        device("EXTRA", Some("e"), false),
    ];
    assert_eq!(pick_candidate(&listed).as_deref(), Some("TABLET"));
    // The same tablet over the network and over a cable: the cable wins.
    let both = [device("192.0.2.1:5555", Some("t"), true), device("TABLET", Some("t"), true)];
    assert_eq!(pick_candidate(&both).as_deref(), Some("TABLET"));
    // A network endpoint of a tablet already seen over a cable is passed over.
    let seen = [device("TABLET", Some("t"), false), device("192.0.2.1:5555", Some("t"), true)];
    assert_eq!(pick_candidate(&seen), None);
    assert_eq!(pick_candidate(&[]), None);

    let cfg = FileConfig::default();
    let mut report = Report::new();
    let sessions = candidate_sessions(&mut report, &cfg, &listed);
    assert_eq!(report.warning_count(), 1);
    assert!(report.messages()[0].contains("candidate"));
    assert_eq!(sessions.len(), 1);
    assert_eq!(
        (sessions[0].serial.as_str(), sessions[0].instance, sessions[0].video_port),
        ("TABLET", 0, cfg.video_port)
    );
    let serials = ["PHONE".to_string(), "TABLET".to_string()];
    let mut report = Report::new();
    assert!(select_session(&mut report, &serials, &sessions[0]));
    assert!(!select_session(&mut report, &serials[..1], &sessions[0]));
    assert_eq!(report.warning_count(), 1);
    assert_eq!(report.failure_count(), 0);
}

#[test]
fn the_tablet_app_is_reported_installed_or_with_how_to_install_it() {
    let mut report = Report::new();
    report_tablet_app(&mut report, "TABLET", Some("package:com.uscreen\n"));
    report_tablet_app(&mut report, "TABLET", None);
    assert_eq!(report.messages(), ["tablet app: installed"]);
    let mut report = Report::new();
    report_tablet_app(&mut report, "TABLET", Some(""));
    assert_eq!(report.failure_count(), 1);
    assert_eq!(
        report.messages()[1],
        "download uscreen.apk from https://github.com/geraldo-netto/UScreen/releases then: adb -s TABLET install -r uscreen.apk"
    );
}
