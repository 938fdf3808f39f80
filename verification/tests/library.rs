use blent_host::annex_b::{annex_b_prefix_len, Codec};
use blent_host::cli::{
    command_arguments, encoder_arguments, supports_async_depth, video_filter, CaptureConfig,
};
use blent_host::codecs::{argument, inventory, observed_profile, payload};
use blent_host::config::FileConfig;
use blent_host::decode::decode_line;
use blent_host::desktop::Desktop;
use blent_host::device_tasks::DeviceTasks;
use blent_host::discovery::Discovery;
use blent_host::doctor::{
    attached_devices, check_config, evdi_setup_problem, report_colour_profiles, report_config_file,
    report_connectors, report_autostart, report_daemon, report_display_outputs,
    report_helper_execution, report_keyboard_mode, report_modules, report_tablet_capacity,
    ConfigRead, EvdiConnector, HelperRun, KscreenOutput, UinputState,
};
use blent_host::edid::{edid_cache_name, make_edid_sized, EdidError, Timing};
use blent_host::encoding::{ffmpeg_encoder_name, refresh_codec_config, validate_encoder_for_build};
use blent_host::fifo_reset::Identity;
use blent_host::framing::{
    check_payload, line_step, packet_header, publish_initial_codec_config, FramedAnnexB,
    FramingError, LineEvent,
};
use blent_host::gpu::{helper_arguments, supported_connector, Adapter, GpuError};
use blent_host::helper::{
    active_mode, connected_card, frame_progress, helper_command, helper_report, read_step,
    DetectedMode, HelperReport, ReadOutcome, ReadStep, Waiting,
};
use blent_host::probe_format::{check_probe, level, profile, sample, ProbeError, ProbeStream};
use blent_host::probe_frame::{contains, reference};
use blent_host::report::Report;

fn chars(s: &str) -> Vec<char> {
    s.chars().collect()
}

fn timing() -> Timing {
    Timing {
        h_front: 48,
        h_sync: 32,
        h_back: 80,
        v_front: 3,
        v_sync: 5,
        v_back: 23,
        min_fps: 10,
        max_fps: 90,
    }
}

fn physical_size(edid: &[u8]) -> (u32, u32) {
    (
        u32::from(edid[66]) | (u32::from(edid[68] & 0xf0) << 4),
        u32::from(edid[67]) | (u32::from(edid[68] & 0x0f) << 8),
    )
}

#[test]
fn t114_rust_dtd_reports_exact_physical_size() {
    for (w, h) in [(310, 194), (255, 256), (4095, 4095)] {
        assert_eq!(
            physical_size(&make_edid_sized(1920, 1080, 13865, w, h, &timing()).unwrap()),
            (w, h)
        );
    }
}

#[test]
fn edid_rejects_unrepresentable_sizes() {
    let t = timing();
    assert_eq!(
        make_edid_sized(4096, 1080, 1000, 310, 194, &t),
        Err(EdidError::UnrepresentableMode)
    );
    assert_eq!(
        make_edid_sized(0, 1080, 1000, 310, 194, &t),
        Err(EdidError::UnrepresentableMode)
    );
    assert_eq!(
        make_edid_sized(1920, 1080, 1000, 4096, 194, &t),
        Err(EdidError::PhysicalSize)
    );
    assert_eq!(
        make_edid_sized(1920, 1080, 1000, 310, 0, &t),
        Err(EdidError::PhysicalSize)
    );
}

#[test]
fn edid_cache_name_carries_generation_and_mode() {
    let name: String = edid_cache_name(1920, 1080, 60, 310, 194).into_iter().collect();
    assert_eq!(name, "auto-v6-1920x1080@60-310x194mm.bin");
}

#[test]
fn t448_checksum_uses_ffmpeg_zero_seed() {
    assert!(check_payload(&[0, 0, 0, 1, 0x41, 0x9a, 0x20, 0x2e, 0x82, 0x30], 0x06cd01dc).is_ok());
    assert!(check_payload(b"", 0).is_ok());
    assert_eq!(
        check_payload(&[0, 0, 0, 1, 0x41, 0x9a, 0x20, 0x2e, 0x82, 0x30], 0x0000_000a),
        Err(FramingError::ChecksumMismatch)
    );
    assert_eq!(check_payload(b"a", 0), Err(FramingError::ChecksumMismatch));
}

#[test]
fn framed_stream_accepts_headers_then_monotonic_packets() {
    let mut parser = FramedAnnexB::new(Codec::H264);
    for line in [
        "#tb 0: 1/1000000\n",
        "#media_type 0: video\n",
        "#codec_id 0: h264\n",
        "#dimensions 0: 64x64\n",
    ] {
        assert_eq!(parser.on_line(line.as_bytes()), Ok(LineEvent::Header));
    }
    assert_eq!(parser.time_base(), Some((1, 1_000_000)));
    assert_eq!(
        parser.on_line(b"0, 10, 10, 0, 7, 0x000f0007\n"),
        Ok(LineEvent::Packet {
            size: 7,
            checksum: 0x000f0007
        })
    );
    assert_eq!(parser.current_pts(), Some(10));
    assert_eq!(
        parser.on_line(b"0, 10, 12, 0, 7, 0x000f0007\n"),
        Err(FramingError::NonmonotonicPacket)
    );
    assert_eq!(
        parser.on_line(b"#software: x\n"),
        Err(FramingError::HeaderAfterPacket)
    );
    assert_eq!(parser.on_line(b""), Ok(LineEvent::EndOfStream));
}

#[test]
fn framed_stream_rejects_incomplete_and_foreign_headers() {
    let mut parser = FramedAnnexB::new(Codec::Hevc);
    assert_eq!(parser.on_line(b""), Err(FramingError::MissingStreamHeader));
    assert_eq!(
        parser.on_line(b"#codec_id 0: h264\n"),
        Err(FramingError::CodecMismatch)
    );
    assert_eq!(
        parser.on_line(b"#media_type 0: audio\n"),
        Err(FramingError::ExpectedVideo)
    );
    assert_eq!(
        parser.on_line(b"0, 1, 1, 0, 1, 0x00010001\n"),
        Err(FramingError::IncompleteStreamHeader)
    );
    assert_eq!(parser.on_line(b"#tb 0: 0/1\n"), Err(FramingError::InvalidTimeBase));
    assert_eq!(parser.on_line(b"#nothing\n"), Err(FramingError::MalformedHeader));
    assert_eq!(parser.on_line(b"#other: 1\n"), Err(FramingError::UnexpectedHeader));
    assert_eq!(parser.on_line(&[b'#', 0xff, b'\n']), Err(FramingError::InvalidUtf8));
    assert_eq!(parser.on_line(b"#dimensions 0: 1x64\n"), Err(FramingError::InvalidWidth));
    assert_eq!(parser.on_line(b"#dimensions 0: 64x4097\n"), Err(FramingError::InvalidHeight));
    assert_eq!(parser.on_line(b"#dimensions 0: 64\n"), Err(FramingError::MissingDimensions));
    assert_eq!(parser.on_line(b"#media_type 0: video\n"), Ok(LineEvent::Header));
    assert_eq!(
        parser.on_line(b"#media_type 0: video\n"),
        Err(FramingError::DuplicateHeader)
    );
}

#[test]
fn packet_headers_are_checked_field_by_field() {
    assert_eq!(
        packet_header(b"0, -5, -5, 0, 3, 0x0a0b0c0d\n"),
        Ok((3, 0x0a0b0c0d, -5, -5))
    );
    assert_eq!(packet_header(b"1, 0, 0, 0, 3, 0x1"), Err(FramingError::UnexpectedStreamIndex));
    assert_eq!(packet_header(b"0, 0, 0, -1, 3, 0x1"), Err(FramingError::InvalidDuration));
    assert_eq!(packet_header(b"0, 0, 0, 0, 0, 0x1"), Err(FramingError::InvalidPacketSize));
    assert_eq!(packet_header(b"0, 0, 0, 0, 3, 1"), Err(FramingError::MissingChecksumPrefix));
    assert_eq!(packet_header(b"0, 0, 0"), Err(FramingError::IncompletePacketHeader));
    assert_eq!(packet_header(b"0, x, 0, 0, 3, 0x1"), Err(FramingError::InvalidNumber));
}

#[test]
fn framecrc_packet_lines_read_back_as_written() {
    // Width-padded fields, a negative DTS and a trailing flags field.
    assert_eq!(
        packet_header(b"0,         -2,          0,        1,    12345, 0x00ab12cd, F=0x3\n"),
        Ok((12345, 0x00ab12cd, -2, 0))
    );
    assert_eq!(
        packet_header(b"0,  9223372036854775807, -9223372036854775808, 0, 16777216, 0xffffffff\n"),
        Ok((16777216, 0xffffffff, i64::MAX, i64::MIN))
    );
}

#[test]
fn line_reads_stop_at_newline_and_bound_the_line() {
    let mut line = Vec::new();
    assert_eq!(line_step(&mut line, b"ab\ncd"), Ok((3, true)));
    assert_eq!(line, b"ab\n");
    let mut partial = Vec::new();
    assert_eq!(line_step(&mut partial, b"abc"), Ok((3, false)));
    assert_eq!(line_step(&mut partial, b""), Err(FramingError::TruncatedPacketHeader));
    let mut empty = Vec::new();
    assert_eq!(line_step(&mut empty, b""), Ok((0, true)));
    let mut long = Vec::new();
    assert_eq!(line_step(&mut long, &[b'x'; 513]), Err(FramingError::LineTooLong));
}

#[test]
fn decoder_configuration_is_published_once_or_given_up() {
    let mut extracted = false;
    assert_eq!(publish_initial_codec_config(None, &mut extracted, 10), None);
    assert!(!extracted);
    assert_eq!(
        publish_initial_codec_config(Some(vec![1, 2]), &mut extracted, 20),
        Some(vec![1, 2])
    );
    assert!(extracted);
    assert_eq!(publish_initial_codec_config(Some(vec![3]), &mut extracted, 30), None);
    let mut searched = false;
    assert_eq!(publish_initial_codec_config(None, &mut searched, 2 * 1024 * 1024), None);
    assert!(searched);
}

#[test]
fn utf8_lines_decode_only_when_well_formed() {
    assert_eq!(decode_line("héllo".as_bytes()), Some(chars("héllo")));
    assert_eq!(decode_line(&[0x61, 0xff]), None);
    assert_eq!(annex_b_prefix_len(&[0, 0, 0, 1, 5]), Some(4));
    assert_eq!(annex_b_prefix_len(&[0, 0, 1, 5]), Some(3));
    assert_eq!(annex_b_prefix_len(&[0, 1, 5]), None);
}

#[test]
fn t575_gpu_adapter_requires_owned_supported_capture() {
    let connectors = || {
        vec![EvdiConnector {
            name: "DVI-I-2".into(),
            card: 7,
            edid: Vec::new(),
            connected: true,
        }]
    };
    let configuration = || CaptureConfig {
        encoder: "h264_vaapi_baseline".into(),
        ..Default::default()
    };
    let mut config = configuration();
    let mut outputs = connectors();
    assert_eq!(
        supported_connector(&config, Some(7), &outputs, Desktop::X11).unwrap(),
        "/sys/class/drm/card7-DVI-I-2/edid"
    );
    for desktop in [Desktop::Other, Desktop::KdeWayland] {
        assert!(supported_connector(&config, Some(7), &outputs, desktop).is_err());
    }
    for encoder in ["libx264", "h264_vaapi", "hevc_vaapi", "auto", "unknown"] {
        config.encoder = encoder.into();
        assert!(supported_connector(&config, Some(7), &outputs, Desktop::X11).is_err());
    }
    config = configuration();
    config.adaptive_idle = true;
    assert!(supported_connector(&config, Some(7), &outputs, Desktop::X11).is_err());
    config.adaptive_idle = false;
    config.ten_bit = true;
    assert!(supported_connector(&config, Some(7), &outputs, Desktop::X11).is_err());
    config.ten_bit = false;
    for card in [None, Some(6)] {
        assert!(supported_connector(&config, card, &outputs, Desktop::X11).is_err());
    }
    outputs[0].connected = false;
    assert!(supported_connector(&config, Some(7), &outputs, Desktop::X11).is_err());
    outputs[0].connected = true;
    outputs.extend(connectors());
    assert_eq!(
        supported_connector(&config, Some(7), &outputs, Desktop::X11),
        Err(GpuError::AmbiguousConnector)
    );
}

#[test]
fn gpu_helper_arguments_preserve_settings_without_shell_parsing() {
    let config = CaptureConfig {
        vaapi_device: "/native/device with spaces".into(),
        stream_scale: 2,
        fps: 30,
        quality: 18,
        bitrate: 60000,
        encoder: "h264_vaapi_baseline".into(),
        ..Default::default()
    };
    assert_eq!(
        helper_arguments(&config, (640, 400), "DVI-I-2"),
        [
            "DVI-I-2",
            "/native/device with spaces",
            "640",
            "400",
            "2",
            "30",
            "18",
            "60000",
            "0",
            "desktop"
        ]
    );
}

#[test]
fn gpu_failure_falls_back_once() {
    let mut adapter = Adapter::default();
    assert!(!adapter.encoder_finished());
    adapter.active = true;
    assert!(adapter.encoder_finished());
    assert!(adapter.failed && !adapter.active);
    assert!(!adapter.encoder_finished());
    adapter.active = true;
    adapter.stopped();
    assert!(!adapter.active && adapter.failed);
    let config = CaptureConfig {
        encoder: "h264_vaapi_baseline".into(),
        ..Default::default()
    };
    let connectors = [EvdiConnector {
        name: "DVI-I-2".into(),
        card: 7,
        edid: Vec::new(),
        connected: true,
    }];
    assert!(adapter
        .try_start_using(&config, Some(7), &connectors, Desktop::X11)
        .is_none());
    let mut fresh = Adapter::with_helper(Some("/opt/helper".into()));
    assert_eq!(
        fresh.try_start_using(&config, Some(7), &connectors, Desktop::X11),
        Some(("/opt/helper".into(), "/sys/class/drm/card7-DVI-I-2/edid".into()))
    );
    fresh.spawned(true);
    assert!(fresh.active);
    let mut refused = Adapter::with_helper(Some("/opt/helper".into()));
    assert!(refused
        .try_start_using(&config, Some(7), &connectors, Desktop::Other)
        .is_none());
    assert!(refused.failed);
    assert!(Adapter::default()
        .try_start_using(&config, Some(7), &connectors, Desktop::X11)
        .is_none());
}

#[test]
fn t497_malformed_helper_reports_never_replace_the_last_valid_geometry() {
    assert_eq!(helper_report("STREAM_SIZE 640 480"), HelperReport::StreamSize(640, 480));
    assert_eq!(
        helper_report("MODE_CHANGED 1280 960 60"),
        HelperReport::ModeChanged(DetectedMode {
            width: 1280,
            height: 960,
            refresh: 60
        })
    );
    for token in [
        "",
        "0",
        "-1",
        "4294967296",
        "NaN",
        "999999999999999999999",
        "x",
    ] {
        for line in [
            format!("STREAM_SIZE {token} 480"),
            format!("STREAM_SIZE 640 {token}"),
            format!("MODE_CHANGED {token} 960 60"),
            format!("MODE_CHANGED 1280 {token} 60"),
        ] {
            assert!(
                !matches!(
                    helper_report(&line),
                    HelperReport::StreamSize(..) | HelperReport::ModeChanged(..)
                ),
                "{line}"
            );
        }
    }
    assert_eq!(
        helper_report("FIFO_RESET 1 2"),
        HelperReport::FifoReset(blent_host::fifo_reset::Identity {
            device: 1,
            inode: 2
        })
    );
    assert_eq!(helper_report("MODE_CHANGED 1 2"), HelperReport::UnparseableMode);
    assert_eq!(helper_report("noise"), HelperReport::Other);
}

#[test]
fn helper_handshake_reads_the_card() {
    assert_eq!(connected_card("EVDI_CONNECTED card17"), Some(Ok(17)));
    assert_eq!(connected_card("EVDI_CONNECTED card-1"), Some(Err(())));
    assert_eq!(connected_card("noise"), None);
}

#[test]
fn encoder_frame_size_follows_the_helper_then_the_mode() {
    let config = CaptureConfig {
        width: 1281,
        height: 801,
        stream_scale: 2,
        ..Default::default()
    };
    assert_eq!(active_mode(Some((640, 400)), None, &config), (640, 400));
    assert_eq!(active_mode(Some((0, 400)), None, &config), (640, 400));
    let mode = DetectedMode {
        width: 1923,
        height: 1081,
        refresh: 60,
    };
    assert_eq!(active_mode(None, Some(mode), &config), (960, 540));
    let tiny = CaptureConfig {
        width: 3,
        height: 1,
        stream_scale: 0,
        ..Default::default()
    };
    assert_eq!(active_mode(None, None, &tiny), (2, 2));
}

#[test]
fn helper_command_line_names_every_setting() {
    let mut config = CaptureConfig {
        fps: 60,
        stream_scale: 2,
        adaptive_idle: true,
        ..Default::default()
    };
    let args = helper_command(&config, "/e.bin", "/f.fifo", "/f.idle", "/pipe", Some(4));
    assert_eq!(
        args,
        [
            "--edid",
            "/e.bin",
            "--fps",
            "60",
            "--conversion-threads",
            "0",
            "--scale",
            "2",
            "--capture-fifo",
            "/f.fifo",
            "--idle-control-file",
            "/f.idle",
            "--pipe-size-file",
            "/pipe",
            "--preferred-card",
            "4"
        ]
    );
    config.card = Some(23);
    let args = helper_command(&config, "/e.bin", "/f.fifo", "/f.idle", "/pipe", Some(4));
    assert_eq!(&args[args.len() - 2..], ["--card", "23"]);
}

#[test]
fn t027_discards_partial_frame_when_fifo_writer_disconnects() {
    assert_eq!(read_step(ReadOutcome::Bytes(0)), Some(ReadStep::Wait(Waiting::Writer)));
    assert_eq!(read_step(ReadOutcome::Bytes(3)), Some(ReadStep::Data(3)));
    assert_eq!(read_step(ReadOutcome::Interrupted), Some(ReadStep::Data(0)));
    assert_eq!(read_step(ReadOutcome::WouldBlock), Some(ReadStep::Wait(Waiting::Data)));
    assert_eq!(read_step(ReadOutcome::Failed), None);
    assert_eq!(frame_progress(2, 4, ReadStep::Data(1)), (3, None));
    assert_eq!(
        frame_progress(3, 4, ReadStep::Wait(Waiting::Writer)),
        (0, Some(Waiting::Writer))
    );
    assert_eq!(
        frame_progress(3, 4, ReadStep::Wait(Waiting::Data)),
        (3, Some(Waiting::Data))
    );
}

#[test]
fn t373_cli_color_depth_and_periodic_idr_remain_explicit() {
    for encoder in ["h264_nvenc", "hevc_nvenc", "h264_vaapi", "hevc_vaapi", "libx264"] {
        for ten_bit in [false, true] {
            let config = CaptureConfig {
                encoder: encoder.into(),
                ten_bit,
                instance: u32::MAX,
                ..Default::default()
            };
            let args = command_arguments(&config, 640, 480, true, "/run/capture.fifo", &[]);
            let input = args.iter().position(|a| a == "-i").unwrap();
            for (flag, value) in [
                ("-color_primaries", "bt709"),
                ("-color_trc", "bt709"),
                ("-colorspace", "bt709"),
                ("-color_range", "tv"),
                ("-pix_fmt", "nv12"),
            ] {
                assert!(
                    args[..input].windows(2).any(|p| p == [flag, value]),
                    "T373: input {flag}"
                );
            }
            let value = |flag: &str| {
                args.windows(2)
                    .find(|p| p[0] == flag)
                    .map(|p| p[1].as_str())
            };
            assert_eq!(
                value("-force_key_frames"),
                Some("expr:if(isnan(prev_forced_t),1,gte(t,prev_forced_t+1))")
            );
            let depth = ten_bit && encoder.starts_with("hevc");
            let filter = match (encoder.ends_with("_vaapi"), depth) {
                (true, true) => Some("format=p010le,hwupload"),
                (true, false) => Some("format=nv12,hwupload"),
                (false, true) => Some("format=p010le"),
                (false, false) => None,
            };
            let timing = "settb=1/1000000,setpts='if(isnan(PREV_OUTPTS),PTS,max(PTS,PREV_OUTPTS+1))'";
            let full = value("-vf").expect("T421: all codecs need monotonic timestamps");
            let suffix = full.strip_prefix(timing).expect("T421: unexpected timing filter");
            assert_eq!(suffix.strip_prefix(','), filter, "T373: {encoder}, {ten_bit}");
        }
    }
}

#[test]
fn t400_unsupported_vaapi_omits_optional_depth() {
    let quality: Vec<String> = ["-rc_mode", "CQP", "-qp", "25", "-async_depth", "1"]
        .iter()
        .map(|s| s.to_string())
        .collect();
    for encoder in ["h264_vaapi", "hevc_vaapi"] {
        let config = CaptureConfig {
            encoder: encoder.into(),
            instance: u32::MAX,
            ..Default::default()
        };
        let without = command_arguments(&config, 640, 480, false, "/f", &quality);
        assert!(
            without.iter().all(|arg| arg != "-async_depth"),
            "T400: older stock FFmpeg must not receive unsupported optional controls"
        );
        let with = command_arguments(&config, 640, 480, true, "/f", &quality);
        assert_eq!(with.len(), without.len() + 2);
    }
}

#[test]
fn baseline_profile_reaches_the_vaapi_command() {
    let config = CaptureConfig {
        encoder: "h264_vaapi_baseline".into(),
        ten_bit: true,
        vaapi_device: "/dev/dri/renderD129".into(),
        ..Default::default()
    };
    let args = command_arguments(&config, 640, 480, true, "/f", &[]);
    let value = |flag: &str| {
        args.windows(2)
            .rfind(|pair| pair[0] == flag)
            .map(|pair| pair[1].as_str())
    };
    assert_eq!(value("-c:v"), Some("h264_vaapi"));
    assert_eq!(value("-vaapi_device"), Some("/dev/dri/renderD129"));
    assert_eq!(
        value("-vf"),
        Some("settb=1/1000000,setpts='if(isnan(PREV_OUTPTS),PTS,max(PTS,PREV_OUTPTS+1))',format=nv12,hwupload")
    );
    assert_eq!(value("-f"), Some("h264"));
    assert_eq!(value("-s"), Some("640x480"));
    assert_eq!(args.last().map(String::as_str), Some("pipe:1"));
    let framed = encoder_arguments("libvpx-vp9", Codec::Vp9, false, "/d", 64, 64, 60, "/f", &[]);
    assert!(framed.windows(2).any(|p| p == ["-flush_packets", "1"]));
    assert!(framed.windows(2).any(|p| p == ["-f", "ivf"]));
    assert_eq!(video_filter(false, false), "settb=1/1000000,setpts='if(isnan(PREV_OUTPTS),PTS,max(PTS,PREV_OUTPTS+1))'");
}

#[test]
fn t284_encoder_capabilities_preserve_default_vaapi_and_supported_alternatives() {
    for name in ["h264_nvenc", "hevc_nvenc", "libx264"] {
        assert!(validate_encoder_for_build(name).is_ok(), "T284: {name}");
    }
    for name in [
        "h264_vaapi",
        "h264_vaapi_baseline",
        "hevc_vaapi",
        "vaapih264enc",
    ] {
        assert!(validate_encoder_for_build(name).is_ok(), "T284: {name}");
    }
    assert_eq!(
        validate_encoder_for_build("unknown"),
        Err("Unknown encoder: unknown".to_string())
    );
    assert!(validate_encoder_for_build("auto").is_ok());
    assert_eq!(ffmpeg_encoder_name("vaapih264enc"), chars("h264_vaapi"));
    assert_eq!(ffmpeg_encoder_name("something"), chars("something"));
}

#[test]
fn t438_observed_profiles_and_duplicate_inventory_are_not_guessed() {
    let args = |values: &[&str]| values.iter().map(|s| s.to_string()).collect::<Vec<_>>();
    assert_eq!(
        observed_profile(&args(&["-c:v", "h264_vaapi", "-profile:v", "constrained_baseline"])),
        Some("h264_vaapi_baseline")
    );
    assert_eq!(observed_profile(&args(&["-c:v", "libaom-av1"])), Some("libaom-av1"));
    assert_eq!(
        observed_profile(&args(&["-c:v", "libaom-av1", "-c:v", "libx264"])),
        None
    );
    assert_eq!(observed_profile(&args(&["-c:v", "unknown"])), None);
    assert_eq!(inventory(Some("BLENT_CODECS_V2:vp9=hw;vp9=none"), Codec::Vp9), None);
    assert_eq!(inventory(Some("BLENT_CODECS_V1:hw10"), Codec::Av1), None);
    assert_eq!(inventory(Some("BLENT_CODECS_V1:hw10"), Codec::Hevc), Some(chars("hw10")));
    assert_eq!(
        inventory(Some("x \"BLENT_CODECS_V2:h264=hw;av1=sw\" y"), Codec::Av1),
        Some(chars("sw"))
    );
    assert_eq!(argument(&args(&["-a", "1", "-b"]), "-b"), None);
    assert_eq!(payload(Some("k=PRE: v1 \n"), "PRE:"), Some(chars("v1")));
    assert_eq!(payload(None, "PRE:"), None);
}

#[test]
fn t478_unknown_mismatched_and_non_420_output_cannot_authorize_profiles() {
    let good = || ProbeStream {
        codec_name: Some("h264".into()),
        width: Some(640),
        height: Some(480),
        profile: Some("Constrained Baseline".into()),
        level: Some(31),
        pix_fmt: Some("yuv420p".into()),
    };
    let observed = check_probe(Some(&[good()]), Codec::H264, 640, 480).unwrap();
    assert_eq!(observed.depth, 8);
    assert_eq!(observed.profile, "constrained-baseline");
    assert_eq!(observed.codec, "h264");
    assert_eq!(observed.level, 31);
    let mut bad = good();
    bad.profile = Some("unknown".into());
    assert_eq!(
        check_probe(Some(&[bad]), Codec::H264, 640, 480).unwrap_err(),
        ProbeError::UnknownProfile
    );
    let mut bad = good();
    bad.pix_fmt = Some("yuv444p".into());
    assert_eq!(
        check_probe(Some(&[bad]), Codec::H264, 640, 480).unwrap_err(),
        ProbeError::UnsupportedPixelFormat
    );
    let mut bad = good();
    bad.codec_name = Some("hevc".into());
    assert_eq!(
        check_probe(Some(&[bad]), Codec::H264, 640, 480).unwrap_err(),
        ProbeError::UnexpectedCodec
    );
    assert_eq!(
        check_probe(Some(&[good()]), Codec::H264, 1280, 800).unwrap_err(),
        ProbeError::UnexpectedGeometry
    );
    assert_eq!(
        check_probe(None, Codec::H264, 640, 480).unwrap_err(),
        ProbeError::MissingStreams
    );
    assert_eq!(
        check_probe(Some(&[good(), good()]), Codec::H264, 640, 480).unwrap_err(),
        ProbeError::AmbiguousStreams
    );
    let mut bad = good();
    bad.level = None;
    assert_eq!(
        check_probe(Some(&[bad]), Codec::H264, 640, 480).unwrap_err(),
        ProbeError::MissingLevel
    );
    let mut bad = good();
    bad.profile = None;
    assert_eq!(
        check_probe(Some(&[bad]), Codec::H264, 640, 480).unwrap_err(),
        ProbeError::MissingProfile
    );
    let hevc = ProbeStream {
        codec_name: Some("hevc".into()),
        profile: Some("Main 10".into()),
        level: Some(124),
        pix_fmt: Some("p010le".into()),
        ..good()
    };
    assert_eq!(
        check_probe(Some(&[hevc]), Codec::Hevc, 640, 480).unwrap_err(),
        ProbeError::UnknownLevel
    );
}

#[test]
fn probe_levels_and_profiles_follow_the_wire_names() {
    assert_eq!(level(Codec::Hevc, 123), Some(41));
    assert_eq!(level(Codec::Hevc, 124), None);
    assert_eq!(level(Codec::Av1, 0), Some(20));
    assert_eq!(level(Codec::Av1, 13), Some(51));
    assert_eq!(level(Codec::Av1, 24), None);
    assert_eq!(level(Codec::H264, 31), Some(31));
    assert_eq!(level(Codec::H264, 1 << 32), None);
    assert_eq!(profile(Codec::Vp9, "Profile 2"), Some("profile2"));
    assert_eq!(profile(Codec::Av1, "High"), None);
}

#[test]
fn probe_samples_frame_vp9_and_keep_annex_b_configuration() {
    let framed = sample(Codec::Vp9, 0x1_0280, 480, &[9, 9], None);
    assert_eq!(&framed[..12], b"DKIF\0\0\x20\0VP90");
    assert_eq!(&framed[12..16], &[0x80, 0x02, 0xe0, 0x01]);
    assert_eq!(&framed[16..20], &60u32.to_le_bytes());
    assert_eq!(&framed[32..36], &2u32.to_le_bytes());
    assert_eq!(framed.len(), 46);
    assert_eq!(&framed[44..], &[9, 9]);
    let annex_b = sample(Codec::H264, 64, 64, &[5, 6], Some(&[1, 2, 3]));
    assert_eq!(annex_b, [1, 2, 3, 5, 6]);
    assert_eq!(sample(Codec::Hevc, 64, 64, &[5], None), [5]);
}

#[test]
fn reference_picture_has_a_flat_first_row_and_neutral_chroma() {
    let frame = reference(16, 4);
    assert_eq!(frame.len(), 96);
    assert!(frame[..16].iter().all(|&b| b == 16));
    assert_eq!(frame[16], 16);
    assert_eq!(frame[16 + 8], 16 + 37);
    assert!(frame[64..].iter().all(|&b| b == 128));
    assert!(contains(10, 10, 12, 8));
    assert!(!contains(10, 10, 12, 9));
    assert!(!contains(10, 10, 9, 1));
    assert!(!contains(0, 1, usize::MAX, 2));
}

#[test]
fn device_work_is_bounded_and_starts_in_arrival_order() {
    let mut tasks = DeviceTasks::new(2);
    assert_eq!(tasks.schedule("a".into()), Some(vec!["a".to_string()]));
    assert_eq!(tasks.schedule("b".into()), Some(vec!["b".to_string()]));
    assert_eq!(tasks.schedule("c".into()), Some(vec![]));
    assert_eq!(tasks.schedule("d".into()), Some(vec![]));
    assert_eq!(tasks.schedule("a".into()), None);
    assert_eq!(tasks.schedule("c".into()), None);
    assert!(tasks.contains("d"));
    assert_eq!(tasks.finished("a"), vec!["c".to_string()]);
    assert!(!tasks.cancel("d"));
    assert!(!tasks.contains("d"));
    assert!(tasks.cancel("b"));
    assert_eq!(tasks.retire("b"), (true, vec![]));
    assert_eq!(tasks.schedule("e".into()), Some(vec!["e".to_string()]));
    assert_eq!(tasks.stop(), vec!["c".to_string(), "e".to_string()]);
    assert!(!tasks.contains("c"));
}

#[test]
fn stale_probe_results_are_discarded_after_a_device_returns() {
    let mut discovery = Discovery::new();
    let (cancel, probes) = discovery.refresh(vec!["A".into(), "B".into()]);
    assert!(cancel.is_empty());
    assert_eq!(probes.len(), 2);
    let old_epoch = probes[0].epoch;
    assert_eq!(probes[0].serial, "A");
    assert!(discovery.present("A"));
    let (cancel, _) = discovery.refresh(vec!["B".into()]);
    assert_eq!(cancel, ["A"]);
    assert!(!discovery.present("A"));
    let (_, probes) = discovery.refresh(vec!["B".into(), "A".into()]);
    let fresh = probes.iter().find(|p| p.serial == "A").unwrap();
    assert!(fresh.epoch > old_epoch);
    assert_eq!(discovery.accept("A", old_epoch, Some("id".into()), true), None);
    assert!(discovery.eligible().is_empty());
    assert_eq!(
        discovery.accept("A", fresh.epoch, Some("id".into()), true),
        Some(("A".into(), Some("id".into())))
    );
    assert_eq!(discovery.eligible(), ["A"]);
    let (_, probes) = discovery.refresh(vec!["B".into(), "A".into()]);
    let again = probes.iter().find(|p| p.serial == "A").unwrap();
    assert_eq!(again.epoch, fresh.epoch);
    assert_eq!(again.known.as_deref(), Some("id"));
}

#[test]
fn t497_colour_profiles_apply_only_to_confirmed_virtual_outputs() {
    let output = |name: &str, icc: &str| KscreenOutput {
        name: name.into(),
        enabled: true,
        width: 1,
        height: 1,
        icc_profile: icc.into(),
    };
    let outputs = [
        output("physical", ""),
        output("DVI-I-1", ""),
        output("DVI-I-2", "/fixture/sRGB.icc"),
    ];
    let mut report = Report::new();
    report_colour_profiles(&mut report, &["DVI-I-1".into(), "DVI-I-2".into()], &outputs);
    assert_eq!(report.warnings, 1);
    assert_eq!(report.failures, 0);
    let text = report.messages().join("\n");
    assert!(text.contains("/fixture/sRGB.icc"));
    assert!(!text.contains("physical"));
}

#[test]
fn t497_connector_and_autostart_reports_preserve_unknown_states() {
    let mut report = Report::new();
    report_connectors(
        &mut report,
        &[
            EvdiConnector {
                name: "one".into(),
                card: 7,
                edid: Vec::new(),
                connected: true,
            },
            EvdiConnector {
                name: "two".into(),
                card: 8,
                edid: Vec::new(),
                connected: false,
            },
        ],
    );
    assert_eq!(report.warnings, 1);
    assert!(report.messages().join("\n").contains("two (disconnected"));
    for (load, enabled, warnings) in [
        ("not-found", Some("enabled"), 1),
        ("loaded", Some("enabled\n"), 0),
        ("loaded", Some("disabled"), 1),
        ("loaded", None, 0),
    ] {
        let mut report = Report::new();
        report_autostart(&mut report, load, enabled.map(str::to_owned));
        assert_eq!(report.warnings, warnings);
        assert_eq!(report.failures, 0);
    }
}

#[test]
fn t497_disabled_input_and_missing_capacity_are_diagnostics_not_system_changes() {
    let cfg = FileConfig {
        input_touch: false,
        input_pen: false,
        ..Default::default()
    };
    let mut report = Report::new();
    report_modules(&mut report, &cfg, None, UinputState::Missing, false);
    assert_eq!(report.warnings, 1);
    assert_eq!(report.failures, 1);
    for (wanted, cards) in [(2, 0), (8, 2), (128, 128), (u32::MAX, 0), (2, u32::MAX)] {
        let mut report = Report::new();
        report_tablet_capacity(&mut report, wanted, cards);
        assert_eq!(report.warnings, u32::from(cards < wanted));
        assert_eq!(report.failures, 0);
    }
}

#[test]
fn module_diagnostics_read_the_supplied_count() {
    let cfg = FileConfig::default();
    for count in ["2", "0", "-1", "invalid", "2147483648", " 3\n"] {
        let mut report = Report::new();
        report_modules(&mut report, &cfg, Some(count), UinputState::Writable, false);
        let healthy = count == "2" || count == " 3\n";
        assert_eq!(report.failures, u32::from(!healthy), "{count}");
        assert!(report.messages().iter().any(|text| text.contains("writable")));
    }
    let mut report = Report::new();
    report_modules(&mut report, &cfg, Some("2"), UinputState::NotWritable("denied".into()), true);
    assert_eq!(report.failures, 1);
    let text = report.messages().join("\n");
    assert!(text.contains("not writable: denied"));
    assert!(text.contains("udevadm trigger"));
}

#[test]
fn daemon_findings_distinguish_stale_pid_files_and_duplicates() {
    let mut report = Report::new();
    assert_eq!(report_daemon(&mut report, &[10], false), Some(10));
    assert_eq!((report.warnings, report.failures), (0, 0));
    assert_eq!(report_daemon(&mut report, &[10, 11], true), Some(10));
    assert_eq!(report.failures, 1);
    assert!(report.messages().join("\n").contains("[10, 11]"));
    let mut stale = Report::new();
    assert_eq!(report_daemon(&mut stale, &[], true), None);
    assert_eq!(stale.warnings, 1);
    let printed = stale.printed();
    assert_eq!(printed[0], "[  ok  ] daemon                             not running");
    assert_eq!(printed[2], "         → uscreen start replaces the stale PID file");
}

#[test]
fn output_reports_only_cover_evdi_outputs() {
    let cfg = FileConfig::default();
    let output = |name: &str, enabled: bool, w: i64, h: i64| KscreenOutput {
        name: name.into(),
        enabled,
        width: w,
        height: h,
        icc_profile: String::new(),
    };
    let mut report = Report::new();
    report_display_outputs(
        &mut report,
        &cfg,
        &["DVI-I-1".into(), "DVI-I-2".into()],
        &[
            output("HDMI-1", false, 1, 1),
            output("DVI-I-1", false, 1, 1),
            output("DVI-I-2", true, 2960, 1848),
        ],
    );
    assert_eq!(report.warnings, 1);
    let text = report.messages().join("\n");
    assert!(text.contains("DVI-I-1 is disabled"));
    assert!(text.contains("DVI-I-2 at 2960x1848"));
    assert!(!text.contains("HDMI-1"));
    let mut skewed = Report::new();
    report_display_outputs(&mut skewed, &cfg, &["X".into()], &[output("X", true, -1, 5)]);
    assert!(skewed
        .messages()
        .join("\n")
        .contains("X is -1x5, config says 2960x1848"));
}

#[test]
fn adb_devices_list_only_ready_transports() {
    let list = "List of devices attached\nPHONE\tunauthorized\nTABLET\tdevice\n192.0.2.1:5555\tdevice usb:1\n\n";
    assert_eq!(attached_devices(list), ["TABLET", "192.0.2.1:5555"]);
    assert!(attached_devices("").is_empty());
}

#[test]
fn helper_execution_accepts_usage_and_reports_failures() {
    let run = |success: bool, code: Option<i32>, stderr: &str| HelperRun::Exited {
        success,
        code,
        stderr: stderr.into(),
    };
    for (outcome, failures) in [
        (run(true, Some(0), ""), 0),
        (run(false, Some(1), "Usage: helper\n"), 0),
        (run(false, Some(2), " loader-error \n"), 1),
        (HelperRun::Failed("No such file".into()), 1),
    ] {
        let mut report = Report::new();
        report_helper_execution(&mut report, "/x/evdi_helper", outcome);
        assert_eq!(report.failures, failures);
    }
    let mut report = Report::new();
    report_helper_execution(&mut report, "/x/evdi_helper", run(false, Some(2), " loader-error \n"));
    assert!(report
        .messages()
        .iter()
        .any(|m| m == "evdi_helper: could not execute normally: loader-error"));
}

#[test]
fn config_file_health_distinguishes_missing_unreadable_and_invalid() {
    for (read, failures) in [
        (ConfigRead::Absent, 0),
        (ConfigRead::Valid(FileConfig::default()), 0),
        (ConfigRead::Unreadable("denied".into()), 1),
        (ConfigRead::Invalid("bad".into()), 1),
    ] {
        let mut report = Report::new();
        report_config_file(&mut report, "/c.toml", &read);
        assert_eq!(report.failures, failures);
    }
    let mut report = Report::new();
    report_config_file(&mut report, "/c.toml", &ConfigRead::Absent);
    assert!(report.messages()[0].contains("defaults"));
    let raw = FileConfig {
        fps: 120,
        max_tablets: 2,
        ..Default::default()
    };
    let mut effective = raw.clone();
    effective.sanitize();
    let mut report = Report::new();
    check_config(&mut report, &effective, "/c.toml", ConfigRead::Valid(raw), 1);
    assert_eq!((report.warnings, report.failures), (2, 0));
    let text = report.messages().join("\n");
    assert!(text.contains("120 \u{2014} clamped to 90 at runtime"));
    assert!(text.contains("2 wanted, but only 1 EVDI device(s) exist"));
}

#[test]
fn evdi_problems_are_explained() {
    assert!(evdi_setup_problem(false, None).unwrap().contains("not loaded"));
    assert!(evdi_setup_problem(true, Some("0")).unwrap().contains("root-only"));
    assert!(evdi_setup_problem(true, Some("garbage")).is_some());
    assert!(evdi_setup_problem(true, Some("2\n")).is_none());
}

#[test]
fn t513_keyboard_report_requires_an_exact_supported_mode() {
    for (mode, warnings) in [
        ("-1", 0),
        ("mode2", 0),
        ("-2147483648", 0),
        ("3", 0),
        ("", 0),
        ("0", 0),
        ("1", 1),
        ("2", 1),
    ] {
        let mut report = Report::new();
        report_keyboard_mode(&mut report, mode);
        assert_eq!(report.warnings, warnings, "{mode}");
        assert_eq!(report.failures, 0);
    }
}

#[test]
fn sanitizing_clamps_to_the_supported_ranges_once() {
    let mut cfg = FileConfig {
        bitrate: 200_000,
        fps: 5,
        max_tablets: 0,
        ..Default::default()
    };
    cfg.sanitize();
    assert_eq!((cfg.bitrate, cfg.fps, cfg.max_tablets), (60_000, 10, 1));
    let once = cfg.clone();
    cfg.sanitize();
    assert_eq!((cfg.bitrate, cfg.fps, cfg.max_tablets), (once.bitrate, once.fps, once.max_tablets));
    let defaults = FileConfig::default();
    assert_eq!(defaults.encoder, "auto");
    assert_eq!(defaults.position, "right");
}

#[test]
fn a_new_controller_supersedes_the_previous_one() {
    let mut controllers = blent_host::controllers::Controllers::new();
    let first = controllers.claim();
    assert!(controllers.is_current(first));
    let second = controllers.claim();
    assert_ne!(first, second);
    assert!(!controllers.is_current(first));
    assert!(controllers.is_current(second));
}

#[test]
fn the_verdict_puts_failures_before_warnings() {
    let mut report = Report::new();
    assert_eq!(report.verdict(), "Everything checks out.");
    report_keyboard_mode(&mut report, "1");
    assert_eq!(report.verdict(), "No blocking problems, 1 warning(s).");
    report_helper_execution(&mut report, "/h", HelperRun::Failed("x".into()));
    assert_eq!(
        report.verdict(),
        "1 problem(s) and 1 warning(s) found — fix the FAIL lines first."
    );
    let lines = report.printed();
    let warned = lines.iter().filter(|l| l.starts_with("[ warn ]")).count() as u32;
    let failed = lines.iter().filter(|l| l.starts_with("[ FAIL ]")).count() as u32;
    assert_eq!((warned, failed), (report.warnings, report.failures));
}

#[test]
fn fifo_reset_lines_read_back_the_identity_written() {
    for (device, inode) in [(0u64, 0u64), (7, 123456), (u64::MAX, 1), (1, u64::MAX)] {
        let id = Identity { device, inode };
        let line = format!("FIFO_RESET {device} {inode}");
        assert_eq!(Identity::from_reset_line(&line), Some(id));
        let current = Identity { device, inode: inode ^ 1 };
        assert!(id.matches(id));
        assert!(!id.matches(current));
    }
}

#[test]
fn codec_configuration_refresh_follows_the_encoder_codec() {
    let hevc = [
        0, 0, 0, 1, 64, 1, 42, 0, 0, 1, 66, 1, 43, 0, 0, 1, 68, 1, 44, 0, 0, 1, 38, 1, 128,
    ];
    assert_eq!(refresh_codec_config(&hevc, "hevc_nvenc"), Some(hevc[..19].to_vec()));
    let h264 = [0, 0, 1, 103, 42, 0, 0, 0, 1, 104, 43, 0, 0, 1, 101, 128];
    assert_eq!(refresh_codec_config(&h264, "libx264"), Some(h264[..11].to_vec()));
}

#[test]
fn async_depth_is_used_only_when_the_vaapi_help_lists_it() {
    let listed = "Encoder h264_vaapi [H.264/AVC (VAAPI)]:\n  -low_power <boolean>\n  -async_depth <int> E..V....... Maximum processing parallelism\n";
    let unlisted = "Encoder h264_vaapi [H.264/AVC (VAAPI)]:\n  -low_power <boolean>   see also -async_depth\n";
    assert!(supports_async_depth("h264_vaapi", Some((listed, ""))));
    assert!(supports_async_depth("hevc_vaapi", Some(("", listed))));
    assert!(!supports_async_depth("h264_vaapi", Some((unlisted, ""))));
    assert!(!supports_async_depth("h264_vaapi", None));
    assert!(!supports_async_depth("h264_nvenc", Some((listed, listed))));
}

#[test]
fn idle_control_file_follows_adaptive_idle_and_key_frames_do_not() {
    for enabled in [false, true] {
        let config = CaptureConfig {
            adaptive_idle: enabled,
            ..Default::default()
        };
        let helper = helper_command(&config, "/e.bin", "/d/capture.nv12", "/d/capture.idle", "/pipe", None);
        assert_eq!(helper.iter().any(|a| a == "--idle-control-file"), enabled);
        let args = command_arguments(&config, 64, 64, false, "/d/capture.nv12", &[]);
        let expression = &args
            .windows(2)
            .find(|pair| pair[0] == "-force_key_frames")
            .unwrap()[1];
        assert_eq!(expression, "expr:if(isnan(prev_forced_t),1,gte(t,prev_forced_t+1))");
    }
}
