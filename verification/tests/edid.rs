use blent_host::edid::{make_edid, Timing};

fn timing() -> Timing {
    Timing {
        h_front: 48,
        h_sync: 32,
        h_back: 80,
        v_front: 3,
        v_sync: 5,
        v_back: 23,
        min_fps: 10,
        max_fps: 90,
    }
}

/// The pixel clock of a mode with the fixture's blanking, in units of 10 kHz.
fn pixel_clock(width: u32, height: u32, fps: u32) -> u16 {
    let t = timing();
    let total = u64::from(width + t.h_front + t.h_sync + t.h_back)
        * u64::from(height + t.v_front + t.v_sync + t.v_back)
        * u64::from(fps);
    u16::try_from(total.div_ceil(10_000)).unwrap()
}

fn edid(width: u32, height: u32, fps: u32) -> Vec<u8> {
    make_edid(width, height, pixel_clock(width, height, fps), &timing())
}

fn assert_t320_dummy_descriptor(edid: &[u8]) {
    assert_eq!(edid.len(), 128);
    assert_eq!(&edid[72..75], &[0, 0, 0]);
    assert_eq!(edid[75], 0x10, "T320: unused descriptor has no dummy tag");
    assert!(edid[76..90].iter().all(|&byte| byte == 0));
    assert_eq!(
        edid.iter().map(|&byte| u32::from(byte)).sum::<u32>() % 256,
        0
    );
}

#[test]
fn t320_rust_unused_descriptor_is_valid() {
    for (width, height, fps) in [(1920, 1080, 60), (2960, 1848, 90), (1024, 4095, 10)] {
        assert_t320_dummy_descriptor(&edid(width, height, fps));
    }
}

#[test]
fn edid_checksum_is_valid() {
    for (w, h) in [(2960u32, 1848u32), (2560, 1600), (1920, 1200), (2000, 1200)] {
        let edid = edid(w, h, 60);
        assert_eq!(edid.len(), 128);
        let sum: u32 = edid.iter().map(|&b| b as u32).sum();
        assert_eq!(sum % 256, 0, "checksum for {}x{}", w, h);
        let h_act = edid[56] as u32 | (((edid[58] >> 4) as u32) << 8);
        let v_act = edid[59] as u32 | (((edid[61] >> 4) as u32) << 8);
        assert_eq!((h_act, v_act), (w, h));
    }
}
