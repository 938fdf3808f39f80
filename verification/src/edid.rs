//! EDID 1.4 base block for the virtual display: one detailed timing
//! descriptor for the requested mode and the panel's physical size.
use vstd::prelude::*;
use crate::number::{decimal, push_decimal};
use crate::text::{chars_of, push_str};

verus! {

/// Physical size assumed when the tablet has not reported its own, in mm.
/// Roughly a 14.6" 16:10 panel.
pub const DEFAULT_WIDTH_MM: u32 = 310;
pub const DEFAULT_HEIGHT_MM: u32 = 194;

/// Blanking intervals of the generated mode and the advertised refresh range.
#[derive(Clone, Copy, Debug, PartialEq, Eq, Structural)]
pub struct Timing {
    pub h_front: u32,
    pub h_sync: u32,
    pub h_back: u32,
    pub v_front: u32,
    pub v_sync: u32,
    pub v_back: u32,
    pub min_fps: u32,
    pub max_fps: u32,
}

#[derive(Clone, Copy, Debug, PartialEq, Eq, Structural)]
pub enum EdidError {
    /// The active size does not fit the descriptor's 12-bit fields.
    UnrepresentableMode,
    /// Physical dimensions must be positive and fit 12 bits.
    PhysicalSize,
}

impl Timing {
    /// Every field fits the descriptor field that carries it.
    pub open spec fn wf(self) -> bool {
        &&& self.h_front < 1024
        &&& self.h_sync < 1024
        &&& self.v_front < 64
        &&& self.v_sync < 64
        &&& self.h_front + self.h_sync + self.h_back < 4096
        &&& self.v_front + self.v_sync + self.v_back < 4096
        &&& 1 <= self.min_fps <= self.max_fps <= 255
    }

    pub open spec fn h_blank(self) -> u32 {
        (self.h_front + self.h_sync + self.h_back) as u32
    }

    pub open spec fn v_blank(self) -> u32 {
        (self.v_front + self.v_sync + self.v_back) as u32
    }
}

/// Three uppercase letters packed as five-bit values, as EDID bytes 8 and 9.
pub open spec fn manufacturer_id_spec(s: Seq<u8>) -> (u8, u8) {
    let c1 = (s[0] - 65 + 1) as u16;
    let c2 = (s[1] - 65 + 1) as u16;
    let c3 = (s[2] - 65 + 1) as u16;
    let byte8 = ((c1 & 0x1F) << 2u16) | ((c2 >> 3u16) & 0x03);
    let byte9 = ((c2 & 0x07) << 5u16) | (c3 & 0x1F);
    (byte8 as u8, byte9 as u8)
}

pub fn encode_manufacturer_id(s: &[u8; 3]) -> (r: (u8, u8))
    requires
        s@[0] >= 65,
        s@[1] >= 65,
        s@[2] >= 65,
    ensures
        r == manufacturer_id_spec(s@),
{
    let c1 = (s[0] - 65 + 1) as u16;
    let c2 = (s[1] - 65 + 1) as u16;
    let c3 = (s[2] - 65 + 1) as u16;
    let byte8 = ((c1 & 0x1F) << 2u16) | ((c2 >> 3u16) & 0x03);
    let byte9 = ((c2 & 0x07) << 5u16) | (c3 & 0x1F);
    (byte8 as u8, byte9 as u8)
}

pub open spec fn clamp_cm(mm: u32) -> u8 {
    let cm = mm / 10;
    if cm < 1 {
        1
    } else if cm > 255 {
        255
    } else {
        cm as u8
    }
}

pub open spec fn div_ceil(a: int, b: int) -> int {
    (a + b - 1) / b
}

/// Lowest horizontal rate in kHz the range descriptor admits: the lowest
/// refresh rate at this mode, or the descriptor clock's actual rate.
pub open spec fn min_h_khz(width: u32, height: u32, pclk: u16, t: Timing) -> int {
    let v_total = height + t.v_blank();
    let h_total = width + t.h_blank();
    let by_rate = v_total * t.min_fps / 1000;
    let clock_hz = pclk * 10000;
    let by_clock = clock_hz / (h_total * 1000);
    if by_rate <= by_clock { by_rate } else { by_clock }
}

pub open spec fn max_h_khz(width: u32, height: u32, pclk: u16, t: Timing) -> int {
    let v_total = height + t.v_blank();
    let h_total = width + t.h_blank();
    let by_rate = div_ceil(v_total * t.max_fps, 1000);
    let by_clock = div_ceil(pclk * 10000, h_total * 1000);
    if by_rate >= by_clock { by_rate } else { by_clock }
}

/// Byte `k` (below 127) of the generated EDID.
pub open spec fn edid_byte(k: int, width: u32, height: u32, pclk: u16, width_mm: u32, height_mm: u32, t: Timing) -> u8 {
    let h_blank = t.h_blank();
    let v_blank = t.v_blank();
    let name = seq![0x55u8, 0x53, 0x63, 0x72, 0x65, 0x65, 0x6e, 0x0a, 0x20, 0x20, 0x20, 0x20, 0x20];
    let chroma = seq![0xEEu8, 0x91, 0xA3, 0x54, 0x4C, 0x99, 0x26, 0x0F, 0x50, 0x54];
    let min_h = min_h_khz(width, height, pclk, t);
    let max_h = max_h_khz(width, height, pclk, t);
    if k == 0 || k == 7 {
        0x00
    } else if 1 <= k <= 6 {
        0xFF
    } else if k == 8 {
        manufacturer_id_spec(seq![0x55u8, 0x53, 0x43]).0
    } else if k == 9 {
        manufacturer_id_spec(seq![0x55u8, 0x53, 0x43]).1
    } else if k == 10 || k == 12 {
        0x01
    } else if k == 17 {
        34
    } else if k == 18 {
        1
    } else if k == 19 {
        4
    } else if k == 20 {
        0xA5
    } else if k == 21 {
        clamp_cm(width_mm)
    } else if k == 22 {
        clamp_cm(height_mm)
    } else if k == 23 {
        0x78
    } else if k == 24 {
        0xEE
    } else if 25 <= k <= 34 {
        chroma[k - 25]
    } else if 38 <= k <= 53 {
        0x01
    } else if k == 54 {
        (pclk & 0xFF) as u8
    } else if k == 55 {
        (pclk >> 8u16) as u8
    } else if k == 56 {
        (width & 0xFF) as u8
    } else if k == 57 {
        (h_blank & 0xFF) as u8
    } else if k == 58 {
        ((((width >> 8u32) & 0x0F) << 4u32) | ((h_blank >> 8u32) & 0x0F)) as u8
    } else if k == 59 {
        (height & 0xFF) as u8
    } else if k == 60 {
        (v_blank & 0xFF) as u8
    } else if k == 61 {
        ((((height >> 8u32) & 0x0F) << 4u32) | ((v_blank >> 8u32) & 0x0F)) as u8
    } else if k == 62 {
        (t.h_front & 0xFF) as u8
    } else if k == 63 {
        (t.h_sync & 0xFF) as u8
    } else if k == 64 {
        (((t.v_front & 0x0F) << 4u32) | (t.v_sync & 0x0F)) as u8
    } else if k == 65 {
        ((((t.h_front >> 8u32) & 0x03) << 6u32) | (((t.h_sync >> 8u32) & 0x03) << 4u32) | (((t.v_front
            >> 4u32) & 0x03) << 2u32) | ((t.v_sync >> 4u32) & 0x03)) as u8
    } else if k == 66 {
        (width_mm & 0xFF) as u8
    } else if k == 67 {
        (height_mm & 0xFF) as u8
    } else if k == 68 {
        ((((width_mm >> 8u32) & 0x0F) << 4u32) | ((height_mm >> 8u32) & 0x0F)) as u8
    } else if k == 71 {
        0x1E
    } else if k == 75 {
        0x10
    } else if k == 93 {
        0xFC
    } else if 95 <= k <= 107 {
        name[k - 95]
    } else if k == 111 {
        0xFD
    } else if k == 112 {
        ((if min_h > 255 { 4int } else { 0int }) + (if max_h > 255 { 8int } else { 0int })) as u8
    } else if k == 113 {
        t.min_fps as u8
    } else if k == 114 {
        t.max_fps as u8
    } else if k == 115 {
        (min_h - if min_h > 255 { 255int } else { 0int }) as u8
    } else if k == 116 {
        (max_h - if max_h > 255 { 255int } else { 0int }) as u8
    } else if k == 117 {
        let mhz = div_ceil(pclk * 10000, 1_000_000);
        let tens = div_ceil(mhz, 10);
        (if tens < 255 { tens } else { 255 }) as u8
    } else if k == 118 {
        0x01
    } else if k == 119 {
        0x0A
    } else if 120 <= k <= 125 {
        0x20
    } else {
        0x00
    }
}

/// Sum of the byte values.
pub open spec fn byte_sum(s: Seq<u8>) -> nat
    decreases s.len(),
{
    if s.len() == 0 {
        0
    } else {
        byte_sum(s.drop_last()) + s.last() as nat
    }
}

/// The 127 bytes before the checksum.
pub open spec fn edid_body(width: u32, height: u32, pclk: u16, width_mm: u32, height_mm: u32, t: Timing) -> Seq<u8> {
    Seq::new(127, |k: int| edid_byte(k, width, height, pclk, width_mm, height_mm, t))
}

/// The complete block: the body and a checksum byte that makes every byte
/// sum to a multiple of 256.
pub open spec fn edid_spec(width: u32, height: u32, pclk: u16, width_mm: u32, height_mm: u32, t: Timing) -> Seq<u8> {
    let body = edid_body(width, height, pclk, width_mm, height_mm, t);
    body.push(((256 - byte_sum(body) % 256) % 256) as u8)
}

pub open spec fn mode_representable(width: u32, height: u32) -> bool {
    1 <= width <= 4095 && 1 <= height <= 4095
}

pub open spec fn physical_representable(width_mm: u32, height_mm: u32) -> bool {
    1 <= width_mm <= 4095 && 1 <= height_mm <= 4095
}


fn ceil_div(a: u32, b: u32) -> (r: u32)
    requires
        b > 0,
        a as int + b as int - 1 <= u32::MAX,
    ensures
        r as int == div_ceil(a as int, b as int),
{
    if a == 0 {
        assert((b as int - 1) / (b as int) == 0) by (nonlinear_arith)
            requires
                b > 0,
        ;
        0
    } else {
        assert((a as int - 1) / (b as int) + 1 == (a as int + b as int - 1) / (b as int)) by (nonlinear_arith)
            requires
                a >= 1,
                b > 0,
        ;
        (a - 1) / b + 1
    }
}

fn edid_byte_at(k: usize, width: u32, height: u32, pclk: u16, width_mm: u32, height_mm: u32, t: &Timing) -> (r: u8)
    requires
        k < 127,
        t.wf(),
        mode_representable(width, height),
        physical_representable(width_mm, height_mm),
    ensures
        r == edid_byte(k as int, width, height, pclk, width_mm, height_mm, *t),
{
    let h_blank = t.h_front + t.h_sync + t.h_back;
    let v_blank = t.v_front + t.v_sync + t.v_back;
    if k == 0 || k == 7 {
        0x00
    } else if 1 <= k && k <= 6 {
        0xFF
    } else if k == 8 {
        encode_manufacturer_id(&[0x55u8, 0x53, 0x43]).0
    } else if k == 9 {
        encode_manufacturer_id(&[0x55u8, 0x53, 0x43]).1
    } else if k == 10 || k == 12 {
        0x01
    } else if k == 17 {
        34
    } else if k == 18 {
        1
    } else if k == 19 {
        4
    } else if k == 20 {
        0xA5
    } else if k == 21 || k == 22 {
        let mm = if k == 21 { width_mm } else { height_mm };
        let cm = mm / 10;
        if cm < 1 {
            1
        } else if cm > 255 {
            255
        } else {
            cm as u8
        }
    } else if k == 23 {
        0x78
    } else if k == 24 {
        0xEE
    } else if 25 <= k && k <= 34 {
        let chroma: [u8; 10] = [0xEE, 0x91, 0xA3, 0x54, 0x4C, 0x99, 0x26, 0x0F, 0x50, 0x54];
        let r = chroma[k - 25];
        assert(chroma@ == seq![0xEEu8, 0x91, 0xA3, 0x54, 0x4C, 0x99, 0x26, 0x0F, 0x50, 0x54]);
        r
    } else if 38 <= k && k <= 53 {
        0x01
    } else if k == 54 {
        (pclk & 0xFF) as u8
    } else if k == 55 {
        (pclk >> 8u16) as u8
    } else if k == 56 {
        (width & 0xFF) as u8
    } else if k == 57 {
        (h_blank & 0xFF) as u8
    } else if k == 58 {
        ((((width >> 8u32) & 0x0F) << 4u32) | ((h_blank >> 8u32) & 0x0F)) as u8
    } else if k == 59 {
        (height & 0xFF) as u8
    } else if k == 60 {
        (v_blank & 0xFF) as u8
    } else if k == 61 {
        ((((height >> 8u32) & 0x0F) << 4u32) | ((v_blank >> 8u32) & 0x0F)) as u8
    } else if k == 62 {
        (t.h_front & 0xFF) as u8
    } else if k == 63 {
        (t.h_sync & 0xFF) as u8
    } else if k == 64 {
        (((t.v_front & 0x0F) << 4u32) | (t.v_sync & 0x0F)) as u8
    } else if k == 65 {
        ((((t.h_front >> 8u32) & 0x03) << 6u32) | (((t.h_sync >> 8u32) & 0x03) << 4u32) | (((t.v_front
            >> 4u32) & 0x03) << 2u32) | ((t.v_sync >> 4u32) & 0x03)) as u8
    } else if k == 66 {
        (width_mm & 0xFF) as u8
    } else if k == 67 {
        (height_mm & 0xFF) as u8
    } else if k == 68 {
        ((((width_mm >> 8u32) & 0x0F) << 4u32) | ((height_mm >> 8u32) & 0x0F)) as u8
    } else if k == 71 {
        0x1E
    } else if k == 75 {
        0x10
    } else if k == 93 {
        0xFC
    } else if 95 <= k && k <= 107 {
        let name: [u8; 13] = [0x55, 0x53, 0x63, 0x72, 0x65, 0x65, 0x6e, 0x0a, 0x20, 0x20, 0x20, 0x20, 0x20];
        let r = name[k - 95];
        assert(name@ == seq![0x55u8, 0x53, 0x63, 0x72, 0x65, 0x65, 0x6e, 0x0a, 0x20, 0x20, 0x20, 0x20, 0x20]);
        r
    } else if k == 111 {
        0xFD
    } else if 112 <= k && k <= 116 {
        let v_total = height + v_blank;
        let h_total = width + h_blank;
        let clock_hz = (pclk as u32) * 10000;
        assert(v_total * t.min_fps <= 8190 * 255) by (nonlinear_arith)
            requires
                v_total <= 8190,
                t.min_fps <= 255,
        ;
        assert(v_total * t.max_fps <= 8190 * 255) by (nonlinear_arith)
            requires
                v_total <= 8190,
                t.max_fps <= 255,
        ;
        let by_rate_low = v_total * t.min_fps / 1000;
        let by_clock_low = clock_hz / (h_total * 1000);
        let min_h = if by_rate_low <= by_clock_low { by_rate_low } else { by_clock_low };
        let by_rate_high = ceil_div(v_total * t.max_fps, 1000);
        let by_clock_high = ceil_div(clock_hz, h_total * 1000);
        let max_h = if by_rate_high >= by_clock_high { by_rate_high } else { by_clock_high };
        assert(min_h as int == min_h_khz(width, height, pclk, *t));
        assert(max_h as int == max_h_khz(width, height, pclk, *t));
        if k == 112 {
            let low: u8 = if min_h > 255 { 4 } else { 0 };
            let high: u8 = if max_h > 255 { 8 } else { 0 };
            low + high
        } else if k == 113 {
            t.min_fps as u8
        } else if k == 114 {
            t.max_fps as u8
        } else if k == 115 {
            (min_h - if min_h > 255 { 255 } else { 0 }) as u8
        } else {
            (max_h - if max_h > 255 { 255 } else { 0 }) as u8
        }
    } else if k == 117 {
        let mhz = ceil_div((pclk as u32) * 10000, 1_000_000);
        let tens = ceil_div(mhz, 10);
        (if tens < 255 { tens } else { 255 }) as u8
    } else if k == 118 {
        0x01
    } else if k == 119 {
        0x0A
    } else if 120 <= k && k <= 125 {
        0x20
    } else {
        0x00
    }
}

/// Build a 128-byte EDID with a single detailed timing descriptor.
///
/// `pixel_clock_10khz` is the mode's pixel clock, which the caller derived
/// and validated for `width`x`height` at the requested refresh rate.
/// `width_mm`/`height_mm` are the panel's real physical size: the compositor
/// derives DPI, and so its default scale factor, from them.
pub fn make_edid_sized(
    width: u32,
    height: u32,
    pixel_clock_10khz: u16,
    width_mm: u32,
    height_mm: u32,
    timing: &Timing,
) -> (r: Result<Vec<u8>, EdidError>)
    requires
        timing.wf(),
    ensures
        !mode_representable(width, height) ==> r == Err::<Vec<u8>, EdidError>(
            EdidError::UnrepresentableMode,
        ),
        mode_representable(width, height) && !physical_representable(width_mm, height_mm) ==> r
            == Err::<Vec<u8>, EdidError>(EdidError::PhysicalSize),
        mode_representable(width, height) && physical_representable(width_mm, height_mm) ==> (r
            matches Ok(v) && v@ == edid_spec(
            width,
            height,
            pixel_clock_10khz,
            width_mm,
            height_mm,
            *timing,
        )),
{
    if !(1 <= width && width <= 4095 && 1 <= height && height <= 4095) {
        return Err(EdidError::UnrepresentableMode);
    }
    if !(1 <= width_mm && width_mm <= 4095 && 1 <= height_mm && height_mm <= 4095) {
        return Err(EdidError::PhysicalSize);
    }
    let ghost body = edid_body(width, height, pixel_clock_10khz, width_mm, height_mm, *timing);
    let mut edid: Vec<u8> = Vec::with_capacity(128);
    let mut sum: u32 = 0;
    let mut k: usize = 0;
    while k < 127
        invariant
            k <= 127,
            timing.wf(),
            mode_representable(width, height),
            physical_representable(width_mm, height_mm),
            body == edid_body(width, height, pixel_clock_10khz, width_mm, height_mm, *timing),
            edid@ == body.subrange(0, k as int),
            sum as nat == byte_sum(edid@),
            sum <= k * 255,
        decreases 127 - k,
    {
        let b = edid_byte_at(k, width, height, pixel_clock_10khz, width_mm, height_mm, timing);
        let ghost before = edid@;
        edid.push(b);
        assert(edid@.drop_last() == before);
        sum = sum + b as u32;
        k = k + 1;
        assert(edid@ == body.subrange(0, k as int));
    }
    assert(body.subrange(0, 127) == body);
    let check = ((256 - sum % 256) % 256) as u8;
    edid.push(check);
    Ok(edid)
}

/// Checksum law: the bytes of every generated EDID sum to a multiple of 256.
pub proof fn lemma_edid_checksum(width: u32, height: u32, pclk: u16, width_mm: u32, height_mm: u32, t: Timing)
    ensures
        edid_spec(width, height, pclk, width_mm, height_mm, t).len() == 128,
        byte_sum(edid_spec(width, height, pclk, width_mm, height_mm, t)) % 256 == 0,
{
    let body = edid_body(width, height, pclk, width_mm, height_mm, t);
    let full = edid_spec(width, height, pclk, width_mm, height_mm, t);
    assert(full.drop_last() == body);
    let c = ((256 - byte_sum(body) % 256) % 256) as u8;
    assert(full.last() == c);
    assert((byte_sum(body) + c as nat) % 256 == 0) by (nonlinear_arith)
        requires
            c as int == (256 - byte_sum(body) % 256) % 256,
    ;
}


/// A 12-bit value split into a low byte and a high nibble, as the detailed
/// timing descriptor stores sizes.
proof fn lemma_nibble_split(v: u32, other: u32)
    requires
        v < 4096,
        other < 16,
    ensures
        ((v & 0xFF) as u8) as u32 | ((((((v >> 8u32) & 0x0F) << 4u32) | other) as u8 >> 4u8) as u32)
            << 8u32 == v,
        ((v & 0xFF) as u8) as u32 | (((((other << 4u32) | ((v >> 8u32) & 0x0F)) as u8) & 0x0F)
            as u32) << 8u32 == v,
{
    assert(((v & 0xFF) as u8) as u32 | ((((((v >> 8u32) & 0x0F) << 4u32) | other) as u8 >> 4u8)
        as u32) << 8u32 == v) by (bit_vector)
        requires
            v < 4096,
            other < 16,
    ;
    assert(((v & 0xFF) as u8) as u32 | (((((other << 4u32) | ((v >> 8u32) & 0x0F)) as u8) & 0x0F)
        as u32) << 8u32 == v) by (bit_vector)
        requires
            v < 4096,
            other < 16,
    ;
}

/// Decoding the detailed timing descriptor gives back the active size and
/// the physical size the EDID was generated for.
pub proof fn lemma_edid_sizes_decode(width: u32, height: u32, pclk: u16, width_mm: u32, height_mm: u32, t: Timing)
    requires
        t.wf(),
        mode_representable(width, height),
        physical_representable(width_mm, height_mm),
    ensures
        ({
            let e = edid_spec(width, height, pclk, width_mm, height_mm, t);
            &&& (e[56] as u32) | ((e[58] >> 4u8) as u32) << 8u32 == width
            &&& (e[59] as u32) | ((e[61] >> 4u8) as u32) << 8u32 == height
            &&& (e[66] as u32) | ((e[68] >> 4u8) as u32) << 8u32 == width_mm
            &&& (e[67] as u32) | ((e[68] & 0x0F) as u32) << 8u32 == height_mm
        }),
{
    let e = edid_spec(width, height, pclk, width_mm, height_mm, t);
    let h_blank = t.h_blank();
    let v_blank = t.v_blank();
    assert(e[56] == edid_byte(56, width, height, pclk, width_mm, height_mm, t));
    assert(e[58] == edid_byte(58, width, height, pclk, width_mm, height_mm, t));
    assert(e[59] == edid_byte(59, width, height, pclk, width_mm, height_mm, t));
    assert(e[61] == edid_byte(61, width, height, pclk, width_mm, height_mm, t));
    assert(e[66] == edid_byte(66, width, height, pclk, width_mm, height_mm, t));
    assert(e[67] == edid_byte(67, width, height, pclk, width_mm, height_mm, t));
    assert(e[68] == edid_byte(68, width, height, pclk, width_mm, height_mm, t));
    assert(((h_blank >> 8u32) & 0x0F) < 16) by (bit_vector);
    assert(((v_blank >> 8u32) & 0x0F) < 16) by (bit_vector);
    assert(((height_mm >> 8u32) & 0x0F) < 16) by (bit_vector);
    assert(((width_mm >> 8u32) & 0x0F) < 16) by (bit_vector);
    lemma_nibble_split(width, (h_blank >> 8u32) & 0x0F);
    lemma_nibble_split(height, (v_blank >> 8u32) & 0x0F);
    lemma_nibble_split(width_mm, (height_mm >> 8u32) & 0x0F);
    lemma_nibble_split(height_mm, (width_mm >> 8u32) & 0x0F);
}


/// Pixel-clock law: the detailed timing descriptor's clock field, read back
/// as the little-endian 16-bit value that EDID defines, is the pixel clock
/// the block was generated for.
pub proof fn lemma_edid_pixel_clock_decodes(width: u32, height: u32, pclk: u16, width_mm: u32, height_mm: u32, t: Timing)
    ensures
        ({
            let e = edid_spec(width, height, pclk, width_mm, height_mm, t);
            (e[54] as u16) | ((e[55] as u16) << 8u16) == pclk
        }),
{
    let e = edid_spec(width, height, pclk, width_mm, height_mm, t);
    assert(e[54] == edid_byte(54, width, height, pclk, width_mm, height_mm, t));
    assert(e[55] == edid_byte(55, width, height, pclk, width_mm, height_mm, t));
    let lo = e[54];
    let hi = e[55];
    assert(lo == (pclk & 0xFF) as u8 && hi == (pclk >> 8u16) as u8 ==> (lo as u16) | ((hi as u16) << 8u16) == pclk) by (bit_vector);
}

/// Build an EDID at the default physical size, for a mode that fits the
/// descriptor.
pub fn make_edid(width: u32, height: u32, pixel_clock_10khz: u16, timing: &Timing) -> (r: Vec<u8>)
    requires
        timing.wf(),
        mode_representable(width, height),
    ensures
        r@ == edid_spec(width, height, pixel_clock_10khz, DEFAULT_WIDTH_MM, DEFAULT_HEIGHT_MM, *timing),
{
    match make_edid_sized(width, height, pixel_clock_10khz, DEFAULT_WIDTH_MM, DEFAULT_HEIGHT_MM, timing) {
        Ok(v) => v,
        Err(_) => Vec::new(),
    }
}

/// Bumped whenever the generator changes: it is part of the cache file name,
/// so that a fixed generator reaches existing installs instead of a stale file
/// being reused.
pub const EDID_GENERATION: u32 = 6;

/// The cache file name of the EDID generated for a mode and physical size.
pub open spec fn cache_name_spec(width: u32, height: u32, refresh: u32, width_mm: u32, height_mm: u32) -> Seq<char> {
    "auto-v"@ + decimal(EDID_GENERATION as nat) + "-"@ + decimal(width as nat) + "x"@ + decimal(
        height as nat,
    ) + "@"@ + decimal(refresh as nat) + "-"@ + decimal(width_mm as nat) + "x"@ + decimal(
        height_mm as nat,
    ) + "mm.bin"@
}

pub fn edid_cache_name(width: u32, height: u32, refresh: u32, width_mm: u32, height_mm: u32) -> (r: Vec<char>)
    ensures
        r@ == cache_name_spec(width, height, refresh, width_mm, height_mm),
{
    let mut s = chars_of("auto-v");
    push_decimal(&mut s, EDID_GENERATION as u64);
    push_str(&mut s, "-");
    push_decimal(&mut s, width as u64);
    push_str(&mut s, "x");
    push_decimal(&mut s, height as u64);
    push_str(&mut s, "@");
    push_decimal(&mut s, refresh as u64);
    push_str(&mut s, "-");
    push_decimal(&mut s, width_mm as u64);
    push_str(&mut s, "x");
    push_decimal(&mut s, height_mm as u64);
    push_str(&mut s, "mm.bin");
    s
}

} // verus!
