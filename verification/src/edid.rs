//! CVT reduced-blanking timing generation and EDID synthesis for the virtual
//! evdi output.

use vstd::prelude::*;

verus! {

// ---------------------------------------------------------------------------
// CVT reduced-blanking timings
// ---------------------------------------------------------------------------

/// One CVT reduced-blanking timing, computed for a given resolution/refresh.
///
/// The constants and the order of the integer arithmetic are those of the
/// published VESA CVT-RB algorithm and of the Linux kernel's `drm_cvt_mode`.
#[derive(Debug, Clone, Copy, PartialEq, Eq)]
pub struct CvtTiming {
    pub hactive: u32,
    pub vactive: u32,
    pub htotal: u32,
    pub vtotal: u32,
    pub hsync_start: u32,
    pub hsync_end: u32,
    pub vsync_start: u32,
    pub vsync_end: u32,
    pub pixel_clock_khz: u32,
}

/// The shortest vertical blanking, in nanoseconds.
pub const MIN_VBLANK_NS: u64 = 460_000;

/// Whether a `v`-line picture with aspect ratio `p`:`q` is `h` pixels wide.
pub open spec fn has_ratio(h: int, v: int, p: int, q: int, step: int) -> bool {
    v % step == 0 && v * p / q == h
}

/// Lines of vertical sync, which encode the aspect ratio: 4 for 4:3, 5 for
/// 16:9, 6 for 16:10, 7 for 5:4 and 15:9, 10 for anything else.
pub open spec fn sync_lines(h: int, v: int) -> int {
    if has_ratio(h, v, 4, 3, 3) {
        4
    } else if has_ratio(h, v, 16, 9, 9) {
        5
    } else if has_ratio(h, v, 16, 10, 10) {
        6
    } else if has_ratio(h, v, 5, 4, 4) || has_ratio(h, v, 15, 9, 9) {
        7
    } else {
        10
    }
}

/// Nanoseconds per scan line: what a frame period leaves after the shortest
/// vertical blanking, divided among the visible lines.
pub open spec fn line_period(v: int, refresh: int) -> int {
    (1_000_000_000 - MIN_VBLANK_NS * refresh) / (v * refresh)
}

/// Lines of vertical blanking: enough for the shortest blanking, and for the
/// front porch, the sync and the shortest back porch.
pub open spec fn blank_lines(h: int, v: int, refresh: int) -> int {
    let needed = MIN_VBLANK_NS as int / line_period(v, refresh) + 1;
    let least = 3 + sync_lines(h, v) + 6;
    if needed < least {
        least
    } else {
        needed
    }
}

/// The products of the aspect-ratio tests that are reached fit in 32 bits.
pub open spec fn ratio_tests_fit(h: int, v: int) -> bool {
    &&& v % 3 == 0 ==> v * 4 <= u32::MAX
    &&& has_ratio(h, v, 4, 3, 3) || {
        &&& v % 9 == 0 ==> v * 16 <= u32::MAX
        &&& has_ratio(h, v, 16, 9, 9) || {
            &&& v % 10 == 0 ==> v * 16 <= u32::MAX
            &&& has_ratio(h, v, 16, 10, 10) || (v % 4 == 0 ==> v * 5 <= u32::MAX)
        }
    }
}

/// The modes that have a timing: at least one nanosecond is left per line, and
/// the sizes fit in 32 bits.
pub open spec fn has_timing(h: int, v: int, refresh: int) -> bool {
    &&& 1 <= v
    &&& 1 <= refresh
    &&& v * refresh <= 1_000_000_000 - MIN_VBLANK_NS * refresh
    &&& h - h % 8 + 160 <= u32::MAX
    &&& ratio_tests_fit(h, v)
}

/// Whether a mode has a timing.
pub fn mode_has_timing(width: u32, height: u32, refresh_hz: u32) -> (r: bool)
    ensures
        r == has_timing(width as int, height as int, refresh_hz as int),
{
    let h = width as u64;
    let v = height as u64;
    let hz = refresh_hz as u64;
    let largest = u32::MAX as u64;
    assert(0 <= v * hz <= 0xffff_ffff * 0xffff_ffff) by (nonlinear_arith)
        requires
            0 <= v <= 0xffff_ffff,
            0 <= hz <= 0xffff_ffff,
    ;
    if v < 1 || hz < 1 || MIN_VBLANK_NS * hz > 1_000_000_000 {
        return false;
    }
    if v * hz > 1_000_000_000 - MIN_VBLANK_NS * hz || h - h % 8 + 160 > largest {
        return false;
    }
    // Each ratio is tried only where the ones before it did not fit.
    if v % 3 == 0 && v * 4 > largest {
        return false;
    }
    if v % 3 == 0 && v * 4 / 3 == h {
        return true;
    }
    if v % 9 == 0 && v * 16 > largest {
        return false;
    }
    if v % 9 == 0 && v * 16 / 9 == h {
        return true;
    }
    if v % 10 == 0 && v * 16 > largest {
        return false;
    }
    if v % 10 == 0 && v * 16 / 10 == h {
        return true;
    }
    !(v % 4 == 0 && v * 5 > largest)
}

/// The reduced-blanking timing of a mode.
pub open spec fn timing_of(h: int, v: int, refresh: int) -> CvtTiming {
    let hactive = h - h % 8;
    let khz = (hactive + 160) * 1_000_000 / line_period(v, refresh);
    CvtTiming {
        hactive: hactive as u32,
        vactive: v as u32,
        htotal: (hactive + 160) as u32,
        vtotal: (v + blank_lines(h, v, refresh)) as u32,
        hsync_start: (hactive + 48) as u32,
        hsync_end: (hactive + 80) as u32,
        vsync_start: (v + 3) as u32,
        vsync_end: (v + 3 + sync_lines(h, v)) as u32,
        pixel_clock_khz: if khz <= u32::MAX {
            khz as u32
        } else {
            u32::MAX
        },
    }
}

impl CvtTiming {
    /// The positions follow one another: active, front porch, sync, total.
    pub open spec fn ordered(self) -> bool {
        &&& self.hactive <= self.hsync_start <= self.hsync_end
        &&& self.hactive <= self.htotal
        &&& self.vactive <= self.vsync_start <= self.vsync_end
        &&& self.vactive <= self.vtotal
    }

    pub fn reduced_blanking(hdisplay: u32, vdisplay: u32, vrefresh: u32) -> (t: Self)
        requires
            has_timing(hdisplay as int, vdisplay as int, vrefresh as int),
        ensures
            t == timing_of(hdisplay as int, vdisplay as int, vrefresh as int),
            t.ordered(),
            t.hactive == hdisplay - hdisplay % 8,
            t.vactive == vdisplay,
            t.hsync_start == t.hactive + 48,
            t.hsync_end == t.hactive + 80,
            t.htotal == t.hactive + 160,
            t.vsync_start == vdisplay + 3,
            t.vsync_end == vdisplay + 3 + sync_lines(hdisplay as int, vdisplay as int),
            t.vtotal == vdisplay + blank_lines(hdisplay as int, vdisplay as int, vrefresh as int),
            t.pixel_clock_khz == ({
                let khz = t.htotal * 1_000_000 / line_period(vdisplay as int, vrefresh as int);
                if khz <= u32::MAX {
                    khz
                } else {
                    u32::MAX as int
                }
            }),
    {
        let ghost h = hdisplay as int;
        let ghost v = vdisplay as int;
        let ghost r = vrefresh as int;
        proof {
            lemma_timing_bounds(v, r);
        }
        let hactive: u32 = hdisplay - (hdisplay % 8);
        let vactive: u32 = vdisplay;
        let vfieldrate: u64 = vrefresh as u64;

        // Vertical sync width, chosen from how closely the aspect ratio
        // matches a small set of standard ratios.
        let vsync: u32 = if vdisplay % 3 == 0 && vdisplay * 4 / 3 == hdisplay {
            4
        } else if vdisplay % 9 == 0 && vdisplay * 16 / 9 == hdisplay {
            5
        } else if vdisplay % 10 == 0 && vdisplay * 16 / 10 == hdisplay {
            6
        } else if (vdisplay % 4 == 0 && vdisplay * 5 / 4 == hdisplay) || (vdisplay % 9 == 0
            && vdisplay * 15 / 9 == hdisplay) {
            7
        } else {
            10
        };
        assert(vsync == sync_lines(h, v));

        let tmp1: u64 = 1_000_000_000 - MIN_VBLANK_NS * vfieldrate;
        let tmp2: u64 = vactive as u64;
        let hperiod: u64 = tmp1 / (tmp2 * vfieldrate);
        assert(hperiod == line_period(v, r));

        let mut vbilines: u32 = (MIN_VBLANK_NS / hperiod) as u32 + 1;
        let min_vbilines: u32 = 3 + vsync + 6;
        if vbilines < min_vbilines {
            vbilines = min_vbilines;
        }
        let vtotal: u32 = vactive + vbilines;
        let htotal: u32 = hactive + 160;
        let hsync_end: u32 = hactive + 80;
        let hsync_start: u32 = hsync_end - 32;
        let vsync_start: u32 = vactive + 3;
        let vsync_end: u32 = vsync_start + vsync;
        let clock_khz: u64 = (htotal as u64 * 1_000_000) / hperiod;
        let pixel_clock_khz: u32 = if clock_khz <= u32::MAX as u64 {
            clock_khz as u32
        } else {
            u32::MAX
        };
        Self {
            hactive,
            vactive,
            htotal,
            vtotal,
            hsync_start,
            hsync_end,
            vsync_start,
            vsync_end,
            pixel_clock_khz,
        }
    }
}

proof fn lemma_timing_bounds(v: int, r: int)
    requires
        1 <= v,
        1 <= r,
        v * r <= 1_000_000_000 - MIN_VBLANK_NS * r,
    ensures
        r <= 2173,
        v <= 999_540_000,
        1 <= v * r <= 1_000_000_000,
        1 <= line_period(v, r) <= 1_000_000_000,
        0 <= MIN_VBLANK_NS as int / line_period(v, r) <= MIN_VBLANK_NS,
{
    let d = v * r;
    let n = 1_000_000_000 - MIN_VBLANK_NS * r;
    assert(1 <= d && v <= d) by (nonlinear_arith)
        requires
            1 <= v,
            1 <= r,
            d == v * r,
    ;
    let p = n / d;
    assert(1 <= p <= n) by (nonlinear_arith)
        requires
            1 <= d <= n,
            p == n / d,
    ;
    let q = MIN_VBLANK_NS as int / p;
    assert(0 <= q <= 460_000) by (nonlinear_arith)
        requires
            1 <= p,
            q == 460_000int / p,
    ;
}


/// The lines of blanking last at least the shortest vertical blanking, and the
/// visible lines and that blanking fit in one frame period.
pub proof fn blanking_is_long_enough(h: int, v: int, refresh: int)
    requires
        has_timing(h, v, refresh),
    ensures
        blank_lines(h, v, refresh) * line_period(v, refresh) > MIN_VBLANK_NS,
        (v * line_period(v, refresh) + MIN_VBLANK_NS) * refresh <= 1_000_000_000,
{
    lemma_timing_bounds(v, refresh);
    let p = line_period(v, refresh);
    let b = blank_lines(h, v, refresh);
    let n = MIN_VBLANK_NS as int;
    let q = n / p;
    assert(b * p > n) by (nonlinear_arith)
        requires
            1 <= p,
            0 <= n,
            q == n / p,
            b >= q + 1,
    ;
    let whole = 1_000_000_000 - n * refresh;
    let d = v * refresh;
    assert(d * p <= whole) by (nonlinear_arith)
        requires
            1 <= d,
            p == whole / d,
    ;
    assert((v * p + n) * refresh == d * p + n * refresh) by (nonlinear_arith)
        requires
            d == v * refresh,
    ;
}

// ---------------------------------------------------------------------------
// The detailed timing descriptor
// ---------------------------------------------------------------------------

/// The low eight bits of `n`.
#[verifier::opaque]
pub open spec fn low_byte(n: int) -> u8 {
    (n % 256) as u8
}

/// A byte of two four-bit fields.
#[verifier::opaque]
pub open spec fn nibbles(high: int, low: int) -> u8 {
    ((high % 16) * 16 + low % 16) as u8
}

/// A byte of four two-bit fields.
#[verifier::opaque]
pub open spec fn pairs(a: int, b: int, c: int, d: int) -> u8 {
    ((a % 4) * 64 + (b % 4) * 16 + (c % 4) * 4 + d % 4) as u8
}

/// The 18 bytes of an EDID detailed timing descriptor (EDID 1.4, 3.10.2) for
/// `t`. The image size is left unspecified, and the sync is digital and
/// separate, with positive horizontal and negative vertical polarity.
pub open spec fn descriptor(t: CvtTiming) -> Seq<u8> {
    let clock = t.pixel_clock_khz as int / 10;
    let hblank = t.htotal - t.hactive;
    let vblank = t.vtotal - t.vactive;
    let hfront = t.hsync_start - t.hactive;
    let hsync = t.hsync_end - t.hsync_start;
    let vfront = t.vsync_start - t.vactive;
    let vsync = t.vsync_end - t.vsync_start;
    seq![
        low_byte(clock),
        low_byte(clock / 256),
        low_byte(t.hactive as int),
        low_byte(hblank),
        nibbles(t.hactive as int / 256, hblank / 256),
        low_byte(t.vactive as int),
        low_byte(vblank),
        nibbles(t.vactive as int / 256, vblank / 256),
        low_byte(hfront),
        low_byte(hsync),
        nibbles(vfront, vsync),
        pairs(hfront / 256, hsync / 256, vfront / 16, vsync / 16),
        0u8,
        0u8,
        0u8,
        0u8,
        0u8,
        0x1au8,
    ]
}

fn low_byte_of(n: u32) -> (r: u8)
    ensures
        r == low_byte(n as int),
{
    reveal(low_byte);
    (n % 256) as u8
}

fn nibbles_of(high: u32, low: u32) -> (r: u8)
    ensures
        r == nibbles(high as int, low as int),
{
    reveal(nibbles);
    ((high % 16) * 16 + low % 16) as u8
}

fn pairs_of(a: u32, b: u32, c: u32, d: u32) -> (r: u8)
    ensures
        r == pairs(a as int, b as int, c as int, d as int),
{
    reveal(pairs);
    ((a % 4) * 64 + (b % 4) * 16 + (c % 4) * 4 + d % 4) as u8
}

impl CvtTiming {
    /// Encode as an 18-byte EDID Detailed Timing Descriptor (EDID 1.4 3.10.2).
    pub fn detailed_timing_descriptor(&self) -> (d: [u8; 18])
        requires
            self.ordered(),
        ensures
            d@ == descriptor(*self),
    {
        let clock_10khz: u32 = self.pixel_clock_khz / 10;
        let hblank: u32 = self.htotal - self.hactive;
        let vblank: u32 = self.vtotal - self.vactive;
        let hfront: u32 = self.hsync_start - self.hactive;
        let hsync_width: u32 = self.hsync_end - self.hsync_start;
        let vfront: u32 = self.vsync_start - self.vactive;
        let vsync_width: u32 = self.vsync_end - self.vsync_start;
        let d: [u8; 18] = [
            low_byte_of(clock_10khz),
            low_byte_of(clock_10khz / 256),
            low_byte_of(self.hactive),
            low_byte_of(hblank),
            nibbles_of(self.hactive / 256, hblank / 256),
            low_byte_of(self.vactive),
            low_byte_of(vblank),
            nibbles_of(self.vactive / 256, vblank / 256),
            low_byte_of(hfront),
            low_byte_of(hsync_width),
            nibbles_of(vfront, vsync_width),
            pairs_of(hfront / 256, hsync_width / 256, vfront / 16, vsync_width / 16),
            // Image size left unspecified: a virtual display has no physical
            // dimensions to report.
            0,
            0,
            0,
            // No border.
            0,
            0,
            // Digital separate sync, +hsync/-vsync, non-interlaced, no stereo.
            0x1a,
        ];
        assert(d@ =~= descriptor(*self));
        d
    }
}

/// What a reader of a detailed timing descriptor takes from it.
pub struct ReadTiming {
    pub clock_10khz: int,
    pub hactive: int,
    pub hblank: int,
    pub vactive: int,
    pub vblank: int,
    pub hfront: int,
    pub hsync: int,
    pub vfront: int,
    pub vsync: int,
}

/// The timing that a detailed timing descriptor describes to its reader.
pub open spec fn read_descriptor(d: Seq<u8>) -> ReadTiming {
    ReadTiming {
        clock_10khz: d[0] + d[1] * 256,
        hactive: d[2] + (d[4] as int / 16) * 256,
        hblank: d[3] + (d[4] as int % 16) * 256,
        vactive: d[5] + (d[7] as int / 16) * 256,
        vblank: d[6] + (d[7] as int % 16) * 256,
        hfront: d[8] + (d[11] as int / 64) * 256,
        hsync: d[9] + (d[11] as int / 16 % 4) * 256,
        vfront: d[10] as int / 16 + (d[11] as int / 4 % 4) * 16,
        vsync: d[10] as int % 16 + (d[11] as int % 4) * 16,
    }
}

/// The active size always reads back from a descriptor modulo 4096; a timing
/// whose every part fits its field reads back whole.
pub proof fn descriptor_reads_back(t: CvtTiming)
    requires
        t.ordered(),
    ensures
        read_descriptor(descriptor(t)).hactive == t.hactive as int % 4096,
        read_descriptor(descriptor(t)).vactive == t.vactive as int % 4096,
        t.pixel_clock_khz < 655_360 && t.hactive < 4096 && t.vactive < 4096 && t.htotal - t.hactive
            < 4096 && t.vtotal - t.vactive < 4096 && t.hsync_start - t.hactive < 1024 && t.hsync_end
            - t.hsync_start < 1024 && t.vsync_start - t.vactive < 64 && t.vsync_end - t.vsync_start
            < 64 ==> read_descriptor(descriptor(t)) == (ReadTiming {
            clock_10khz: t.pixel_clock_khz as int / 10,
            hactive: t.hactive as int,
            hblank: t.htotal - t.hactive,
            vactive: t.vactive as int,
            vblank: t.vtotal - t.vactive,
            hfront: t.hsync_start - t.hactive,
            hsync: t.hsync_end - t.hsync_start,
            vfront: t.vsync_start - t.vactive,
            vsync: t.vsync_end - t.vsync_start,
        }),
{
    lemma_reads_modulo(t);
    assert forall|n: int, m: int| 0 <= n < m implies #[trigger] (n % m) == n by {
        vstd::arithmetic::div_mod::lemma_small_mod(n as nat, m as nat);
    }
}

/// What a reader takes from a descriptor, each part modulo the size of its field.
proof fn lemma_reads_modulo(t: CvtTiming)
    requires
        t.ordered(),
    ensures
        read_descriptor(descriptor(t)) == (ReadTiming {
            clock_10khz: t.pixel_clock_khz as int / 10 % 0x1_0000,
            hactive: t.hactive as int % 4096,
            hblank: (t.htotal - t.hactive) % 4096,
            vactive: t.vactive as int % 4096,
            vblank: (t.vtotal - t.vactive) % 4096,
            hfront: (t.hsync_start - t.hactive) % 1024,
            hsync: (t.hsync_end - t.hsync_start) % 1024,
            vfront: (t.vsync_start - t.vactive) % 64,
            vsync: (t.vsync_end - t.vsync_start) % 64,
        }),
{
    let d = descriptor(t);
    let hblank = t.htotal - t.hactive;
    let vblank = t.vtotal - t.vactive;
    let hfront = t.hsync_start - t.hactive;
    let hsync = t.hsync_end - t.hsync_start;
    let vfront = t.vsync_start - t.vactive;
    let vsync = t.vsync_end - t.vsync_start;
    lemma_clock(t.pixel_clock_khz as int / 10, d[0], d[1]);
    lemma_active_and_blank(t.hactive as int, hblank, d[2], d[3], d[4]);
    lemma_active_and_blank(t.vactive as int, vblank, d[5], d[6], d[7]);
    lemma_porch_and_sync(hfront, hsync, vfront, vsync, d[8], d[9], d[10], d[11]);
}

proof fn lemma_clock(clock: int, low: u8, high: u8)
    requires
        0 <= clock,
        low == low_byte(clock),
        high == low_byte(clock / 256),
    ensures
        low + high * 256 == clock % 0x1_0000,
{
    reveal(low_byte);
}

proof fn lemma_active_and_blank(active: int, blank: int, low_a: u8, low_b: u8, high: u8)
    requires
        0 <= active,
        0 <= blank,
        low_a == low_byte(active),
        low_b == low_byte(blank),
        high == nibbles(active / 256, blank / 256),
    ensures
        low_a + (high as int / 16) * 256 == active % 4096,
        low_b + (high as int % 16) * 256 == blank % 4096,
{
    reveal(low_byte);
    reveal(nibbles);
    let a = active / 256 % 16;
    let b = blank / 256 % 16;
    assert(high == a * 16 + b);
    assert(high as int / 16 == a);
    assert(high as int % 16 == b);
    assert(active % 256 + a * 256 == active % 4096);
    assert(blank % 256 + b * 256 == blank % 4096);
}

proof fn lemma_porch_and_sync(
    hfront: int,
    hsync: int,
    vfront: int,
    vsync: int,
    low_hf: u8,
    low_hs: u8,
    low_v: u8,
    high: u8,
)
    requires
        0 <= hfront,
        0 <= hsync,
        0 <= vfront,
        0 <= vsync,
        low_hf == low_byte(hfront),
        low_hs == low_byte(hsync),
        low_v == nibbles(vfront, vsync),
        high == pairs(hfront / 256, hsync / 256, vfront / 16, vsync / 16),
    ensures
        low_hf + (high as int / 64) * 256 == hfront % 1024,
        low_hs + (high as int / 16 % 4) * 256 == hsync % 1024,
        low_v as int / 16 + (high as int / 4 % 4) * 16 == vfront % 64,
        low_v as int % 16 + (high as int % 4) * 16 == vsync % 64,
{
    reveal(low_byte);
    reveal(nibbles);
    reveal(pairs);
    let w = (hfront / 256 % 4) as u8;
    let x = (hsync / 256 % 4) as u8;
    let y = (vfront / 16 % 4) as u8;
    let z = (vsync / 16 % 4) as u8;
    assert(w < 4 && x < 4 && y < 4 && z < 4 && high == w * 64 + x * 16 + y * 4 + z ==> high / 64
        == w && high / 16 % 4 == x && high / 4 % 4 == y && high % 4 == z) by (bit_vector);
    let a = vfront % 16;
    let b = vsync % 16;
    assert(low_v == a * 16 + b);
    assert(low_v as int / 16 == a);
    assert(low_v as int % 16 == b);
    assert(hfront % 256 + (hfront / 256 % 4) * 256 == hfront % 1024);
    assert(hsync % 256 + (hsync / 256 % 4) * 256 == hsync % 1024);
    assert(vfront % 16 + (vfront / 16 % 4) * 16 == vfront % 64);
    assert(vsync % 16 + (vsync / 16 % 4) * 16 == vsync % 64);
}

// ---------------------------------------------------------------------------
// The EDID block
// ---------------------------------------------------------------------------

/// The place of a capital letter in the alphabet, from one.
pub open spec fn letter_code(c: u8) -> u16 {
    (c - 64) as u16
}

/// Three letters at five bits each, the first in the highest bits.
pub open spec fn packed_letters(letters: Seq<u8>) -> u16 {
    (letter_code(letters[0]) << 10u16) | (letter_code(letters[1]) << 5u16) | letter_code(letters[2])
}

/// Pack a 3-letter manufacturer code into EDID's 5-bit-per-letter, big-endian
/// `u16` (bit 15 reserved zero).
pub fn manufacturer_id(letters: [u8; 3]) -> (id: u16)
    requires
        forall|i: int| 0 <= i < 3 ==> letters[i] >= 65,
    ensures
        id == packed_letters(letters@),
        (forall|i: int| 0 <= i < 3 ==> letters[i] <= 90) ==> id == letter_code(letters[0]) * 1024
            + letter_code(letters[1]) * 32 + letter_code(letters[2]),
{
    let a: u16 = (letters[0] - 65 + 1) as u16;
    let b: u16 = (letters[1] - 65 + 1) as u16;
    let c: u16 = (letters[2] - 65 + 1) as u16;
    assert(a <= 26 && b <= 26 && c <= 26 ==> ((a << 10u16) | (b << 5u16) | c) == a * 1024 + b * 32
        + c) by (bit_vector);
    (a << 10u16) | (b << 5u16) | c
}

/// The sum of the bytes of `s`.
pub open spec fn byte_sum(s: Seq<u8>) -> nat
    decreases s.len(),
{
    if s.len() == 0 {
        0
    } else {
        byte_sum(s.drop_last()) + s.last() as nat
    }
}

/// `n` copies of the byte `b`.
pub open spec fn copies(b: u8, n: nat) -> Seq<u8> {
    Seq::new(n, |i: int| b)
}

/// The header, the identification (manufacturer `MRE`, product 1, no serial
/// number, week 1 of 2024, EDID 1.4) and the display parameters (digital input
/// of eight bits per colour, no size, gamma 2.20, preferred timing first).
pub open spec fn edid_identity() -> Seq<u8> {
    seq![
        0x00u8, 0xff, 0xff, 0xff, 0xff, 0xff, 0xff, 0x00,
        0x36, 0x45, 0x01, 0x00, 0x00, 0x00, 0x00, 0x00,
        1, 34, 1, 4, 0xa5, 0, 0, 120, 0x02,
    ]
}

/// The descriptor that names the monitor: `PadPlay`, a line feed and spaces.
pub open spec fn edid_name() -> Seq<u8> {
    seq![
        0x00u8, 0x00, 0x00, 0xfc, 0x00,
        0x50, 0x61, 0x64, 0x50, 0x6c, 0x61, 0x79, 0x0a, 0x20, 0x20, 0x20, 0x20, 0x20,
    ]
}

/// A descriptor that marks itself as unused.
pub open spec fn edid_unused() -> Seq<u8> {
    seq![0x00u8, 0x00, 0x00, 0x10] + copies(0, 14)
}

/// An EDID block up to its checksum: no chromaticity and no established
/// timings, eight unused standard timings, the detailed timing of `t`, the
/// name, two unused descriptors, and no extension blocks.
pub open spec fn edid_body(t: CvtTiming) -> Seq<u8> {
    edid_identity() + copies(0, 13) + copies(1, 16) + descriptor(t) + edid_name() + edid_unused()
        + edid_unused() + seq![0u8]
}

/// The byte that makes the sum of all bytes a multiple of 256.
pub open spec fn checksum(body: Seq<u8>) -> u8 {
    ((256 - byte_sum(body) as int % 256) % 256) as u8
}

fn push_bytes(v: &mut Vec<u8>, bytes: &[u8])
    ensures
        final(v)@ == old(v)@ + bytes@,
{
    let ghost before = v@;
    let mut i: usize = 0;
    while i < bytes.len()
        invariant
            i <= bytes@.len(),
            v@ == before + bytes@.take(i as int),
        decreases bytes@.len() - i,
    {
        v.push(bytes[i]);
        i = i + 1;
        assert(v@ =~= before + bytes@.take(i as int));
    }
    assert(bytes@.take(i as int) =~= bytes@);
}

fn push_copies(v: &mut Vec<u8>, b: u8, n: usize)
    ensures
        final(v)@ == old(v)@ + copies(b, n as nat),
{
    let ghost before = v@;
    let mut i: usize = 0;
    while i < n
        invariant
            i <= n,
            v@ =~= before + copies(b, i as nat),
        decreases n - i,
    {
        v.push(b);
        i = i + 1;
    }
}

/// The byte that completes a block whose other bytes are `body`.
fn checksum_of(body: &Vec<u8>) -> (r: u8)
    ensures
        r == checksum(body@),
{
    let mut sum: u32 = 0;
    let mut i: usize = 0;
    assert(body@.take(0) =~= Seq::<u8>::empty());
    while i < body.len()
        invariant
            i <= body@.len(),
            sum < 256,
            sum == byte_sum(body@.take(i as int)) % 256,
        decreases body@.len() - i,
    {
        assert(body@.take(i + 1).drop_last() =~= body@.take(i as int));
        sum = (sum + body[i] as u32) % 256;
        i = i + 1;
    }
    assert(body@.take(i as int) =~= body@);
    ((256 - sum) % 256) as u8
}

/// Build a minimal, spec-valid 128-byte EDID advertising exactly one mode.
pub fn build_edid(width: u32, height: u32, refresh_hz: u32) -> (edid: Vec<u8>)
    requires
        has_timing(width as int, height as int, refresh_hz as int),
    ensures
        edid@ == ({
            let body = edid_body(timing_of(width as int, height as int, refresh_hz as int));
            body.push(checksum(body))
        }),
        edid@.len() == 128,
        byte_sum(edid@) % 256 == 0,
{
    let timing = CvtTiming::reduced_blanking(width, height, refresh_hz);
    let mut edid: Vec<u8> = Vec::new();

    // The fixed header.
    push_bytes(&mut edid, &[0x00u8, 0xff, 0xff, 0xff, 0xff, 0xff, 0xff, 0x00]);

    // `MRE` is an unregistered placeholder: this display is never
    // manufactured or sold, so there is no real PNP ID to use.
    let mfg = manufacturer_id([77u8, 82, 69]);
    edid.push((mfg / 256) as u8);
    edid.push((mfg % 256) as u8);
    // Product code and serial number.
    push_bytes(&mut edid, &[0x01u8, 0x00, 0x00, 0x00, 0x00, 0x00]);
    // Week and year of manufacture, EDID version and revision.
    push_bytes(&mut edid, &[1u8, 34, 1, 4]);
    // Digital input, screen size, gamma, features.
    push_bytes(&mut edid, &[0xa5u8, 0, 0, 120, 0x02]);
    assert(edid@ =~= edid_identity());

    // Chromaticity and established timings, then the standard timings.
    push_copies(&mut edid, 0, 13);
    push_copies(&mut edid, 1, 16);

    let detailed = timing.detailed_timing_descriptor();
    push_bytes(&mut edid, detailed.as_slice());

    // The monitor name.
    let name: [u8; 18] = [
        0x00,
        0x00,
        0x00,
        0xfc,
        0x00,
        0x50,
        0x61,
        0x64,
        0x50,
        0x6c,
        0x61,
        0x79,
        0x0a,
        0x20,
        0x20,
        0x20,
        0x20,
        0x20,
    ];
    assert(name@ =~= edid_name());
    push_bytes(&mut edid, name.as_slice());

    // Two descriptors marked unused, and no extension blocks.
    push_unused(&mut edid);
    push_unused(&mut edid);
    edid.push(0);
    let ghost body = edid_body(timing);
    assert(edid@ =~= body);

    let last = checksum_of(&edid);
    edid.push(last);
    assert(edid@.drop_last() =~= body);
    edid
}

fn push_unused(edid: &mut Vec<u8>)
    ensures
        final(edid)@ == old(edid)@ + edid_unused(),
{
    push_bytes(edid, &[0x00u8, 0x00, 0x00, 0x10]);
    push_copies(edid, 0, 14);
    assert(edid@ =~= old(edid)@ + edid_unused());
}

/// The one mode that an EDID block advertises: its detailed timing gives the
/// width rounded down to a multiple of eight and the height, for sizes below
/// 4096.
pub proof fn edid_advertises_the_mode(width: u32, height: u32, refresh: u32)
    requires
        has_timing(width as int, height as int, refresh as int),
        width < 4096,
        height < 4096,
    ensures
        ({
            let body = edid_body(timing_of(width as int, height as int, refresh as int));
            let read = read_descriptor(body.subrange(54, 72));
            read.hactive == width - width % 8 && read.vactive == height
        }),
{
    let t = timing_of(width as int, height as int, refresh as int);
    lemma_timing_bounds(height as int, refresh as int);
    descriptor_reads_back(t);
    lemma_descriptor_stands_at_54(t);
}

proof fn lemma_descriptor_stands_at_54(t: CvtTiming)
    ensures
        edid_body(t).subrange(54, 72) == descriptor(t),
{
    let front = edid_identity() + copies(0, 13) + copies(1, 16);
    let one = front + descriptor(t);
    let two = one + edid_name();
    let three = two + edid_unused();
    let four = three + edid_unused();
    assert(front.len() == 54);
    assert(one.subrange(54, 72) =~= descriptor(t));
    assert(two.subrange(54, 72) =~= one.subrange(54, 72));
    assert(three.subrange(54, 72) =~= two.subrange(54, 72));
    assert(four.subrange(54, 72) =~= three.subrange(54, 72));
    assert((four + seq![0u8]).subrange(54, 72) =~= four.subrange(54, 72));
}

/// The lines and the blanking of a mode fill its frames without a gap: with a
/// nanosecond more per line they would not fit, the blanking takes more than the
/// shortest time and with a line less it would not, unless the porches and the sync
/// need those lines.
pub proof fn lines_fill_the_frame(h: int, v: int, refresh: int)
    requires
        has_timing(h, v, refresh),
    ensures
        ({
            let period = line_period(v, refresh);
            let blank = blank_lines(h, v, refresh);
            let lines = v * refresh;
            let available = 1_000_000_000 - 460_000 * refresh;
            &&& period >= 1
            &&& period * lines <= available < (period + 1) * lines
            &&& blank * period > 460_000
            &&& blank >= sync_lines(h, v) + 9
            &&& blank > sync_lines(h, v) + 9 ==> (blank - 1) * period <= 460_000
        }),
{
    let period = line_period(v, refresh);
    let blank = blank_lines(h, v, refresh);
    let lines = v * refresh;
    let available = 1_000_000_000 - 460_000 * refresh;
    assert(lines >= 1) by (nonlinear_arith)
        requires
            lines == v * refresh,
            v >= 1,
            refresh >= 1,
    ;
    assert(period >= 1 && period * lines <= available && available < (period + 1) * lines)
        by (nonlinear_arith)
        requires
            lines >= 1,
            available >= lines,
            period == available / lines,
    ;
    let needed = 460_000int / period + 1;
    assert(needed * period > 460_000 && (needed - 1) * period <= 460_000) by (nonlinear_arith)
        requires
            period >= 1,
            needed == 460_000int / period + 1,
    ;
    assert(blank >= needed);
    assert(blank * period >= needed * period) by (nonlinear_arith)
        requires
            blank >= needed,
            period >= 1,
    ;
}

/// The pixel clock is what a line needs: all the pixels of a line, at that many
/// thousand a second, take no less than the line's time, and with one thousand more
/// they would take less. A clock that does not fit its field is the largest that does.
pub proof fn the_clock_draws_a_line_in_time(h: int, v: int, refresh: int)
    requires
        0 <= h,
        has_timing(h, v, refresh),
    ensures
        ({
            let t = timing_of(h, v, refresh);
            let period = line_period(v, refresh);
            &&& t.htotal == h - h % 8 + 160
            &&& t.pixel_clock_khz * period <= t.htotal * 1_000_000
            &&& t.pixel_clock_khz < u32::MAX ==> t.htotal * 1_000_000 < (t.pixel_clock_khz + 1)
                * period
        }),
{
    lines_fill_the_frame(h, v, refresh);
    let period = line_period(v, refresh);
    let work = (h - h % 8 + 160) * 1_000_000;
    let khz = work / period;
    let clock = timing_of(h, v, refresh).pixel_clock_khz as int;
    assert(khz >= 0 && khz * period <= work && work < (khz + 1) * period) by (nonlinear_arith)
        requires
            period >= 1,
            work >= 0,
            khz == work / period,
    ;
    assert(clock <= khz);
    assert(clock * period <= khz * period) by (nonlinear_arith)
        requires
            clock <= khz,
            period >= 1,
    ;
}

/// The lines of sync tell the aspect ratio: four are for 4:3 and no other, five for
/// 16:9, six for 16:10 at a multiple of ten lines, seven for 5:4, or for 15:9 at a
/// multiple of nine lines, and ten for all others.
pub proof fn sync_tells_the_aspect_ratio(h: int, v: int)
    requires
        1 <= v,
    ensures
        sync_lines(h, v) == 4 <==> 3 * h == 4 * v,
        sync_lines(h, v) == 5 <==> 9 * h == 16 * v,
        sync_lines(h, v) == 6 <==> 10 * h == 16 * v && v % 10 == 0,
        sync_lines(h, v) == 7 <==> 4 * h == 5 * v || (9 * h == 15 * v && v % 9 == 0),
        sync_lines(h, v) == 4 || sync_lines(h, v) == 5 || sync_lines(h, v) == 6 || sync_lines(h, v)
            == 7 || sync_lines(h, v) == 10,
{
}

/// Where an EDID block says what, whatever its mode: the fixed header, the maker in
/// three letters of five bits, the year counted from 1990, the version, no standard
/// timings, the mode first among the four descriptors, then the name, and no extension.
pub proof fn edid_layout(t: CvtTiming)
    ensures
        ({
            let b = edid_body(t);
            let maker = b[8] * 256 + b[9];
            &&& b.len() == 127
            &&& b[0] == 0 && b[7] == 0
            &&& forall|i: int| 1 <= i < 7 ==> #[trigger] b[i] == 0xff
            &&& maker / 1024 + 64 == 'M' as int
            &&& maker / 32 % 32 + 64 == 'R' as int
            &&& maker % 32 + 64 == 'E' as int
            &&& b[10] + 256 * b[11] == 1
            &&& b[16] == 1 && 1990 + b[17] == 2024
            &&& b[18] == 1 && b[19] == 4
            &&& b[23] + 100 == 220
            &&& forall|i: int| 38 <= i < 54 ==> #[trigger] b[i] == 1
            &&& b.subrange(54, 72) == descriptor(t)
            &&& b[72] == 0 && b[73] == 0 && b[75] == 0xfc
            &&& b[77] as char == 'P' && b[78] as char == 'a' && b[79] as char == 'd'
            &&& b[80] as char == 'P' && b[81] as char == 'l' && b[82] as char == 'a'
            &&& b[83] as char == 'y' && b[84] as char == '\n'
            &&& forall|i: int| 85 <= i < 90 ==> #[trigger] b[i] as char == ' '
            &&& b[93] == 0x10 && b[111] == 0x10
            &&& b[126] == 0
        }),
{
    let b = edid_body(t);
    let identity = edid_identity();
    assert(descriptor(t).len() == 18);
    assert(identity.len() == 25);
    assert(edid_name().len() == 18);
    assert(forall|i: int| 0 <= i < 25 ==> b[i] == identity[i]);
    assert(forall|i: int| 72 <= i < 90 ==> b[i] == edid_name()[i - 72]);
    assert(b.subrange(54, 72) =~= descriptor(t));
}

} // verus!
