//! VESA CVT modelines: which requests are met, and how a computed timing is
//! packed for the kernel.
//!
//! Standard CVT (no reduced blanking) is the only variant: reduced blanking
//! cannot drive CRTs, and listed modes already cover digital displays.
use vstd::prelude::*;

use crate::text;
use crate::text::{join5, show_u64};

verus! {

/// Why there is no modeline.
#[derive(Clone, Copy, Debug, PartialEq, Eq, Structural)]
pub enum CvtError {
    NoSize,
    NoRefresh,
    TooSmall,
    TooFast,
    Degenerate,
}

/// The words of an error.
pub open spec fn error_text(e: CvtError) -> Seq<char> {
    match e {
        CvtError::NoSize => "CVT: width and height must be non-zero"@,
        CvtError::NoRefresh => "CVT: refresh rate must be non-zero"@,
        CvtError::TooSmall => "CVT: width/height too small (min 64)"@,
        CvtError::TooFast => "CVT: refresh rate too high (max 500 Hz)"@,
        CvtError::Degenerate => "CVT: degenerate timing output"@,
    }
}

impl CvtError {
    /// The words of the error.
    pub fn message(&self) -> (r: String)
        ensures
            r@ == error_text(*self),
    {
        match self {
            CvtError::NoSize => "CVT: width and height must be non-zero".to_owned(),
            CvtError::NoRefresh => "CVT: refresh rate must be non-zero".to_owned(),
            CvtError::TooSmall => "CVT: width/height too small (min 64)".to_owned(),
            CvtError::TooFast => "CVT: refresh rate too high (max 500 Hz)".to_owned(),
            CvtError::Degenerate => "CVT: degenerate timing output".to_owned(),
        }
    }
}

/// Why a request is not met, if it is not.
pub open spec fn request_error(w: u16, h: u16, refresh_hz: u32) -> Option<CvtError> {
    if w == 0 || h == 0 {
        Some(CvtError::NoSize)
    } else if refresh_hz == 0 {
        Some(CvtError::NoRefresh)
    } else if w < 64 || h < 64 {
        Some(CvtError::TooSmall)
    } else if refresh_hz > 500 {
        Some(CvtError::TooFast)
    } else {
        None
    }
}

/// Why a request is not met, if it is not: asked before its timing is
/// computed.
pub fn check_request(w: u16, h: u16, refresh_hz: u32) -> (r: Option<CvtError>)
    ensures
        r == request_error(w, h, refresh_hz),
{
    if w == 0 || h == 0 {
        Some(CvtError::NoSize)
    } else if refresh_hz == 0 {
        Some(CvtError::NoRefresh)
    } else if w < 64 || h < 64 {
        Some(CvtError::TooSmall)
    } else if refresh_hz > 500 {
        Some(CvtError::TooFast)
    } else {
        None
    }
}

/// A computed timing, in pixels and lines.
#[derive(Debug, PartialEq, Eq)]
pub struct CvtTiming {
    pub h_front_porch: u32,
    pub h_sync: u16,
    pub h_back_porch: u16,
    pub v_lines: u32,
    pub v_front_porch: u32,
    pub v_sync: u16,
    pub v_back_porch: u16,
    /// Pixel clock in kHz.
    pub clock: u32,
    /// The refresh rate that is achieved, rounded.
    pub vrefresh: u32,
    /// The refresh rate that is achieved, with two decimals.
    pub rate: String,
}

/// A mode as the kernel has it.
#[derive(Debug, PartialEq, Eq)]
pub struct ModeInfo {
    pub clock: u32,
    pub hdisplay: u16,
    pub hsync_start: u16,
    pub hsync_end: u16,
    pub htotal: u16,
    pub hskew: u16,
    pub vdisplay: u16,
    pub vsync_start: u16,
    pub vsync_end: u16,
    pub vtotal: u16,
    pub vscan: u16,
    pub vrefresh: u32,
    pub flags: u32,
    pub type_: u32,
    pub name: [u8; 32],
}

/// `drm_ffi::DRM_MODE_FLAG_NHSYNC`: the flag of a negative horizontal sync is 2.
#[verifier::external_body]
fn flag_nhsync() -> (r: u32)
    ensures
        r == 2,
{
    drm_ffi::DRM_MODE_FLAG_NHSYNC
}

/// `drm_ffi::DRM_MODE_FLAG_PVSYNC`: the flag of a positive vertical sync is 4.
#[verifier::external_body]
fn flag_pvsync() -> (r: u32)
    ensures
        r == 4,
{
    drm_ffi::DRM_MODE_FLAG_PVSYNC
}

/// `drm_ffi::DRM_MODE_TYPE_USERDEF`: the type of a mode that a user defined is
/// 32.
#[verifier::external_body]
fn type_userdef() -> (r: u32)
    ensures
        r == 32,
{
    drm_ffi::DRM_MODE_TYPE_USERDEF
}

/// A number as the low 16 bits of it.
pub open spec fn low_bits(n: int) -> int {
    n % 65536
}

/// A sum held to 16 bits.
pub open spec fn capped(n: int) -> int {
    if n > 65535 {
        65535
    } else {
        n
    }
}

/// Start of the sync, its end, and the total along one axis.
pub open spec fn axis_times(active: int, front: int, sync: int, back: int) -> (int, int, int) {
    let start = low_bits(active + front);
    let end = capped(start + sync);
    (start, end, capped(end + back))
}

fn cap(a: u16, b: u16) -> (r: u16)
    ensures
        r == capped(a + b),
{
    if a as u32 + b as u32 > 65535 {
        65535
    } else {
        a + b
    }
}

fn times(active: u32, front: u32, sync: u16, back: u16) -> (r: (u16, u16, u16))
    ensures
        (r.0 as int, r.1 as int, r.2 as int) == axis_times(
            active as int,
            front as int,
            sync as int,
            back as int,
        ),
{
    let sum: u64 = active as u64 + front as u64;
    let start: u16 = (sum % 65536) as u16;
    let end: u16 = cap(start, sync);
    let total: u16 = cap(end, back);
    (start, end, total)
}

/// Is a timing no timing at all?
pub open spec fn degenerate(w: u16, h: u16, t: CvtTiming) -> bool {
    let (hstart, _, htotal) = axis_times(
        w as int,
        t.h_front_porch as int,
        t.h_sync as int,
        t.h_back_porch as int,
    );
    let (vstart, _, vtotal) = axis_times(
        t.v_lines as int,
        t.v_front_porch as int,
        t.v_sync as int,
        t.v_back_porch as int,
    );
    htotal == 0 || vtotal == 0 || hstart <= w || vstart <= h
}

/// The name of a mode: its size and the refresh rate that is achieved.
pub open spec fn mode_name(w: u16, h: u16, rate: Seq<char>) -> Seq<char> {
    text::int_text(w as int) + "x"@ + text::int_text(h as int) + "@"@ + rate
}

/// A name packed into 32 bytes: its first 31, then zeros.
pub open spec fn packs(name: Seq<char>, out: Seq<u8>) -> bool {
    let bytes = vstd::utf8::encode_utf8(name);
    out.len() == 32 && forall|i: int|
        0 <= i < 32 ==> #[trigger] out[i] == (if i < 31 && i < bytes.len() {
            bytes[i]
        } else {
            0
        })
}

/// Pack a mode name into the 32-byte NUL-padded array that the kernel expects.
pub fn modeinfo_name_slice(name: &str) -> (out: [u8; 32])
    ensures
        packs(name@, out@),
{
    let mut out: [u8; 32] = [0u8; 32];
    let bytes: &[u8] = name.as_bytes();
    let n: usize = bytes.len();
    let mut i: usize = 0;
    while i < 31 && i < n
        invariant
            i <= 31,
            i <= n,
            n == bytes@.len(),
            bytes@ == vstd::utf8::encode_utf8(name@),
            out@.len() == 32,
            forall|j: int| 0 <= j < i ==> #[trigger] out@[j] == bytes@[j],
            forall|j: int| i <= j < 32 ==> #[trigger] out@[j] == 0,
        decreases 31 - i,
    {
        out[i] = bytes[i];
        i = i + 1;
    }
    out
}

/// The modeline of a request, from its computed timing.
pub fn synth_cvt(w: u16, h: u16, refresh_hz: u32, t: &CvtTiming) -> (r: Result<ModeInfo, CvtError>)
    ensures
        match r {
            Err(e) => request_error(w, h, refresh_hz) == Some(e) || (request_error(
                w,
                h,
                refresh_hz,
            ) is None && degenerate(w, h, *t) && e is Degenerate),
            Ok(m) => {
                &&& request_error(w, h, refresh_hz) is None
                &&& !degenerate(w, h, *t)
                &&& m.clock == t.clock
                &&& m.vrefresh == t.vrefresh
                &&& m.hdisplay == w
                &&& m.vdisplay == h
                &&& (m.hsync_start as int, m.hsync_end as int, m.htotal as int) == axis_times(
                    w as int,
                    t.h_front_porch as int,
                    t.h_sync as int,
                    t.h_back_porch as int,
                )
                &&& (m.vsync_start as int, m.vsync_end as int, m.vtotal as int) == axis_times(
                    t.v_lines as int,
                    t.v_front_porch as int,
                    t.v_sync as int,
                    t.v_back_porch as int,
                )
                &&& m.hskew == 0
                &&& m.vscan == 0
                &&& m.flags == 6
                &&& m.type_ == 32
                &&& packs(mode_name(w, h, t.rate@), m.name@)
            },
        },
{
    if let Some(e) = check_request(w, h, refresh_hz) {
        return Err(e);
    }
    let (hsync_start, hsync_end, htotal): (u16, u16, u16) = times(
        w as u32,
        t.h_front_porch,
        t.h_sync,
        t.h_back_porch,
    );
    let (vsync_start, vsync_end, vtotal): (u16, u16, u16) = times(
        t.v_lines,
        t.v_front_porch,
        t.v_sync,
        t.v_back_porch,
    );
    if htotal == 0 || vtotal == 0 || hsync_start <= w || vsync_start <= h {
        return Err(CvtError::Degenerate);
    }
    let width: String = show_u64(w as u64);
    let height: String = show_u64(h as u64);
    let name: String = join5(width.as_str(), "x", height.as_str(), "@", t.rate.as_str());
    let nhsync: u32 = flag_nhsync();
    let pvsync: u32 = flag_pvsync();
    proof {
        assert(2u32 | 4u32 == 6u32) by (bit_vector);
    }
    Ok(
        ModeInfo {
            clock: t.clock,
            hdisplay: w,
            hsync_start,
            hsync_end,
            htotal,
            hskew: 0,
            vdisplay: h,
            vsync_start,
            vsync_end,
            vtotal,
            vscan: 0,
            vrefresh: t.vrefresh,
            flags: nhsync | pvsync,
            type_: type_userdef(),
            name: modeinfo_name_slice(name.as_str()),
        },
    )
}

/// Along each axis the picture comes before the sync, and the sync before the
/// total. Where the timing has a sync and fits 16 bits, none of them is empty.
pub proof fn lemma_timings_are_in_order(active: int, front: int, sync: int, back: int)
    requires
        active >= 0,
        front >= 0,
        sync >= 0,
        back >= 0,
    ensures
        ({
            let (start, end, total) = axis_times(active, front, sync, back);
            &&& start <= end <= total
            &&& active + front + sync + back <= 65535 ==> start == active + front && end == start
                + sync && total == end + back
            &&& sync > 0 && active + front + sync + back <= 65535 ==> start < end
        }),
{
}

/// A mode can be asked for if and only if it is at least 64 by 64 and its rate
/// is from 1 to 500. Of several faults, a missing size is named first, after it a
/// missing rate, a small size and a high rate.
pub proof fn lemma_which_requests_are_refused(w: u16, h: u16, refresh_hz: u32)
    ensures
        request_error(w, h, refresh_hz) is None <==> w >= 64 && h >= 64 && 1 <= refresh_hz <= 500,
        request_error(w, h, refresh_hz) == Some(CvtError::NoSize) <==> w as int * h as int == 0,
        request_error(w, h, refresh_hz) == Some(CvtError::NoRefresh) <==> w > 0 && h > 0
            && refresh_hz == 0,
        request_error(w, h, refresh_hz) == Some(CvtError::TooSmall) <==> w > 0 && h > 0
            && refresh_hz > 0 && (w <= 63 || h <= 63),
        request_error(w, h, refresh_hz) == Some(CvtError::TooFast) <==> w > 63 && h > 63
            && refresh_hz >= 501,
        request_error(w, h, refresh_hz) != Some(CvtError::Degenerate),
{
    assert(w as int * h as int == 0 <==> w == 0 || h == 0) by (nonlinear_arith);
}

/// A timing whose parts fit 16 bits and that has room before each sync is not
/// degenerate, and one without that room is.
pub proof fn lemma_degenerate_timings(w: u16, h: u16, t: CvtTiming)
    requires
        w + t.h_front_porch + t.h_sync + t.h_back_porch <= 65535,
        t.v_lines + t.v_front_porch + t.v_sync + t.v_back_porch <= 65535,
    ensures
        degenerate(w, h, t) <==> t.h_front_porch == 0 || t.v_lines + t.v_front_porch <= h,
{
}

} // verus!
