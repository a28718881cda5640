//! Modelines and the nested backend.
use driftwm::backend::cvt::{check_request, modeinfo_name_slice, synth_cvt, CvtError, CvtTiming, ModeInfo};
use driftwm::backend::winit::{
    any_transparent, buffer_age, dispatch, frame_steps, frame_time, next_frame, submits,
    winit_head, FrameStep, HostAction, HostEvent, OfferedMode,
};
use driftwm::config::Real;
use driftwm::geometry::Size;

/// The timing of the reference modeline
/// `1920x1080_60.00 173.00 1920 2048 2248 2576 1080 1083 1088 1120`.
fn timing_1080() -> CvtTiming {
    CvtTiming {
        h_front_porch: 128,
        h_sync: 200,
        h_back_porch: 328,
        v_lines: 1080,
        v_front_porch: 3,
        v_sync: 5,
        v_back_porch: 32,
        clock: 173_000,
        vrefresh: 60,
        rate: "59.96".to_string(),
    }
}

/// `2560x1440_75.00 397.25 2560 2760 3040 3520 1440 1443 1448 1506`.
fn timing_1440() -> CvtTiming {
    CvtTiming {
        h_front_porch: 200,
        h_sync: 280,
        h_back_porch: 480,
        v_lines: 1440,
        v_front_porch: 3,
        v_sync: 5,
        v_back_porch: 58,
        clock: 397_250,
        vrefresh: 75,
        rate: "74.94".to_string(),
    }
}

/// `1152x864_100.00 143.50 1152 1240 1368 1584 864 867 871 907`.
fn timing_864() -> CvtTiming {
    CvtTiming {
        h_front_porch: 88,
        h_sync: 128,
        h_back_porch: 216,
        v_lines: 864,
        v_front_porch: 3,
        v_sync: 4,
        v_back_porch: 36,
        clock: 143_500,
        vrefresh: 100,
        rate: "99.88".to_string(),
    }
}

fn synth(w: u16, h: u16, hz: u32) -> Result<ModeInfo, CvtError> {
    let t = match (w, h) {
        (2560, _) => timing_1440(),
        (1152, _) => timing_864(),
        _ => timing_1080(),
    };
    synth_cvt(w, h, hz, &t)
}

#[test]
fn cvt_1920x1080_60_known_clock() {
    let m = synth(1920, 1080, 60).unwrap();
    assert_eq!(m.clock, 173_000);
    assert_eq!(m.hdisplay, 1920);
    assert_eq!(m.vdisplay, 1080);
    assert_eq!((m.hsync_start, m.hsync_end, m.htotal), (2048, 2248, 2576));
    assert_eq!((m.vsync_start, m.vsync_end, m.vtotal), (1083, 1088, 1120));
    assert_eq!((m.hskew, m.vscan, m.vrefresh), (0, 0, 60));
}

#[test]
fn cvt_1152x864_100_crt_scenario() {
    let m = synth(1152, 864, 100).unwrap();
    assert!(m.clock > 130_000 && m.clock < 160_000, "clock = {}", m.clock);
    assert_eq!(m.hdisplay, 1152);
    assert_eq!(m.vdisplay, 864);
}

#[test]
fn cvt_rejects_zero_inputs() {
    assert!(synth(0, 1080, 60).is_err());
    assert!(synth(1920, 0, 60).is_err());
    assert!(synth(1920, 1080, 0).is_err());
}

#[test]
fn cvt_rejects_excessive_refresh() {
    assert!(synth(1920, 1080, 501).is_err());
}

#[test]
fn cvt_rejects_tiny_dimensions() {
    assert!(synth(32, 1080, 60).is_err());
    assert!(synth(1920, 32, 60).is_err());
}

#[test]
fn cvt_userdef_type_set() {
    let m = synth(1920, 1080, 60).unwrap();
    assert_eq!(m.type_, drm_ffi::DRM_MODE_TYPE_USERDEF);
    assert_eq!(m.flags, drm_ffi::DRM_MODE_FLAG_NHSYNC | drm_ffi::DRM_MODE_FLAG_PVSYNC);
}

#[test]
fn cvt_name_includes_actual_refresh() {
    let m = synth(1920, 1080, 60).unwrap();
    let bytes: Vec<u8> = m.name.iter().map(|&b| b as u8).collect();
    let nul = bytes.iter().position(|&b| b == 0).expect("NUL-terminated");
    let s = std::str::from_utf8(&bytes[..nul]).unwrap();
    assert!(s.starts_with("1920x1080@"), "name = {s:?}");
    assert_eq!(s, "1920x1080@59.96");
}

#[test]
fn cvt_timings_self_consistent() {
    let m = synth(2560, 1440, 75).unwrap();
    assert!(m.hsync_start < m.hsync_end);
    assert!(m.hsync_end <= m.htotal);
    assert!(m.hdisplay < m.hsync_start);
    assert!(m.vsync_start < m.vsync_end);
    assert!(m.vsync_end <= m.vtotal);
    assert!(m.vdisplay < m.vsync_start);
}

#[test]
fn cvt_says_why_not() {
    let why = |w, h, hz| check_request(w, h, hz).map(|e| e.message());
    assert_eq!(why(0, 1, 0).as_deref(), Some("CVT: width and height must be non-zero"));
    assert_eq!(why(1, 1, 0).as_deref(), Some("CVT: refresh rate must be non-zero"));
    assert_eq!(why(63, 64, 501).as_deref(), Some("CVT: width/height too small (min 64)"));
    assert_eq!(why(64, 64, 501).as_deref(), Some("CVT: refresh rate too high (max 500 Hz)"));
    assert_eq!(why(64, 64, 500), None);
    let mut t = timing_1080();
    t.h_front_porch = 0;
    let e = synth_cvt(1920, 1080, 60, &t).unwrap_err();
    assert_eq!(e, CvtError::Degenerate);
    assert_eq!(e.message(), "CVT: degenerate timing output");
}

#[test]
fn cvt_sums_stop_at_their_limit() {
    let mut t = timing_1080();
    t.h_sync = 65_000;
    let m = synth_cvt(1920, 1080, 60, &t).unwrap();
    assert_eq!((m.hsync_start, m.hsync_end, m.htotal), (2048, 65_535, 65_535));
}

#[test]
fn mode_names_end_in_a_zero() {
    let long = modeinfo_name_slice(&"x".repeat(40));
    assert_eq!(&long[..31], "x".repeat(31).as_bytes());
    assert_eq!(long[31], 0);
    let short = modeinfo_name_slice("ab");
    assert_eq!(&short[..3], &[b'a', b'b', 0]);
}

#[test]
fn the_nested_output_offers_the_host_window() {
    let h = winit_head(Size { w: 800, h: 600 });
    assert_eq!(h.name, "winit");
    assert_eq!(h.make, "driftwm");
    assert_eq!(h.serial_number, "");
    assert_eq!(
        h.modes,
        vec![OfferedMode { width: 800, height: 600, refresh: 60_000, preferred: true }]
    );
    assert_eq!(h.current_mode_index, Some(0));
}

#[test]
fn host_events_are_all_dispatched() {
    let size = Size { w: 1, h: 2 };
    let scale = Real { bits: 2.0f64.to_bits() };
    let (actions, stop) = dispatch(&vec![
        HostEvent::Other,
        HostEvent::Input(7),
        HostEvent::CloseRequested,
        HostEvent::Resized { size, scale },
    ]);
    assert!(stop);
    assert_eq!(
        actions,
        vec![
            HostAction::Process(7),
            HostAction::Remode { size, refresh: 60_000, scale },
        ]
    );
    assert!(!dispatch(&vec![HostEvent::Input(1)]).1);
}

#[test]
fn frames_run_their_steps_in_order() {
    assert_eq!(frame_steps(true), vec![FrameStep::StopLoop]);
    assert_eq!(next_frame(true), None);
    assert_eq!(next_frame(false), Some(16));
    let steps = frame_steps(false);
    assert_eq!(steps.len(), 18);
    let at = |s: FrameStep| steps.iter().position(|x| *x == s).unwrap();
    assert!(at(FrameStep::ZoomAnimation) < at(FrameStep::CameraAnimation));
    assert!(at(FrameStep::CameraAnimation) < at(FrameStep::PointerResync));
    assert!(at(FrameStep::Render) < at(FrameStep::RecordCamera));
    assert_eq!(frame_time(5), 5);
    assert_eq!(frame_time(40_000_000), 33_000_000);
}

#[test]
fn stale_buffers_are_drawn_again() {
    assert_eq!(buffer_age(Some(2), false, true, true, true, false), 2);
    assert_eq!(buffer_age(Some(2), true, false, false, false, true), 2);
    assert_eq!(buffer_age(Some(2), true, true, false, false, false), 0);
    assert_eq!(buffer_age(Some(2), true, false, true, false, false), 0);
    assert_eq!(buffer_age(Some(2), false, false, false, true, true), 0);
    assert_eq!(buffer_age(None, false, false, false, false, false), 0);
    let o = |v: f64| Some(Real { bits: v.to_bits() });
    assert!(any_transparent(&vec![None, o(1.0), o(0.9)]));
    assert!(!any_transparent(&vec![None, o(1.0)]));
    assert!(submits(true, true) && !submits(true, false) && !submits(false, true));
}
