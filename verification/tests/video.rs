use std::time::{Duration, Instant};

use skry::layout::{
    choose_display, fill_centered, fill_computable, fit_centered, fit_computable, origin_computable, scaled_window,
    window_origin, window_size_computable, window_size_for, Rect,
};
use skry::pipeline::{catchup_start, choose_format, pts_for_decoder, CaptureStats, CATCHUP_BATCH};
use skry::ui::{cursor_action, event_action, CursorAction, EventAction, InputEvent, Key, CURSOR_IDLE_HIDE_MS};
use skry::{FrameHeader, PresentationClock};

/// How long a frame still has to wait at `now`, given what the clock decided.
fn wait_at(decision: Option<(Instant, u64)>, now: Instant) -> Duration {
    match decision {
        None => Duration::ZERO,
        Some((base, offset)) => (base + Duration::from_micros(offset)).saturating_duration_since(now),
    }
}

#[test]
fn first_frame_is_immediate() {
    let mut clock = PresentationClock::new();
    let start = Instant::now();
    let decision = clock.schedule(5_000_000, start);
    assert!(decision.is_none());
    assert!(wait_at(decision, start) < Duration::from_millis(50));
}

#[test]
fn backwards_pts_does_not_hang() {
    let mut clock = PresentationClock::new();
    let base = Instant::now();
    clock.schedule(1_000_000, base);
    let start = Instant::now();
    let decision = clock.schedule(0, start);
    assert_eq!(decision, Some((base, 0)));
    assert!(wait_at(decision, start) < Duration::from_millis(100));
}

#[test]
fn future_pts_waits_approximately() {
    let mut clock = PresentationClock::new();
    let base = Instant::now();
    clock.schedule(0, base);
    let decision = clock.schedule(30_000, base);
    let waited = wait_at(decision, base);
    assert!(waited >= Duration::from_millis(20), "esperó {waited:?}");
    assert!(waited < Duration::from_secs(2), "esperó demasiado {waited:?}");
}

#[test]
fn telefono_vertical_en_monitor_ancho_pone_barras_laterales() {
    let r = fit_centered(1440, 3120, 1920, 1080);
    assert_eq!(r.height(), 1080);
    assert_eq!(r.width(), 498);
    assert!(r.x() > 0);
    assert_eq!(r.y(), 0);
}

#[test]
fn preserva_aspecto_sin_estirar() {
    let r = fit_centered(1000, 2000, 1000, 1000);
    assert_eq!((r.width(), r.height()), (500, 1000));
}

#[test]
fn dimensiones_cero_no_paniquean() {
    let r = fit_centered(0, 0, 800, 600);
    assert_eq!((r.width(), r.height()), (800, 600));
}

#[test]
fn fill_cubre_y_recorta() {
    let r = fill_centered(2400, 1108, 2560, 1440);
    assert_eq!(r.height(), 1440);
    assert!(r.width() > 2560);
    assert!(r.x() < 0);
}

#[test]
fn fill_aspecto_exacto_sin_recorte() {
    let r = fill_centered(1600, 900, 3200, 1800);
    assert_eq!((r.width(), r.height()), (3200, 1800));
}

#[test]
fn ventana_entra_en_monitor_chico_sin_recortar() {
    let (w, h) = window_size_for(1440, 3120, 1536, 864);
    assert!(h <= 864, "no debe superar el alto del monitor");
    assert!(w <= 1536, "no debe superar el ancho del monitor");
    assert_eq!(h, (864.0 * 0.90) as u32);
}

#[test]
fn ventana_aprovecha_monitor_grande() {
    let (_w, h) = window_size_for(1440, 3120, 2560, 1440);
    assert_eq!(h, (1440.0 * 0.90) as u32);
}

#[test]
fn fill_telefono_vertical_en_monitor_ancho_recorta_arriba_abajo() {
    let r = fill_centered(1080, 1920, 1920, 1080);
    assert_eq!(r.width(), 1920);
    assert!(r.height() > 1080);
    assert!(r.y() < 0);
    assert_eq!(r.x(), 0);
}

// ---- further cases ----

#[test]
fn fit_exact_values_and_centering() {
    let r = fit_centered(1440, 3120, 1920, 1080);
    assert_eq!(r.x(), (1920 - 498) / 2);
    let wide = fit_centered(1920, 1080, 1000, 1000);
    assert_eq!((wide.x(), wide.y(), wide.width(), wide.height()), (0, 219, 1000, 562));
    let zero = fill_centered(5, 0, 0, 0);
    assert_eq!((zero.x(), zero.y(), zero.width(), zero.height()), (0, 0, 1, 1));
}

#[test]
fn rect_new_keeps_values() {
    let r = Rect::new(-3, 7, 10, 20);
    assert_eq!((r.x(), r.y(), r.width(), r.height()), (-3, 7, 10, 20));
    let z = Rect::new(0, 0, 0, 0);
    assert_eq!((z.width(), z.height()), (1, 1));
}

#[test]
fn window_size_on_degenerate_monitor() {
    assert_eq!(window_size_for(0, 0, 0, 0), (1, 1));
    let (w, h) = window_size_for(1080, 1920, 1920, 1080);
    assert_eq!(h, 972);
    assert_eq!(w, 546);
}

#[test]
fn scaled_window_caps_height() {
    assert_eq!(scaled_window(1440, 3120), (415, 900));
    assert_eq!(scaled_window(800, 600), (800, 600));
    assert_eq!(scaled_window(0, 0), (1, 1));
    assert_eq!(scaled_window(1, 5000), (1, 900));
}

#[test]
fn display_choice_prefers_request_then_largest() {
    assert_eq!(choose_display(Some(1), &[10, 20, 5]), 1);
    assert_eq!(choose_display(Some(7), &[10, 20, 5]), 1);
    assert_eq!(choose_display(None, &[10, 20, 20]), 2);
    assert_eq!(choose_display(None, &[]), 0);
    assert_eq!(choose_display(None, &[0]), 0);
}

#[test]
fn window_origin_centers_on_monitor() {
    assert_eq!(window_origin(1920, 0, 2560, 1440, 1000, 800), (1920 + 780, 320));
    assert_eq!(window_origin(0, 0, 100, 100, 301, 100), (-100, 0));
}

#[test]
fn events_map_to_actions() {
    assert_eq!(event_action(InputEvent::Quit, false), EventAction::Quit);
    assert_eq!(event_action(InputEvent::KeyDown(Key::Q), true), EventAction::Quit);
    assert_eq!(event_action(InputEvent::KeyDown(Key::Escape), true), EventAction::ExitFullscreen);
    assert_eq!(event_action(InputEvent::KeyDown(Key::Escape), false), EventAction::Quit);
    assert_eq!(event_action(InputEvent::KeyDown(Key::F), false), EventAction::ToggleFullscreen);
    assert_eq!(
        event_action(InputEvent::MouseButtonDown { left: true, clicks: 2 }, false),
        EventAction::ToggleFullscreen
    );
    assert_eq!(event_action(InputEvent::MouseButtonDown { left: true, clicks: 1 }, false), EventAction::Nothing);
    assert_eq!(event_action(InputEvent::MouseButtonDown { left: false, clicks: 2 }, false), EventAction::Nothing);
    assert_eq!(event_action(InputEvent::KeyDown(Key::Z), false), EventAction::ToggleFill);
    assert_eq!(event_action(InputEvent::MouseMotion, true), EventAction::Nothing);
}

#[test]
fn cursor_follows_mouse_activity() {
    assert_eq!(cursor_action(&[InputEvent::MouseMotion], false, 0), CursorAction::Show);
    assert_eq!(cursor_action(&[InputEvent::FocusGained], true, 10_000), CursorAction::Keep);
    assert_eq!(cursor_action(&[], true, CURSOR_IDLE_HIDE_MS), CursorAction::Hide);
    assert_eq!(cursor_action(&[InputEvent::KeyDown(Key::F)], true, CURSOR_IDLE_HIDE_MS - 1), CursorAction::Keep);
    assert_eq!(cursor_action(&[], false, 100_000), CursorAction::Keep);
}

#[test]
fn catchup_jumps_to_last_keyframe_only_with_backlog() {
    let short = [false, true, false];
    assert_eq!(catchup_start(&short), 0);
    let mut long = vec![false; CATCHUP_BATCH + 2];
    long[3] = true;
    long[6] = true;
    assert_eq!(catchup_start(&long), 6);
    let none = vec![false; CATCHUP_BATCH + 1];
    assert_eq!(catchup_start(&none), 0);
}

#[test]
fn decoder_pts_saturates() {
    assert_eq!(pts_for_decoder(1234), 1234);
    assert_eq!(pts_for_decoder(u64::MAX), i64::MAX);
    assert_eq!(pts_for_decoder(i64::MAX as u64), i64::MAX);
}

#[test]
fn capture_stats_skip_config_frames() {
    let mut stats = CaptureStats::new();
    let config = FrameHeader { pts: 0, keyframe: false, config: true, len: 10 };
    let frame = FrameHeader { pts: 5, keyframe: true, config: false, len: 20 };
    stats.record(&config, 10);
    stats.record(&frame, 20);
    assert_eq!(stats, CaptureStats { frames: 1, bytes: 30 });
}

#[test]
fn decoder_takes_hardware_format_when_offered() {
    assert_eq!(choose_format(&[0, 23, 51], 51), Some(2));
    assert_eq!(choose_format(&[0, 23], 51), Some(0));
    assert_eq!(choose_format(&[], 51), None);
    assert_eq!(choose_format(&[7, 51, 51], 51), Some(1));
    assert_eq!(choose_format(&[7, 8], -1), Some(0));
}

#[test]
fn computability_checks_guard_overflow() {
    assert!(fit_computable(1440, 3120, 1920, 1080));
    assert!(fill_computable(2400, 1108, 2560, 1440));
    assert!(fit_computable(0, 5, u32::MAX, u32::MAX));
    assert!(fit_computable(1, 1, u32::MAX, 1));
    assert!(!fit_computable(1, 2, 2_147_483_648, 2_147_483_648));
    assert!(!fill_computable(1, 1, 2_147_483_648, 1));
    assert!(window_size_computable(1440, 3120, 1536, 864));
    assert!(window_size_computable(1, 1, u32::MAX, 3));
    assert!(!window_size_computable(1, 2, 2_386_092_943, 2_386_092_943));
    assert!(origin_computable(0, 0, 2560, 1440, 1000, 800));
    assert!(!origin_computable(i32::MAX, 0, 3000, 10, 10, 10));
}

#[test]
fn clock_refuses_only_overflowing_distances() {
    let mut clock = PresentationClock::new();
    assert!(clock.can_schedule(i64::MIN));
    let base = Instant::now();
    clock.schedule(-10, base);
    assert!(clock.can_schedule(i64::MIN + 10));
    assert!(!clock.can_schedule(i64::MAX));
    assert_eq!(clock.schedule(990, base), Some((base, 1000)));
}
