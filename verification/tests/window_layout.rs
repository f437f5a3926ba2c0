use moyu::window_layout::{
    default_window_state, default_window_states, missing_window_states, native_resize_proc_map, nc_hit_test, parse_color, point_from_lparam,
    restored_window_min_size, window_background, Color, HitZone, ResizeZone, WindowDefaults, WindowRect,
};

#[test]
fn colours_parse_from_hex() {
    assert_eq!(parse_color("#ffffff"), Some(Color(0xff, 0xff, 0xff, 0xff)));
    assert_eq!(parse_color("#f2f4f8"), Some(Color(0xf2, 0xf4, 0xf8, 0xff)));
    assert_eq!(parse_color("F6F8FB"), Some(Color(0xf6, 0xf8, 0xfb, 0xff)));
    assert_eq!(parse_color("###010203"), Some(Color(1, 2, 3, 0xff)));
    assert_eq!(parse_color("+fffff"), Some(Color(0x0f, 0xff, 0xff, 0xff)));
    assert_eq!(parse_color("#fff"), None);
    assert_eq!(parse_color("#gggggg"), None);
    assert_eq!(parse_color("#1234567"), None);
    assert_eq!(parse_color("+"), None);
    assert_eq!(parse_color("-12345"), None);
    assert_eq!(parse_color("é1234"), None);
    assert_eq!(parse_color(""), None);
}

#[test]
fn window_backgrounds() {
    let fallback = Color(1, 2, 3, 4);
    assert_eq!(window_background(true, "#ffffff", fallback), Color(1, 0, 0, 0));
    assert_eq!(window_background(false, "#f2f4f8", fallback), Color(0xf2, 0xf4, 0xf8, 0xff));
    assert_eq!(window_background(false, "bad", fallback), fallback);
}

#[test]
fn default_window_sizes() {
    assert_eq!(default_window_state("launcher"), WindowDefaults { width: 820, height: 620, has_unit_zoom: false });
    assert_eq!(
        default_window_state("transparentContent"),
        WindowDefaults { width: 1320, height: 860, has_unit_zoom: true }
    );
    assert_eq!(default_window_state("mentalMath").height, 620);
    assert_eq!(default_window_state("pdfReader").height, 680);
    assert_eq!(default_window_state("vocabulary").width, 1100);
    assert_eq!(default_window_state("unknown"), WindowDefaults { width: 900, height: 700, has_unit_zoom: false });
    assert_eq!(restored_window_min_size("launcher"), (420, 380));
    assert_eq!(restored_window_min_size("transparentContent"), (120, 120));
    assert_eq!(restored_window_min_size("pdfReader"), (400, 300));
    assert_eq!(restored_window_min_size("vocabulary"), (320, 240));
}

#[test]
fn lparam_points_are_signed_words() {
    assert_eq!(point_from_lparam(0x0001_0002), (2, 1));
    assert_eq!(point_from_lparam(0), (0, 0));
    assert_eq!(point_from_lparam(0xffff_0005), (5, -1));
    assert_eq!(point_from_lparam(0x8000_7fff), (32767, -32768));
    assert_eq!(point_from_lparam(-1), (-1, -1));
    assert_eq!(point_from_lparam(-65536 * 3 + 7), (7, -3));
}

#[test]
fn resize_border_widths() {
    let mut zone = ResizeZone::new();
    assert!(zone.expanded);
    assert_eq!(zone.resize_border_metrics(4, 4, 0), (12, 12));
    assert_eq!(zone.resize_border_metrics(8, 10, 6), (14, 16));
    zone.sync_resize_zone_setting(false);
    assert_eq!(zone.resize_border_metrics(4, 4, 0), (6, 6));
    assert_eq!(zone.resize_border_metrics(4, 5, 4), (8, 9));
}

#[test]
fn hit_test_zones() {
    let rect = WindowRect { left: 100, top: 100, right: 500, bottom: 400 };
    assert_eq!(nc_hit_test(rect, 105, 105, 10, 10), Some(HitZone::TopLeft));
    assert_eq!(nc_hit_test(rect, 495, 105, 10, 10), Some(HitZone::TopRight));
    assert_eq!(nc_hit_test(rect, 105, 395, 10, 10), Some(HitZone::BottomLeft));
    assert_eq!(nc_hit_test(rect, 495, 395, 10, 10), Some(HitZone::BottomRight));
    assert_eq!(nc_hit_test(rect, 300, 105, 10, 10), Some(HitZone::Top));
    assert_eq!(nc_hit_test(rect, 300, 390, 10, 10), Some(HitZone::Bottom));
    assert_eq!(nc_hit_test(rect, 109, 300, 10, 10), Some(HitZone::Left));
    assert_eq!(nc_hit_test(rect, 490, 300, 10, 10), Some(HitZone::Right));
    assert_eq!(nc_hit_test(rect, 110, 300, 10, 10), None);
    assert_eq!(nc_hit_test(rect, 300, 250, 10, 10), None);
}

#[test]
fn replaced_procedures_are_recorded_once() {
    let mut map = native_resize_proc_map();
    assert!(map.needs_hook(7));
    map.record_hook(7, 0, 5);
    assert!(map.needs_hook(7));
    map.record_hook(7, 1234, 0);
    assert!(!map.needs_hook(7));
    assert_eq!(map.original_proc(7), 1234);
    map.record_hook(7, 999, 1);
    assert_eq!(map.original_proc(7), 1234);
    assert_eq!(map.original_proc(8), 0);
}

#[test]
fn fresh_installation_has_a_state_for_every_window() {
    let states = default_window_states();
    let keys: Vec<&str> = states.iter().map(|(k, _)| k.as_str()).collect();
    assert_eq!(keys, vec!["launcher", "transparentContent", "mentalMath", "pdfReader", "vocabulary"]);
    for (key, defaults) in &states {
        assert_eq!(*defaults, default_window_state(key));
    }
    assert_eq!(states[1].1, WindowDefaults { width: 1320, height: 860, has_unit_zoom: true });
}

#[test]
fn loading_fills_in_only_the_missing_window_states() {
    let stored = vec!["mentalMath".to_string(), "other".to_string(), "launcher".to_string()];
    let missing = missing_window_states(&stored);
    let keys: Vec<&str> = missing.iter().map(|(k, _)| k.as_str()).collect();
    assert_eq!(keys, vec!["transparentContent", "pdfReader", "vocabulary"]);
    assert_eq!(missing[1].1, default_window_state("pdfReader"));
    assert!(missing_window_states(&vec![
        "launcher".to_string(),
        "transparentContent".to_string(),
        "mentalMath".to_string(),
        "pdfReader".to_string(),
        "vocabulary".to_string(),
    ])
    .is_empty());
    assert_eq!(missing_window_states(&Vec::new()).len(), 5);
}
