use saftbar::analyse::{analyse_string, ColoredText, InputAnalysis, SingleDisplay};
use saftbar::bar::Monitor;
use saftbar::cache::{pack_color, ColorCache};
use saftbar::setup::{CopyArea, FillPoly, FillRect, MapWindow, Rectangle, CLEAR_PIXEL};
use saftbar::wire::{
    window_geometry, wire_extent, wire_position, wire_rectangle, WireRectangle,
};
use saftbar::xft::{advance_width, render_color, truncate_color, Font, RGBA};

#[test]
fn pixel_value_has_alpha_in_the_high_byte() {
    assert_eq!(pack_color((1, 2, 3, 4)), 0x0401_0203);
    assert_eq!(pack_color((255, 0, 0, 255)), 0xFFFF_0000);
    assert_eq!(pack_color((0, 255, 0, 0)), 0x0000_FF00);
    assert_eq!(pack_color((0, 0, 255, 0)), 0x0000_00FF);
    assert_eq!(pack_color((0, 0, 0, 0)), 0);
    assert_eq!(pack_color((255, 255, 255, 255)), u32::MAX);
    assert_eq!(pack_color((0, 0, 0, 255)), CLEAR_PIXEL);
}

#[test]
fn cache_keeps_the_first_context_of_a_color() {
    let mut cache = ColorCache::new();
    let red: RGBA = (255, 0, 0, 255);
    let almost_red: RGBA = (255, 0, 0, 254);
    assert!(!cache.contains(red));
    assert_eq!(cache.find_color(red), None);
    assert!(cache.cache_color(red, 17));
    assert!(cache.contains(red));
    assert!(!cache.contains(almost_red));
    assert_eq!(cache.find_color(red), Some(17));
    assert_eq!(cache.get_color(red), 17);
    assert!(!cache.cache_color(red, 18));
    assert_eq!(cache.get_color(red), 17);
    assert!(cache.cache_color(almost_red, 19));
    assert_eq!(cache.get_color(red), 17);
    assert_eq!(cache.get_color(almost_red), 19);
}

#[test]
fn cache_tells_colors_apart_by_every_channel() {
    let mut cache = ColorCache::new();
    let colors: [RGBA; 5] = [(0, 0, 0, 0), (1, 0, 0, 0), (0, 1, 0, 0), (0, 0, 1, 0), (0, 0, 0, 1)];
    for (i, color) in colors.iter().enumerate() {
        assert!(cache.cache_color(*color, i as u32));
    }
    for (i, color) in colors.iter().enumerate() {
        assert_eq!(cache.find_color(*color), Some(i as u32));
    }
}

#[test]
fn render_color_widens_each_channel() {
    assert_eq!(render_color((255, 0, 1, 128)), (65280, 0, 256, 32768));
    assert_eq!(render_color((0, 0, 0, 0)), (0, 0, 0, 0));
}

#[test]
fn truncate_color_keeps_the_high_byte() {
    assert_eq!(truncate_color((65535, 0, 256, 255)), (255, 0, 1, 0));
    assert_eq!(truncate_color((65280, 511, 512, 32768)), (255, 1, 2, 128));
    let color: RGBA = (12, 0, 255, 7);
    assert_eq!(truncate_color(render_color(color)), color);
}

#[test]
fn font_height_and_baseline() {
    let font = Font::new(12, 4).unwrap();
    assert_eq!(font.asc_and_desc(), 16);
    assert_eq!(font.baseline_offset(16), 12);
    assert_eq!(font.baseline_offset(20), 14);
    assert_eq!(font.baseline_offset(21), 14);
    let tall = Font::new(i32::MAX, i32::MAX).unwrap();
    assert_eq!(tall.asc_and_desc(), u32::MAX - 1);
    assert_eq!(tall.baseline_offset(u32::MAX), i32::MAX as u32);
}

#[test]
fn font_with_a_negative_metric_is_refused() {
    assert_eq!(Font::new(-1, 4), None);
    assert_eq!(Font::new(12, -1), None);
    assert!(Font::new(0, 0).is_some());
}

#[test]
fn advance_width_is_not_negative() {
    assert_eq!(advance_width(0), Some(0));
    assert_eq!(advance_width(i16::MAX), Some(32767));
    assert_eq!(advance_width(-1), None);
}

#[test]
fn wire_numbers_are_not_truncated() {
    assert_eq!(wire_position(0), Some(0));
    assert_eq!(wire_position(32767), Some(32767));
    assert_eq!(wire_position(32768), None);
    assert_eq!(wire_position(u32::MAX), None);
    assert_eq!(wire_extent(65535), Some(65535));
    assert_eq!(wire_extent(65536), None);
    assert_eq!(
        wire_rectangle(1, 2, 3, 4),
        Some(WireRectangle { x: 1, y: 2, width: 3, height: 4 })
    );
    assert_eq!(wire_rectangle(32768, 2, 3, 4), None);
    assert_eq!(wire_rectangle(1, 32768, 3, 4), None);
    assert_eq!(wire_rectangle(1, 2, 65536, 4), None);
    assert_eq!(wire_rectangle(1, 2, 3, 65536), None);
}

#[test]
fn requests_on_the_wire() {
    let rect = FillRect { drawable: 1, gc: 2, x: 970, y: 0, w: 20, h: 20 };
    assert_eq!(rect.wire(), Some(WireRectangle { x: 970, y: 0, width: 20, height: 20 }));
    let rect = FillRect { drawable: 1, gc: 2, x: 40000, y: 0, w: 20, h: 20 };
    assert_eq!(rect.wire(), None);
    let area = CopyArea { pixmap: 1, window: 2, gc: 3, w: 1920, h: 20 };
    assert_eq!(area.wire_size(), Some((1920, 20)));
    let area = CopyArea { pixmap: 1, window: 2, gc: 3, w: 65536, h: 20 };
    assert_eq!(area.wire_size(), None);
    let poly = FillPoly { drawable: 1, gc: 2, points: vec![(20, 20), (30, 9), (32767, 0)] };
    assert_eq!(poly.wire_points(), Some(vec![(20, 20), (30, 9), (32767, 0)]));
    let poly = FillPoly { drawable: 1, gc: 2, points: vec![(20, 20), (30, 32768)] };
    assert_eq!(poly.wire_points(), None);
    let poly = FillPoly { drawable: 1, gc: 2, points: vec![] };
    assert_eq!(poly.wire_points(), Some(vec![]));
    assert_eq!(MapWindow { window: 5 }, MapWindow { window: 5 });
}

#[test]
fn window_of_a_bar_spans_the_region() {
    let region = Rectangle { x: 1920, y: 0, w: 1280, h: 1024 };
    assert_eq!(
        window_geometry(&region, 20),
        Some(WireRectangle { x: 1920, y: 0, width: 1280, height: 20 })
    );
    let far = Rectangle { x: 40000, y: 0, w: 1280, h: 1024 };
    assert_eq!(window_geometry(&far, 20), None);
}

#[test]
fn monitor_and_its_strut() {
    let region = Rectangle { x: 1920, y: 0, w: 1280, h: 1024 };
    let monitor = Monitor::new(&region, 8, 7);
    assert_eq!(monitor, Monitor { x: 1920, w: 1280, pixmap: 7, window: 8 });
    assert_eq!(monitor.strut_partial(20), Some([0, 0, 20, 0, 0, 0, 0, 0, 1920, 3200, 0, 0]));
    let edge = Monitor { x: u32::MAX - 1, w: 1, pixmap: 7, window: 8 };
    assert_eq!(
        edge.strut_partial(3),
        Some([0, 0, 3, 0, 0, 0, 0, 0, u32::MAX - 1, u32::MAX, 0, 0])
    );
    let beyond = Monitor { x: u32::MAX, w: 1, pixmap: 7, window: 8 };
    assert_eq!(beyond.strut_partial(3), None);
}

fn run(text: &str, fg: RGBA, bg: RGBA) -> ColoredText {
    ColoredText { text: text.to_owned(), fg, bg }
}

#[test]
fn analysis_is_the_sample_content() {
    let red = (255, 0, 0, 255);
    let blue = (0, 0, 255, 255);
    let black = (0, 0, 0, 255);
    let white = (255, 255, 255, 255);
    let green = (0, 255, 0, 255);
    let expected = InputAnalysis(vec![
        Some(SingleDisplay {
            left: vec![run("leftfirst1", red, white), run("leftlast1", black, blue)],
            right: vec![run("rightfirst1", green, red), run("rightlast1", white, black)],
        }),
        Some(SingleDisplay {
            left: vec![run("leftfirst2", blue, green), run("leftlast2", red, black)],
            right: vec![run("rightfirst2", white, red), run("rightlast2", green, white)],
        }),
    ]);
    assert_eq!(analyse_string(), expected);
}
