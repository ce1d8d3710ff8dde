use saftbar::resolver::{is_maximal_at, maximal_regions, resolve_regions, sort_regions};
use saftbar::setup::{compare_rectangles, output_is_active, Rectangle, CLEAR_PIXEL};
use std::cmp::Ordering;

fn rect(x: u32, y: u32, w: u32, h: u32) -> Rectangle {
    Rectangle { x, y, w, h }
}

#[test]
fn contained_rectangle_is_discarded() {
    let regions = vec![rect(0, 0, 100, 100), rect(0, 0, 200, 200), rect(300, 0, 50, 50)];
    assert_eq!(resolve_regions(&regions), vec![rect(0, 0, 200, 200), rect(300, 0, 50, 50)]);
}

#[test]
fn no_displays_give_no_regions() {
    assert_eq!(resolve_regions(&Vec::new()), Vec::<Rectangle>::new());
}

#[test]
fn single_display_is_kept() {
    let regions = vec![rect(0, 0, 1920, 1080)];
    assert_eq!(resolve_regions(&regions), regions);
}

#[test]
fn rectangle_is_inside_itself() {
    let r = rect(10, 20, 30, 40);
    assert!(r.is_inside(&r));
}

#[test]
fn is_inside_tests_all_four_edges() {
    let outer = rect(10, 10, 100, 100);
    assert!(rect(10, 10, 100, 100).is_inside(&outer));
    assert!(rect(20, 20, 10, 10).is_inside(&outer));
    assert!(!rect(9, 20, 10, 10).is_inside(&outer));
    assert!(!rect(20, 9, 10, 10).is_inside(&outer));
    assert!(!rect(20, 20, 91, 10).is_inside(&outer));
    assert!(!rect(20, 20, 10, 91).is_inside(&outer));
    assert!(!outer.is_inside(&rect(20, 20, 10, 10)));
}

#[test]
fn is_inside_does_not_wrap_at_the_limit() {
    let wide = rect(u32::MAX, 0, u32::MAX, 10);
    let small = rect(0, 0, 10, 10);
    assert!(!wide.is_inside(&small));
    assert!(!small.is_inside(&wide));
    assert_eq!(wide.right_edge(), 2 * (u32::MAX as u64));
    assert_eq!(rect(0, 7, 1, u32::MAX).bottom_edge(), 7 + u32::MAX as u64);
}

#[test]
fn mirrored_outputs_discard_each_other() {
    // two outputs that report the same area lie within one another
    let regions = vec![rect(0, 0, 1920, 1080), rect(0, 0, 1920, 1080), rect(1920, 0, 1280, 1024)];
    assert_eq!(resolve_regions(&regions), vec![rect(1920, 0, 1280, 1024)]);
}

#[test]
fn maximal_index_is_found() {
    let regions = vec![rect(0, 0, 100, 100), rect(0, 0, 200, 200), rect(300, 0, 50, 50)];
    assert!(!is_maximal_at(&regions, 0));
    assert!(is_maximal_at(&regions, 1));
    assert!(is_maximal_at(&regions, 2));
}

#[test]
fn maximal_regions_keep_input_order() {
    let regions = vec![rect(300, 0, 50, 50), rect(0, 0, 100, 100), rect(0, 0, 200, 200)];
    assert_eq!(maximal_regions(&regions), vec![rect(300, 0, 50, 50), rect(0, 0, 200, 200)]);
}

#[test]
fn regions_are_ordered_left_to_right() {
    let regions = vec![rect(3840, 0, 1920, 1080), rect(0, 0, 1920, 1080), rect(1920, 0, 1920, 1080)];
    assert_eq!(
        resolve_regions(&regions),
        vec![rect(0, 0, 1920, 1080), rect(1920, 0, 1920, 1080), rect(3840, 0, 1920, 1080)]
    );
}

#[test]
fn stacked_regions_are_ordered_by_bottom_edge() {
    let regions = vec![rect(0, 1080, 1920, 1080), rect(0, 0, 1920, 1080)];
    assert_eq!(resolve_regions(&regions), vec![rect(0, 0, 1920, 1080), rect(0, 1080, 1920, 1080)]);
}

#[test]
fn tied_regions_keep_their_order() {
    // same x and same bottom edge, neither within the other
    let a = rect(0, 0, 10, 20);
    let b = rect(0, 10, 20, 10);
    assert_eq!(sort_regions(&vec![a, b]), vec![a, b]);
    assert_eq!(sort_regions(&vec![b, a]), vec![b, a]);
    assert_eq!(resolve_regions(&vec![a, b]), vec![a, b]);
    assert_eq!(resolve_regions(&vec![b, a]), vec![b, a]);
}

#[test]
fn sort_keeps_every_region() {
    let regions = vec![rect(5, 0, 1, 1), rect(1, 0, 1, 9), rect(5, 0, 1, 1), rect(1, 0, 1, 3)];
    assert_eq!(
        sort_regions(&regions),
        vec![rect(1, 0, 1, 3), rect(1, 0, 1, 9), rect(5, 0, 1, 1), rect(5, 0, 1, 1)]
    );
}

#[test]
fn resolved_regions_are_sorted_and_free_of_containment() {
    let regions = vec![
        rect(1920, 0, 1920, 1080),
        rect(0, 1080, 1920, 1080),
        rect(100, 100, 200, 200),
        rect(0, 0, 1920, 1080),
        rect(1920, 0, 1280, 1024),
        rect(3840, 0, 800, 600),
    ];
    let out = resolve_regions(&regions);
    assert_eq!(
        out,
        vec![
            rect(0, 0, 1920, 1080),
            rect(0, 1080, 1920, 1080),
            rect(1920, 0, 1920, 1080),
            rect(3840, 0, 800, 600),
        ]
    );
    for pair in out.windows(2) {
        let (a, b) = (pair[0], pair[1]);
        assert!(a.x < b.x || (a.x == b.x && a.y + a.h <= b.y + b.h));
    }
    for (i, a) in out.iter().enumerate() {
        for (j, b) in out.iter().enumerate() {
            assert!(i == j || !a.is_inside(b));
        }
    }
}

#[test]
fn compare_rectangles_orders_by_x_then_bottom_edge() {
    assert_eq!(compare_rectangles(&rect(0, 0, 10, 10), &rect(1, 0, 10, 10)), Ordering::Less);
    assert_eq!(compare_rectangles(&rect(2, 0, 10, 10), &rect(1, 50, 10, 10)), Ordering::Greater);
    assert_eq!(compare_rectangles(&rect(1, 0, 10, 10), &rect(1, 5, 10, 10)), Ordering::Less);
    assert_eq!(compare_rectangles(&rect(1, 5, 10, 10), &rect(1, 0, 10, 10)), Ordering::Greater);
    assert_eq!(compare_rectangles(&rect(1, 5, 10, 10), &rect(1, 0, 99, 15)), Ordering::Equal);
    assert_eq!(compare_rectangles(&rect(1, 5, 10, 10), &rect(1, 5, 10, 10)), Ordering::Equal);
}

#[test]
fn comes_before_agrees_with_compare_rectangles() {
    let all = [rect(0, 0, 10, 10), rect(0, 5, 10, 10), rect(0, 3, 7, 7), rect(4, 0, 1, 1)];
    for a in all.iter() {
        for b in all.iter() {
            assert_eq!(a.comes_before(b), compare_rectangles(a, b) != Ordering::Greater);
        }
    }
}

#[test]
fn region_of_a_display_controller() {
    assert_eq!(Rectangle::from_crtc(1920, 0, 1280, 1024), Some(rect(1920, 0, 1280, 1024)));
    assert_eq!(Rectangle::from_crtc(0, 0, 1, 1), Some(rect(0, 0, 1, 1)));
    assert_eq!(Rectangle::from_crtc(-1, 0, 1280, 1024), None);
    assert_eq!(Rectangle::from_crtc(0, -1, 1280, 1024), None);
    assert_eq!(Rectangle::from_crtc(0, 0, 0, 1024), None);
    assert_eq!(Rectangle::from_crtc(0, 0, 1280, 0), None);
}

#[test]
fn active_output_is_connected_and_has_a_controller() {
    assert!(output_is_active(63, true));
    assert!(!output_is_active(0, true));
    assert!(!output_is_active(63, false));
    assert!(!output_is_active(0, false));
}

#[test]
fn clear_pixel_is_opaque_black() {
    assert_eq!(CLEAR_PIXEL, 0xFF00_0000);
}
