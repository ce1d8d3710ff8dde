use saftbar::bar::{PowerlineDirection, PowerlineFill, PowerlineStyle};
use saftbar::shape::{shape_octagon, shape_polys, shape_powerline, shape_width_px};

const STYLES: [PowerlineStyle; 2] = [PowerlineStyle::Powerline, PowerlineStyle::Octagon];
const FILLS: [PowerlineFill; 2] = [PowerlineFill::Full, PowerlineFill::No];
const DIRECTIONS: [PowerlineDirection; 2] = [PowerlineDirection::Left, PowerlineDirection::Right];

#[test]
fn polygon_counts_for_heights_up_to_200() {
    for h in 1..=200u32 {
        for direction in DIRECTIONS {
            let full = shape_polys(h, 0, PowerlineStyle::Powerline, direction, PowerlineFill::Full);
            assert_eq!(full.len(), 1);
            assert_eq!(full[0].len(), 5);
            let outline = shape_polys(h, 0, PowerlineStyle::Powerline, direction, PowerlineFill::No);
            assert_eq!(outline.len(), 2);
            let full = shape_polys(h, 0, PowerlineStyle::Octagon, direction, PowerlineFill::Full);
            assert_eq!(full.len(), 1);
            let outline = shape_polys(h, 0, PowerlineStyle::Octagon, direction, PowerlineFill::No);
            assert_eq!(outline.len(), 3);
        }
    }
}

#[test]
fn shapes_are_translation_equivariant() {
    for h in [1u32, 2, 3, 7, 20, 21, 200] {
        for k in [1u32, 20, 999] {
            for style in STYLES {
                for fill in FILLS {
                    for direction in DIRECTIONS {
                        let base = shape_polys(h, 3, style, direction, fill);
                        let moved = shape_polys(h, 3 + k, style, direction, fill);
                        let translated: Vec<Vec<(u32, u32)>> = base
                            .iter()
                            .map(|poly| poly.iter().map(|p| (p.0 + k, p.1)).collect())
                            .collect();
                        assert_eq!(moved, translated);
                    }
                }
            }
        }
    }
}

#[test]
fn shapes_stay_within_their_cell() {
    for h in 1..=64u32 {
        for style in STYLES {
            let width = shape_width_px(style, h);
            for fill in FILLS {
                for direction in DIRECTIONS {
                    for poly in shape_polys(h, 100, style, direction, fill) {
                        for (x, y) in poly {
                            assert!(100 <= x && x <= 100 + width);
                            assert!(y <= h);
                        }
                    }
                }
            }
        }
    }
}

#[test]
fn shape_width_follows_the_style() {
    assert_eq!(shape_width_px(PowerlineStyle::Powerline, 20), 10);
    assert_eq!(shape_width_px(PowerlineStyle::Powerline, 21), 11);
    assert_eq!(shape_width_px(PowerlineStyle::Powerline, 1), 1);
    assert_eq!(shape_width_px(PowerlineStyle::Powerline, u32::MAX), 0x8000_0000);
    assert_eq!(shape_width_px(PowerlineStyle::Octagon, 20), 6);
    assert_eq!(shape_width_px(PowerlineStyle::Octagon, 23), 6);
    assert_eq!(shape_width_px(PowerlineStyle::Octagon, 24), 7);
    assert_eq!(shape_width_px(PowerlineStyle::Octagon, 1), 1);
}

#[test]
fn powerline_full_even_height() {
    assert_eq!(
        shape_powerline(20, 0, PowerlineDirection::Left, PowerlineFill::Full),
        vec![vec![(0, 10), (0, 9), (10, 20), (10, 0), (9, 0)]]
    );
    assert_eq!(
        shape_powerline(20, 20, PowerlineDirection::Right, PowerlineFill::Full),
        vec![vec![(20, 20), (30, 9), (30, 10), (21, 0), (20, 0)]]
    );
}

#[test]
fn powerline_full_odd_height_gives_the_upper_half_the_extra_unit() {
    assert_eq!(
        shape_powerline(21, 5, PowerlineDirection::Right, PowerlineFill::Full),
        vec![vec![(5, 21), (16, 10), (16, 10), (6, 0), (5, 0)]]
    );
    assert_eq!(
        shape_powerline(21, 5, PowerlineDirection::Left, PowerlineFill::Full),
        vec![vec![(5, 10), (5, 10), (16, 21), (16, 0), (15, 0)]]
    );
}

#[test]
fn powerline_outline() {
    assert_eq!(
        shape_powerline(20, 0, PowerlineDirection::Left, PowerlineFill::No),
        vec![
            vec![(0, 10), (0, 11), (10, 0), (9, 0)],
            vec![(0, 9), (10, 20), (10, 19), (1, 9)],
        ]
    );
    assert_eq!(
        shape_powerline(20, 0, PowerlineDirection::Right, PowerlineFill::No),
        vec![
            vec![(0, 0), (10, 11), (10, 10), (1, 0)],
            vec![(0, 20), (10, 9), (9, 9), (0, 19)],
        ]
    );
}

#[test]
fn powerline_of_height_one() {
    assert_eq!(
        shape_powerline(1, 0, PowerlineDirection::Right, PowerlineFill::Full),
        vec![vec![(0, 1), (1, 0), (1, 0), (1, 0), (0, 0)]]
    );
    assert_eq!(
        shape_powerline(1, 0, PowerlineDirection::Left, PowerlineFill::No),
        vec![vec![(0, 0), (0, 1), (1, 0), (0, 0)], vec![(0, 0), (1, 1), (1, 0), (1, 0)]]
    );
}

#[test]
fn octagon_full() {
    assert_eq!(
        shape_octagon(20, 0, PowerlineDirection::Right, PowerlineFill::Full),
        vec![vec![(0, 20), (6, 14), (6, 5), (1, 0), (0, 0)]]
    );
    assert_eq!(
        shape_octagon(20, 0, PowerlineDirection::Left, PowerlineFill::Full),
        vec![vec![(0, 5), (0, 14), (6, 20), (6, 0), (5, 0)]]
    );
}

#[test]
fn octagon_outline() {
    assert_eq!(
        shape_octagon(20, 0, PowerlineDirection::Right, PowerlineFill::No),
        vec![
            vec![(0, 0), (6, 6), (6, 5), (1, 0)],
            vec![(5, 5), (5, 15), (6, 15), (6, 5)],
            vec![(0, 20), (6, 14), (5, 14), (0, 19)],
        ]
    );
    assert_eq!(
        shape_octagon(20, 0, PowerlineDirection::Left, PowerlineFill::No),
        vec![
            vec![(0, 5), (0, 6), (6, 0), (5, 0)],
            vec![(0, 5), (0, 15), (1, 15), (1, 5)],
            vec![(0, 14), (6, 20), (6, 19), (1, 14)],
        ]
    );
}

#[test]
fn octagon_of_odd_height() {
    // 23 / 4 == 5
    assert_eq!(
        shape_octagon(23, 10, PowerlineDirection::Right, PowerlineFill::Full),
        vec![vec![(10, 23), (16, 17), (16, 5), (11, 0), (10, 0)]]
    );
}

#[test]
fn shape_polys_dispatches_on_the_style() {
    for fill in FILLS {
        for direction in DIRECTIONS {
            assert_eq!(
                shape_polys(20, 7, PowerlineStyle::Powerline, direction, fill),
                shape_powerline(20, 7, direction, fill)
            );
            assert_eq!(
                shape_polys(20, 7, PowerlineStyle::Octagon, direction, fill),
                shape_octagon(20, 7, direction, fill)
            );
        }
    }
}

#[test]
fn shape_at_the_right_limit() {
    let xl = u32::MAX - 10;
    assert_eq!(
        shape_powerline(20, xl, PowerlineDirection::Right, PowerlineFill::Full),
        vec![vec![(xl, 20), (u32::MAX, 9), (u32::MAX, 10), (xl + 1, 0), (xl, 0)]]
    );
}
