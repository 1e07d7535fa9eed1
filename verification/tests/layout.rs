use pe_calculator::layout::{button_grid, compute_button_rects, hit_test, ButtonId, Rect};
use pe_calculator::renderer::{button_fill, display_rect, font_height, formula_rect, mul_div, Fill};

fn r(left: i32, top: i32, right: i32, bottom: i32) -> Rect {
    Rect { left, top, right, bottom }
}

#[test]
fn grid_has_nineteen_cells() {
    let g = button_grid();
    assert_eq!(g.len(), 19);
    assert_eq!(g[0].id, ButtonId::Clear);
    assert_eq!(g[0].label, "C");
    assert_eq!(g[2].label, "\u{232B}");
    assert_eq!(g[16].id, ButtonId::Digit(0));
    assert_eq!(g[16].col_span, 2);
    assert_eq!(g[18].label, "=");
}

#[test]
fn rects_for_the_default_window() {
    let b = compute_button_rects(324, 501);
    assert_eq!(b.len(), 19);
    assert_eq!(b[0].rect, r(10, 96, 81, 170));
    assert_eq!(b[3].rect, r(241, 96, 312, 170));
    assert_eq!(b[16].id, ButtonId::Digit(0));
    assert_eq!(b[16].rect, r(10, 416, 158, 490));
    assert_eq!(b[18].rect, r(241, 416, 312, 490));
}

#[test]
fn rects_for_an_empty_client_area() {
    let b = compute_button_rects(0, 0);
    assert_eq!(b[0].rect, r(10, 96, 1, 70));
    assert_eq!(hit_test(&b, 5, 80), None);
}

#[test]
fn hit_test_finds_the_button() {
    let b = compute_button_rects(324, 501);
    assert_eq!(hit_test(&b, 250, 450), Some(18));
    assert_eq!(hit_test(&b, 10, 96), Some(0));
    assert_eq!(hit_test(&b, 81, 100), None);
    assert_eq!(hit_test(&b, 100, 50), None);
    assert_eq!(hit_test(&b, 157, 489), Some(16));
}

#[test]
fn mul_div_rounds_toward_zero() {
    assert_eq!(mul_div(36, 96, 72), 48);
    assert_eq!(mul_div(-7, 1, 2), -3);
    assert_eq!(mul_div(7, 1, -2), -3);
    assert_eq!(mul_div(i32::MAX, i32::MAX, 1), 1);
}

#[test]
fn font_heights() {
    assert_eq!(font_height(36, 96), -48);
    assert_eq!(font_height(14, 120), -23);
}

#[test]
fn display_areas() {
    assert_eq!(formula_rect(324, ""), None);
    assert_eq!(formula_rect(324, "2 +"), Some(r(12, 8, 312, 48)));
    assert_eq!(display_rect(324), r(12, 48, 312, 96));
}

#[test]
fn button_fills() {
    let b = compute_button_rects(324, 501);
    assert_eq!(button_fill(&b[18], 18, None, None), Fill::Equals);
    assert_eq!(button_fill(&b[18], 18, Some(18), None), Fill::EqualsHover);
    assert_eq!(button_fill(&b[18], 18, Some(18), Some(18)), Fill::EqualsPress);
    assert_eq!(button_fill(&b[0], 0, Some(0), None), Fill::ButtonHover);
    assert_eq!(button_fill(&b[0], 0, Some(1), Some(0)), Fill::ButtonPress);
    assert_eq!(button_fill(&b[0], 0, Some(1), Some(2)), Fill::Button);
}

#[test]
fn buttons_never_overlap_and_stay_inside() {
    for (w, h) in [(324, 501), (38, 130), (500, 900), (1000, 200)] {
        let b = compute_button_rects(w, h);
        for i in 0..b.len() {
            let a = b[i].rect;
            assert!(a.left >= 10 && a.right <= w - 10, "{} {}", w, i);
            assert!(a.top >= 96 && a.bottom <= h - 10, "{} {}", h, i);
            for j in 0..b.len() {
                if i != j {
                    let c = b[j].rect;
                    let apart = a.right <= c.left || c.right <= a.left || a.bottom <= c.top || c.bottom <= a.top
                        || a.right <= a.left || a.bottom <= a.top;
                    assert!(apart, "{} {} {} {}", w, h, i, j);
                }
            }
        }
    }
}

#[test]
fn every_point_hits_at_most_one_button() {
    let b = compute_button_rects(324, 501);
    for x in (0..324).step_by(3) {
        for y in (90..501).step_by(3) {
            let holders = b.iter().filter(|btn| {
                x >= btn.rect.left && x < btn.rect.right && y >= btn.rect.top && y < btn.rect.bottom
            }).count();
            assert!(holders <= 1);
            assert_eq!(hit_test(&b, x, y).is_some(), holders == 1);
        }
    }
}
