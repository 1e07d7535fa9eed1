//! The drawing decisions of the calculator window: where the display texts
//! go, how each button is filled, and how tall the fonts are.
use vstd::prelude::*;
use crate::layout::{div_toward_zero, Button, ButtonId, Rect, DISPLAY_HEIGHT};

verus! {

/// `v` wrapped into `i32`, as a conversion with `as i32` wraps it.
pub open spec fn wrap_i32(v: int) -> int {
    (v as i32) as int
}

/// A quotient is no larger in magnitude than a nonnegative dividend.
proof fn lemma_quotient_bounded(p: int, c: int)
    by (nonlinear_arith)
    requires
        c != 0,
        p >= 0,
    ensures
        -p <= p / c <= p,
{
}

/// `a * b / c` computed in 64 bits, with the quotient rounded toward zero and
/// wrapped into `i32`.
pub fn mul_div(a: i32, b: i32, c: i32) -> (r: i32)
    requires
        c != 0,
    ensures
        r as int == wrap_i32(div_toward_zero(a as int * b as int, c as int)),
{
    assert(-4611686018427387904 <= a as int * b as int <= 4611686018427387904) by (nonlinear_arith)
        requires
            i32::MIN <= a <= i32::MAX,
            i32::MIN <= b <= i32::MAX,
    ;
    let p = a as i64 * b as i64;
    proof {
        if p >= 0 {
            lemma_quotient_bounded(p as int, c as int);
        } else {
            lemma_quotient_bounded(-p, c as int);
        }
    }
    let q = p / c as i64;
    #[verifier::truncate]
    (q as i32)
}

/// Points per inch, the unit of font sizes.
pub const POINTS_PER_INCH: i32 = 72;

/// The font height, in the negative form that selects by character height,
/// for `pt` points at `dpi` pixels per inch.
pub open spec fn font_height_spec(pt: int, dpi: int) -> int {
    -wrap_i32(div_toward_zero(pt * dpi, POINTS_PER_INCH as int))
}

/// The height to ask of the font for `pt` points at `dpi` pixels per inch.
pub fn font_height(pt: i32, dpi: i32) -> (h: i32)
    requires
        wrap_i32(div_toward_zero(pt * dpi, POINTS_PER_INCH as int)) != i32::MIN,
    ensures
        h as int == font_height_spec(pt as int, dpi as int),
{
    -mul_div(pt, dpi, POINTS_PER_INCH)
}

/// Margin of the display texts from the sides and the top of the window.
pub const TEXT_MARGIN: i32 = 12;
/// Margin of the formula bar from the top of the window.
pub const FORMULA_TOP: i32 = 8;

/// The band of the formula bar in a window `width` wide: the upper half of
/// the display area, inside the margins.
pub open spec fn formula_band(width: int) -> Rect {
    Rect {
        left: TEXT_MARGIN,
        top: FORMULA_TOP,
        right: (width - TEXT_MARGIN) as i32,
        bottom: (DISPLAY_HEIGHT / 2) as i32,
    }
}

/// The band of the main display in a window `width` wide: the lower half of
/// the display area, inside the side margins.
pub open spec fn display_band(width: int) -> Rect {
    Rect {
        left: TEXT_MARGIN,
        top: (DISPLAY_HEIGHT / 2) as i32,
        right: (width - TEXT_MARGIN) as i32,
        bottom: DISPLAY_HEIGHT,
    }
}

/// Where the formula bar is drawn: nowhere while the expression is empty.
pub fn formula_rect(width: i32, expression: &str) -> (r: Option<Rect>)
    requires
        width >= i32::MIN + TEXT_MARGIN,
    ensures
        r == (if expression@.len() == 0 { None } else { Some(formula_band(width as int)) }),
{
    if expression.is_empty() {
        None
    } else {
        Some(Rect { left: TEXT_MARGIN, top: FORMULA_TOP, right: width - TEXT_MARGIN, bottom: DISPLAY_HEIGHT / 2 })
    }
}

/// Where the main display is drawn.
pub fn display_rect(width: i32) -> (r: Rect)
    requires
        width >= i32::MIN + TEXT_MARGIN,
    ensures
        r == display_band(width as int),
{
    Rect { left: TEXT_MARGIN, top: DISPLAY_HEIGHT / 2, right: width - TEXT_MARGIN, bottom: DISPLAY_HEIGHT }
}

/// The fill of a button face.
#[derive(Debug, Clone, Copy, PartialEq, Eq, Structural)]
pub enum Fill {
    Button,
    ButtonHover,
    ButtonPress,
    Equals,
    EqualsHover,
    EqualsPress,
}

/// The fill of a button: the equals key has its own colours; pressing
/// shows over hovering, and hovering over rest.
pub open spec fn fill_of(id: ButtonId, hovered: bool, pressed: bool) -> Fill {
    if id == ButtonId::Equals {
        if pressed { Fill::EqualsPress } else if hovered { Fill::EqualsHover } else { Fill::Equals }
    } else if pressed {
        Fill::ButtonPress
    } else if hovered {
        Fill::ButtonHover
    } else {
        Fill::Button
    }
}

/// The fill of button `index` of the grid, given which button is hovered
/// and which one pressed.
pub fn button_fill(btn: &Button, index: usize, hovered: Option<usize>, pressed: Option<usize>) -> (f: Fill)
    ensures
        f == fill_of(btn.id, hovered == Some(index), pressed == Some(index)),
{
    let is_hovered = match hovered {
        Some(h) => h == index,
        None => false,
    };
    let is_pressed = match pressed {
        Some(p) => p == index,
        None => false,
    };
    let is_equals = match btn.id {
        ButtonId::Equals => true,
        _ => false,
    };
    if is_equals {
        if is_pressed { Fill::EqualsPress } else if is_hovered { Fill::EqualsHover } else { Fill::Equals }
    } else if is_pressed {
        Fill::ButtonPress
    } else if is_hovered {
        Fill::ButtonHover
    } else {
        Fill::Button
    }
}

} // verus!
