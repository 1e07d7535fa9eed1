use pe_calculator::layout::{compute_button_rects, ButtonId};
use pe_calculator::window::{char_to_button_id, find_button, point_from_lparam, AppState};

#[test]
fn characters_map_to_buttons() {
    assert_eq!(char_to_button_id('0'), Some(ButtonId::Digit(0)));
    assert_eq!(char_to_button_id('9'), Some(ButtonId::Digit(9)));
    assert_eq!(char_to_button_id(','), Some(ButtonId::Decimal));
    assert_eq!(char_to_button_id('.'), Some(ButtonId::Decimal));
    assert_eq!(char_to_button_id('+'), Some(ButtonId::Add));
    assert_eq!(char_to_button_id('-'), Some(ButtonId::Sub));
    assert_eq!(char_to_button_id('*'), Some(ButtonId::Mul));
    assert_eq!(char_to_button_id('/'), Some(ButtonId::Div));
    assert_eq!(char_to_button_id('\r'), Some(ButtonId::Equals));
    assert_eq!(char_to_button_id('='), Some(ButtonId::Equals));
    assert_eq!(char_to_button_id('\x08'), Some(ButtonId::Backspace));
    assert_eq!(char_to_button_id('\x1B'), Some(ButtonId::Clear));
    assert_eq!(char_to_button_id('a'), None);
}

#[test]
fn buttons_are_found_by_id() {
    let b = compute_button_rects(324, 501);
    assert_eq!(find_button(&b, ButtonId::Clear), Some(0));
    assert_eq!(find_button(&b, ButtonId::Digit(7)), Some(4));
    assert_eq!(find_button(&b, ButtonId::Equals), Some(18));
    assert_eq!(find_button(&b, ButtonId::Digit(12)), None);
}

#[test]
fn mouse_coordinates_from_lparam() {
    assert_eq!(point_from_lparam(0x0005_0003), (3, 5));
    assert_eq!(point_from_lparam(0xFFFF), (-1, 0));
    assert_eq!(point_from_lparam(0xFFFE_0010), (16, -2));
}

#[test]
fn pointer_and_keys_drive_highlights() {
    let mut s = AppState::new(324, 501);
    assert_eq!(s.calc.display(), "0");
    let u = s.mouse_move(250, 450);
    assert!(u.redraw);
    assert!(u.start_tracking);
    assert_eq!(s.hovered, Some(18));
    let u = s.mouse_move(251, 451);
    assert!(!u.redraw);
    assert!(!u.start_tracking);
    assert_eq!(s.mouse_down(250, 450), Some(ButtonId::Equals));
    assert_eq!(s.pressed, Some(18));
    assert_eq!(s.mouse_down(100, 50), None);
    assert_eq!(s.pressed, Some(18));
    s.release();
    assert_eq!(s.pressed, None);
    s.mouse_leave();
    assert_eq!(s.hovered, None);
    assert!(!s.tracking_mouse);
    assert_eq!(s.key_char('7'), Some(ButtonId::Digit(7)));
    assert_eq!(s.pressed, Some(4));
    assert_eq!(s.key_char('q'), None);
    assert_eq!(s.pressed, Some(4));
    s.calc.digit(5);
    s.delete_key();
    assert_eq!(s.calc.display(), "0");
    assert_eq!(s.pressed, Some(0));
    s.resize(0, 0);
    assert_eq!(s.buttons.len(), 19);
}

#[test]
fn every_handled_key_has_a_button() {
    let b = compute_button_rects(324, 501);
    for code in 0u32..128 {
        let ch = char::from_u32(code).unwrap();
        if let Some(id) = char_to_button_id(ch) {
            assert!(find_button(&b, id).is_some(), "{:?}", ch);
        }
    }
}
