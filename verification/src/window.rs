//! The input decisions of the calculator window: which button a key stands
//! for, what a button does to the calculator, and how pointer and keyboard
//! events change which button is shown hovered or pressed.
use vstd::prelude::*;
use crate::calculator::{
    opt_evaluation_model, outcome_model, CalcModel, Calculator, Evaluation, EvaluationModel,
    Number, NumberModel, Op,
};
use crate::layout::{
    compute_button_rects, grid_slots, hit_test, is_first_hit, laid_out, layout_fits, Button,
    ButtonId,
};

verus! {

/// The button that a typed character stands for, if any.
pub open spec fn key_button(ch: char) -> Option<ButtonId> {
    if '0' <= ch <= '9' {
        Some(ButtonId::Digit((ch as u32 - '0' as u32) as u8))
    } else if ch == '.' || ch == ',' {
        Some(ButtonId::Decimal)
    } else if ch == '+' {
        Some(ButtonId::Add)
    } else if ch == '-' {
        Some(ButtonId::Sub)
    } else if ch == '*' {
        Some(ButtonId::Mul)
    } else if ch == '/' {
        Some(ButtonId::Div)
    } else if ch == '=' || ch == '\r' {
        Some(ButtonId::Equals)
    } else if ch == '\x08' {
        Some(ButtonId::Backspace)
    } else if ch == '\x1B' {
        Some(ButtonId::Clear)
    } else {
        None
    }
}

/// Map a typed character to the button it corresponds to.
pub fn char_to_button_id(ch: char) -> (id: Option<ButtonId>)
    ensures
        id == key_button(ch),
{
    if '0' <= ch && ch <= '9' {
        let code = ch as u32;
        Some(ButtonId::Digit((code - 48) as u8))
    } else if ch == '.' || ch == ',' {
        Some(ButtonId::Decimal)
    } else if ch == '+' {
        Some(ButtonId::Add)
    } else if ch == '-' {
        Some(ButtonId::Sub)
    } else if ch == '*' {
        Some(ButtonId::Mul)
    } else if ch == '/' {
        Some(ButtonId::Div)
    } else if ch == '=' || ch == '\r' {
        Some(ButtonId::Equals)
    } else if ch == '\x08' {
        Some(ButtonId::Backspace)
    } else if ch == '\x1B' {
        Some(ButtonId::Clear)
    } else {
        None
    }
}

/// `Some(i)` names the first button with id `id`; `None` says there is none.
pub open spec fn is_first_with_id(buttons: Seq<Button>, id: ButtonId, found: Option<usize>) -> bool {
    match found {
        Some(i) => {
            &&& i < buttons.len()
            &&& buttons[i as int].id == id
            &&& forall|j: int| 0 <= j < i ==> (#[trigger] buttons[j]).id != id
        },
        None => forall|j: int| 0 <= j < buttons.len() ==> (#[trigger] buttons[j]).id != id,
    }
}

/// The index of the first button with id `id`, if any.
pub fn find_button(buttons: &[Button], id: ButtonId) -> (found: Option<usize>)
    ensures
        is_first_with_id(buttons@, id, found),
{
    let n = buttons.len();
    let mut i: usize = 0;
    while i < n
        invariant
            n == buttons@.len(),
            i <= n,
            forall|j: int| 0 <= j < i ==> (#[trigger] buttons@[j]).id != id,
        decreases n - i,
    {
        if buttons[i].id == id {
            return Some(i);
        }
        i = i + 1;
    }
    None
}

/// The evaluation that pressing `id` needs, with `entry` the number on the
/// display.
pub open spec fn press_evaluation(s: CalcModel, id: ButtonId, entry: NumberModel) -> Option<EvaluationModel> {
    match id {
        ButtonId::Add => s.operator_evaluation(entry),
        ButtonId::Sub => s.operator_evaluation(entry),
        ButtonId::Mul => s.operator_evaluation(entry),
        ButtonId::Div => s.operator_evaluation(entry),
        ButtonId::Equals => s.equals_evaluation(entry),
        _ => None,
    }
}

/// The effect of pressing `id`, with `entry` the number on the display and
/// `outcome` the outcome of `press_evaluation`, when one is due.
pub open spec fn press_step(
    s: CalcModel,
    id: ButtonId,
    entry: NumberModel,
    outcome: Option<Result<NumberModel, ()>>,
) -> CalcModel {
    match id {
        ButtonId::Digit(d) => s.digit_step(d),
        ButtonId::Decimal => s.decimal_step(),
        ButtonId::Add => s.operator_step(Op::Add, entry, outcome),
        ButtonId::Sub => s.operator_step(Op::Sub, entry, outcome),
        ButtonId::Mul => s.operator_step(Op::Mul, entry, outcome),
        ButtonId::Div => s.operator_step(Op::Div, entry, outcome),
        ButtonId::Equals => s.equals_step(entry, outcome),
        ButtonId::Clear => crate::calculator::initial_model(),
        ButtonId::ClearEntry => s.clear_entry_step(),
        ButtonId::Backspace => s.backspace_step(),
    }
}

/// Pressing `id` may be handed to the calculator: a digit key that would be
/// appended has a value below ten, and an evaluation that is due comes with
/// its outcome.
pub open spec fn press_allowed(
    s: CalcModel,
    id: ButtonId,
    entry: NumberModel,
    outcome: Option<Result<NumberModel, ()>>,
) -> bool {
    &&& (id matches ButtonId::Digit(d) ==> (s.digit_appends() ==> d < 10))
    &&& (press_evaluation(s, id, entry) is Some ==> outcome is Some)
}

/// The evaluation that pressing `id` needs now.
pub fn evaluation_for(calc: &Calculator, id: ButtonId, entry: &Number) -> (e: Option<Evaluation>)
    ensures
        opt_evaluation_model(e) == press_evaluation(calc@, id, entry@),
{
    match id {
        ButtonId::Add | ButtonId::Sub | ButtonId::Mul | ButtonId::Div => calc.operator_evaluation(entry),
        ButtonId::Equals => calc.equals_evaluation(entry),
        _ => None,
    }
}

/// Hands the press of button `id` to the calculator.
pub fn dispatch_button(calc: &mut Calculator, id: ButtonId, entry: Number, outcome: Option<Result<Number, ()>>)
    requires
        press_allowed(old(calc)@, id, entry@, outcome_model(outcome)),
    ensures
        final(calc)@ == press_step(old(calc)@, id, entry@, outcome_model(outcome)),
{
    match id {
        ButtonId::Digit(d) => calc.digit(d),
        ButtonId::Decimal => calc.decimal(),
        ButtonId::Add => calc.operator(Op::Add, entry, outcome),
        ButtonId::Sub => calc.operator(Op::Sub, entry, outcome),
        ButtonId::Mul => calc.operator(Op::Mul, entry, outcome),
        ButtonId::Div => calc.operator(Op::Div, entry, outcome),
        ButtonId::Equals => calc.equals(entry, outcome),
        ButtonId::Clear => calc.clear(),
        ButtonId::ClearEntry => calc.clear_entry(),
        ButtonId::Backspace => calc.backspace(),
    }
}

/// The sign-extended value of a 16-bit word.
pub open spec fn signed_word(w: int) -> int {
    if w >= 0x8000 { w - 0x10000 } else { w }
}

/// The client coordinates packed in the parameter of a mouse message: the
/// low word is `x`, the next word `y`, each a signed 16-bit number.
pub fn point_from_lparam(lparam: isize) -> (p: (i32, i32))
    ensures
        p.0 == signed_word((lparam & 0xFFFF) as int),
        p.1 == signed_word(((lparam >> 16) & 0xFFFF) as int),
{
    let lo: isize = lparam & 0xFFFF;
    let hi: isize = (lparam >> 16) & 0xFFFF;
    assert(0 <= lo < 0x10000 && 0 <= hi < 0x10000) by (bit_vector)
        requires
            lo == lparam & 0xFFFF,
            hi == (lparam >> 16) & 0xFFFF,
    ;
    let x = lo as i16 as i32;
    let y = hi as i16 as i32;
    assert(x == signed_word(lo as int)) by (bit_vector)
        requires
            0 <= lo < 0x10000,
            x == lo as i16 as i32,
    ;
    assert(y == signed_word(hi as int)) by (bit_vector)
        requires
            0 <= hi < 0x10000,
            y == hi as i16 as i32,
    ;
    (x, y)
}

/// The state of the calculator window: the calculator, the buttons laid
/// out for the client area, and which button the pointer is over and which
/// one is shown pressed.
pub struct AppState {
    pub calc: Calculator,
    pub buttons: Vec<Button>,
    pub hovered: Option<usize>,
    pub pressed: Option<usize>,
    pub tracking_mouse: bool,
}

/// What the window has to do after the pointer moved.
pub struct PointerUpdate {
    /// The hovered button changed, so the window must be repainted.
    pub redraw: bool,
    /// The window must ask to be told when the pointer leaves it.
    pub start_tracking: bool,
}

impl AppState {
    /// A fresh calculator with its buttons laid out for a client area of
    /// `client_w` by `client_h`.
    pub fn new(client_w: i32, client_h: i32) -> (s: Self)
        requires
            layout_fits(client_w as int, client_h as int),
        ensures
            s.calc@ == crate::calculator::initial_model(),
            laid_out(s.buttons@, client_w as int, client_h as int),
            s.hovered is None,
            s.pressed is None,
            !s.tracking_mouse,
    {
        let buttons = compute_button_rects(client_w, client_h);
        AppState {
            calc: Calculator::new(),
            buttons,
            hovered: None,
            pressed: None,
            tracking_mouse: false,
        }
    }

    /// The client area now measures `client_w` by `client_h`.
    pub fn resize(&mut self, client_w: i32, client_h: i32)
        requires
            layout_fits(client_w as int, client_h as int),
        ensures
            laid_out(final(self).buttons@, client_w as int, client_h as int),
            final(self).calc@ == old(self).calc@,
            final(self).hovered == old(self).hovered,
            final(self).pressed == old(self).pressed,
            final(self).tracking_mouse == old(self).tracking_mouse,
    {
        self.buttons = compute_button_rects(client_w, client_h);
    }

    /// The left button went down at `(x, y)`: the button under it, if any,
    /// is shown pressed, and returned so that the caller presses it.
    pub fn mouse_down(&mut self, x: i32, y: i32) -> (id: Option<ButtonId>)
        ensures
            final(self).buttons@ == old(self).buttons@,
            final(self).calc@ == old(self).calc@,
            final(self).hovered == old(self).hovered,
            final(self).tracking_mouse == old(self).tracking_mouse,
            match id {
                Some(b) => {
                    &&& is_first_hit(old(self).buttons@, x as int, y as int, final(self).pressed)
                    &&& final(self).pressed is Some
                    &&& old(self).buttons@[final(self).pressed->0 as int].id == b
                },
                None => {
                    &&& is_first_hit(old(self).buttons@, x as int, y as int, None)
                    &&& final(self).pressed == old(self).pressed
                },
            },
    {
        match hit_test(self.buttons.as_slice(), x, y) {
            Some(idx) => {
                self.pressed = Some(idx);
                Some(self.buttons[idx].id)
            },
            None => None,
        }
    }

    /// The press shown ends: the left button went up, or the highlight of a
    /// key timed out.
    pub fn release(&mut self)
        ensures
            final(self).pressed is None,
            final(self).buttons@ == old(self).buttons@,
            final(self).calc@ == old(self).calc@,
            final(self).hovered == old(self).hovered,
            final(self).tracking_mouse == old(self).tracking_mouse,
    {
        self.pressed = None;
    }

    /// The pointer moved to `(x, y)`.
    pub fn mouse_move(&mut self, x: i32, y: i32) -> (u: PointerUpdate)
        ensures
            is_first_hit(old(self).buttons@, x as int, y as int, final(self).hovered),
            u.redraw == (final(self).hovered != old(self).hovered),
            u.start_tracking == !old(self).tracking_mouse,
            final(self).tracking_mouse,
            final(self).buttons@ == old(self).buttons@,
            final(self).calc@ == old(self).calc@,
            final(self).pressed == old(self).pressed,
    {
        let new_hovered = hit_test(self.buttons.as_slice(), x, y);
        let changed = match (new_hovered, self.hovered) {
            (Some(a), Some(b)) => a != b,
            (None, None) => false,
            _ => true,
        };
        self.hovered = new_hovered;
        let start_tracking = !self.tracking_mouse;
        self.tracking_mouse = true;
        PointerUpdate { redraw: changed, start_tracking }
    }

    /// The pointer left the window.
    pub fn mouse_leave(&mut self)
        ensures
            final(self).hovered is None,
            !final(self).tracking_mouse,
            final(self).buttons@ == old(self).buttons@,
            final(self).calc@ == old(self).calc@,
            final(self).pressed == old(self).pressed,
    {
        self.hovered = None;
        self.tracking_mouse = false;
    }

    /// The Delete key: clears the calculator and shows the clear button
    /// pressed.
    pub fn delete_key(&mut self)
        ensures
            final(self).calc@ == crate::calculator::initial_model(),
            is_first_with_id(old(self).buttons@, ButtonId::Clear, final(self).pressed),
            final(self).buttons@ == old(self).buttons@,
            final(self).hovered == old(self).hovered,
            final(self).tracking_mouse == old(self).tracking_mouse,
    {
        self.calc.clear();
        self.pressed = find_button(self.buttons.as_slice(), ButtonId::Clear);
    }

    /// A character was typed: the button it stands for, if any, is shown
    /// pressed, and returned so that the caller presses it.
    pub fn key_char(&mut self, ch: char) -> (id: Option<ButtonId>)
        ensures
            id == key_button(ch),
            final(self).buttons@ == old(self).buttons@,
            final(self).calc@ == old(self).calc@,
            final(self).hovered == old(self).hovered,
            final(self).tracking_mouse == old(self).tracking_mouse,
            match id {
                Some(b) => is_first_with_id(old(self).buttons@, b, final(self).pressed),
                None => final(self).pressed == old(self).pressed,
            },
    {
        let id = char_to_button_id(ch);
        match id {
            Some(b) => {
                self.pressed = find_button(self.buttons.as_slice(), b);
            },
            None => {},
        }
        id
    }
}

/// Every key keeps the left operand of a pending operation at hand, so an
/// operation is never evaluated without it.
pub proof fn lemma_keys_keep_operand(
    s: CalcModel,
    id: ButtonId,
    entry: NumberModel,
    outcome: Option<Result<NumberModel, ()>>,
)
    requires
        crate::calculator::operand_ready(s),
    ensures
        crate::calculator::operand_ready(press_step(s, id, entry, outcome)),
        crate::calculator::operand_ready(crate::calculator::initial_model()),
{
}

/// Every character that the window handles stands for a button of the
/// grid, so the button that a key shows pressed is always found.
pub proof fn lemma_every_key_has_button(buttons: Seq<Button>, client_w: int, client_h: int, ch: char, found: Option<usize>)
    requires
        laid_out(buttons, client_w, client_h),
        key_button(ch) is Some,
        is_first_with_id(buttons, key_button(ch)->0, found),
    ensures
        found is Some,
{
    let id = key_button(ch)->0;
    let cw = crate::layout::cell_width(client_w);
    let ch2 = crate::layout::cell_height(client_h);
    let j: int = match id {
        ButtonId::Clear => 0,
        ButtonId::Backspace => 2,
        ButtonId::Div => 3,
        ButtonId::Mul => 7,
        ButtonId::Sub => 11,
        ButtonId::Add => 15,
        ButtonId::Decimal => 17,
        ButtonId::Equals => 18,
        ButtonId::Digit(d) => if d == 0 { 16 } else if d <= 3 { 11 + d } else if d <= 6 { 4 + d } else { d - 3 },
        ButtonId::ClearEntry => 1,
    };
    assert(buttons[j].placed_as(grid_slots()[j], cw, ch2));
    assert(buttons[j].id == id);
}

/// The Delete key shows the clear button, the first of the grid, pressed.
pub proof fn lemma_delete_shows_clear(buttons: Seq<Button>, client_w: int, client_h: int)
    requires
        laid_out(buttons, client_w, client_h),
    ensures
        is_first_with_id(buttons, ButtonId::Clear, Some(0)),
{
    assert(buttons[0].placed_as(
        grid_slots()[0],
        crate::layout::cell_width(client_w),
        crate::layout::cell_height(client_h),
    ));
}

/// Pressing a button does exactly what the calculator's key of the same
/// name does.
pub proof fn lemma_buttons_are_keys(
    s: CalcModel,
    d: u8,
    entry: NumberModel,
    outcome: Option<Result<NumberModel, ()>>,
)
    ensures
        press_step(s, ButtonId::Digit(d), entry, outcome) == s.digit_step(d),
        press_step(s, ButtonId::Decimal, entry, outcome) == s.decimal_step(),
        press_step(s, ButtonId::Add, entry, outcome) == s.operator_step(Op::Add, entry, outcome),
        press_step(s, ButtonId::Sub, entry, outcome) == s.operator_step(Op::Sub, entry, outcome),
        press_step(s, ButtonId::Mul, entry, outcome) == s.operator_step(Op::Mul, entry, outcome),
        press_step(s, ButtonId::Div, entry, outcome) == s.operator_step(Op::Div, entry, outcome),
        press_step(s, ButtonId::Equals, entry, outcome) == s.equals_step(entry, outcome),
        press_step(s, ButtonId::Clear, entry, outcome) == crate::calculator::initial_model(),
        press_step(s, ButtonId::ClearEntry, entry, outcome) == s.clear_entry_step(),
        press_step(s, ButtonId::Backspace, entry, outcome) == s.backspace_step(),
        press_evaluation(s, ButtonId::Equals, entry) == s.equals_evaluation(entry),
        press_evaluation(s, ButtonId::Add, entry) == s.operator_evaluation(entry),
        press_evaluation(s, ButtonId::Digit(d), entry) is None,
{
}

/// Every button press keeps the display well formed, when the numbers that
/// come back from the arithmetic have number texts (as those made by
/// `Number::from_shape` from a well-shaped value have): so the display is
/// never empty, holds at most one decimal point, and shows the
/// division-by-zero message exactly in the error state, in every state
/// reached from a fresh calculator.
pub proof fn lemma_press_keeps_display_well_formed(
    s: CalcModel,
    id: ButtonId,
    entry: NumberModel,
    outcome: Option<Result<NumberModel, ()>>,
)
    requires
        crate::calculator::display_well_formed(s),
        press_allowed(s, id, entry, outcome),
        outcome matches Some(Ok(v)) ==> crate::calculator::is_number_text(v.text),
    ensures
        crate::calculator::display_well_formed(press_step(s, id, entry, outcome)),
        crate::calculator::display_well_formed(crate::calculator::initial_model()),
{
    let (d, op) = match id {
        ButtonId::Digit(d) => (d, Op::Add),
        ButtonId::Sub => (0u8, Op::Sub),
        ButtonId::Mul => (0u8, Op::Mul),
        ButtonId::Div => (0u8, Op::Div),
        _ => (0u8, Op::Add),
    };
    crate::calculator::lemma_keys_keep_display_well_formed(s, d, op, entry, outcome);
}

/// A typed digit, point, plus or equals sign stands for the button that
/// bears that very character.
pub proof fn lemma_keys_match_labels(ch: char)
    requires
        ('0' <= ch <= '9') || ch == '.' || ch == '+' || ch == '=',
    ensures
        key_button(ch) is Some,
        crate::layout::label_text(key_button(ch)->0) == seq![ch],
{
}

} // verus!
