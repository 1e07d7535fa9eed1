//! The button grid of the calculator: which buttons there are, where each
//! one sits for a given client area, and which one a point falls on.
use vstd::prelude::*;
use crate::calculator::symbol_of;
use crate::calculator::Op;
use crate::text::{digit_char, digit_str};

verus! {

/// What a button does.
#[derive(Debug, Clone, Copy, PartialEq, Eq, Structural)]
pub enum ButtonId {
    Digit(u8),
    Decimal,
    Add,
    Sub,
    Mul,
    Div,
    Equals,
    Clear,
    ClearEntry,
    Backspace,
}

/// A cell of the button grid: the button, its label, and the columns and
/// row that it takes.
#[derive(Debug, Clone, Copy)]
pub struct ButtonDef {
    pub id: ButtonId,
    pub label: &'static str,
    pub col_span: u8,
    pub col: u8,
    pub row: u8,
}

/// An axis-aligned rectangle in client coordinates; `right` and `bottom`
/// are exclusive.
#[derive(Debug, Clone, Copy, PartialEq, Eq, Structural)]
pub struct Rect {
    pub left: i32,
    pub top: i32,
    pub right: i32,
    pub bottom: i32,
}

/// A button placed in the client area.
#[derive(Debug, Clone, Copy)]
pub struct Button {
    pub id: ButtonId,
    pub label: &'static str,
    pub rect: Rect,
}

/// Where a cell of the grid is and what it holds, as contracts speak of it.
pub struct SlotModel {
    pub id: ButtonId,
    pub col_span: int,
    pub col: int,
    pub row: int,
}

/// The label of a button.
pub open spec fn label_text(id: ButtonId) -> Seq<char> {
    match id {
        ButtonId::Digit(d) => seq![digit_char(d as int)],
        ButtonId::Decimal => seq!['.'],
        ButtonId::Add => symbol_of(Op::Add),
        ButtonId::Sub => symbol_of(Op::Sub),
        ButtonId::Mul => symbol_of(Op::Mul),
        ButtonId::Div => symbol_of(Op::Div),
        ButtonId::Equals => seq!['='],
        ButtonId::Clear => seq!['C'],
        ButtonId::ClearEntry => seq!['C', 'E'],
        ButtonId::Backspace => seq!['\u{232B}'],
    }
}

pub open spec fn slot(id: ButtonId, col_span: int, col: int, row: int) -> SlotModel {
    SlotModel { id, col_span, col, row }
}

/// The grid, row by row from the top, each row from the left.
pub open spec fn grid_slots() -> Seq<SlotModel> {
    seq![
        slot(ButtonId::Clear, 1, 0, 0),
        slot(ButtonId::ClearEntry, 1, 1, 0),
        slot(ButtonId::Backspace, 1, 2, 0),
        slot(ButtonId::Div, 1, 3, 0),
        slot(ButtonId::Digit(7), 1, 0, 1),
        slot(ButtonId::Digit(8), 1, 1, 1),
        slot(ButtonId::Digit(9), 1, 2, 1),
        slot(ButtonId::Mul, 1, 3, 1),
        slot(ButtonId::Digit(4), 1, 0, 2),
        slot(ButtonId::Digit(5), 1, 1, 2),
        slot(ButtonId::Digit(6), 1, 2, 2),
        slot(ButtonId::Sub, 1, 3, 2),
        slot(ButtonId::Digit(1), 1, 0, 3),
        slot(ButtonId::Digit(2), 1, 1, 3),
        slot(ButtonId::Digit(3), 1, 2, 3),
        slot(ButtonId::Add, 1, 3, 3),
        slot(ButtonId::Digit(0), 2, 0, 4),
        slot(ButtonId::Decimal, 1, 2, 4),
        slot(ButtonId::Equals, 1, 3, 4),
    ]
}

/// Number of cells in the grid.
pub const GRID_LEN: usize = 19;

impl ButtonDef {
    /// This cell describes grid slot `s`.
    pub open spec fn describes(self, s: SlotModel) -> bool {
        &&& self.id == s.id
        &&& self.label@ == label_text(s.id)
        &&& self.col_span as int == s.col_span
        &&& self.col as int == s.col
        &&& self.row as int == s.row
    }
}

/// The label of a button.
pub fn button_label(id: ButtonId) -> (s: &'static str)
    requires
        id matches ButtonId::Digit(d) ==> d < 10,
    ensures
        s@ == label_text(id),
{
    match id {
        ButtonId::Digit(d) => digit_str(d as u64),
        ButtonId::Decimal => {
            proof { reveal_strlit("."); }
            "."
        },
        ButtonId::Add => crate::calculator::op_symbol(Op::Add),
        ButtonId::Sub => crate::calculator::op_symbol(Op::Sub),
        ButtonId::Mul => crate::calculator::op_symbol(Op::Mul),
        ButtonId::Div => crate::calculator::op_symbol(Op::Div),
        ButtonId::Equals => {
            proof { reveal_strlit("="); }
            "="
        },
        ButtonId::Clear => {
            proof { reveal_strlit("C"); }
            "C"
        },
        ButtonId::ClearEntry => {
            proof { reveal_strlit("CE"); }
            "CE"
        },
        ButtonId::Backspace => {
            proof { reveal_strlit("\u{232B}"); }
            "\u{232B}"
        },
    }
}

fn def(id: ButtonId, col_span: u8, col: u8, row: u8) -> (d: ButtonDef)
    requires
        id matches ButtonId::Digit(v) ==> v < 10,
    ensures
        d.describes(slot(id, col_span as int, col as int, row as int)),
{
    ButtonDef { id, label: button_label(id), col_span, col, row }
}

/// The cells of the button grid.
pub fn button_grid() -> (g: Vec<ButtonDef>)
    ensures
        g@.len() == grid_slots().len(),
        forall|i: int| 0 <= i < g@.len() ==> #[trigger] g@[i].describes(grid_slots()[i]),
{
    let g = vec![
        def(ButtonId::Clear, 1, 0, 0),
        def(ButtonId::ClearEntry, 1, 1, 0),
        def(ButtonId::Backspace, 1, 2, 0),
        def(ButtonId::Div, 1, 3, 0),
        def(ButtonId::Digit(7), 1, 0, 1),
        def(ButtonId::Digit(8), 1, 1, 1),
        def(ButtonId::Digit(9), 1, 2, 1),
        def(ButtonId::Mul, 1, 3, 1),
        def(ButtonId::Digit(4), 1, 0, 2),
        def(ButtonId::Digit(5), 1, 1, 2),
        def(ButtonId::Digit(6), 1, 2, 2),
        def(ButtonId::Sub, 1, 3, 2),
        def(ButtonId::Digit(1), 1, 0, 3),
        def(ButtonId::Digit(2), 1, 1, 3),
        def(ButtonId::Digit(3), 1, 2, 3),
        def(ButtonId::Add, 1, 3, 3),
        def(ButtonId::Digit(0), 2, 0, 4),
        def(ButtonId::Decimal, 1, 2, 4),
        def(ButtonId::Equals, 1, 3, 4),
    ];
    g
}


/// Columns of the grid.
pub const COLS: i32 = 4;
/// Rows of the grid.
pub const ROWS: i32 = 5;
/// Space around the grid.
pub const PADDING: i32 = 10;
/// Space between cells.
pub const GAP: i32 = 6;
/// Height of the display area above the grid.
pub const DISPLAY_HEIGHT: i32 = 96;

/// Quotient of `a` by a positive `b`, rounded toward zero as `/` on `i32`
/// rounds it.
pub open spec fn div_toward_zero(a: int, b: int) -> int {
    if a >= 0 {
        a / b
    } else {
        -((-a) / b)
    }
}

/// Width of one grid column for a client area `client_w` wide.
pub open spec fn cell_width(client_w: int) -> int {
    div_toward_zero(client_w - 2 * PADDING - GAP * (COLS - 1), COLS as int)
}

/// Height of one grid row for a client area `client_h` high.
pub open spec fn cell_height(client_h: int) -> int {
    div_toward_zero(client_h - DISPLAY_HEIGHT - PADDING - GAP * (ROWS - 1), ROWS as int)
}

/// Left edge of a cell in column `col`.
pub open spec fn cell_left(col: int, cw: int) -> int {
    PADDING + col * (cw + GAP)
}

/// Top edge of a cell in row `row`.
pub open spec fn cell_top(row: int, ch: int) -> int {
    DISPLAY_HEIGHT + row * (ch + GAP)
}

/// Width of a cell that spans `span` columns.
pub open spec fn cell_span_width(span: int, cw: int) -> int {
    cw * span + GAP * (span - 1)
}

impl Rect {
    /// The rectangle of grid slot `s`, for columns `cw` wide and rows `ch` high.
    pub open spec fn is_cell_of(self, s: SlotModel, cw: int, ch: int) -> bool {
        &&& self.left == cell_left(s.col, cw)
        &&& self.top == cell_top(s.row, ch)
        &&& self.right == cell_left(s.col, cw) + cell_span_width(s.col_span, cw)
        &&& self.bottom == cell_top(s.row, ch) + ch
    }

    /// The point `(x, y)` lies in this rectangle.
    pub open spec fn contains(self, x: int, y: int) -> bool {
        self.left <= x < self.right && self.top <= y < self.bottom
    }
}

impl Button {
    /// This button is grid slot `s`, placed for columns `cw` wide and rows
    /// `ch` high.
    pub open spec fn placed_as(self, s: SlotModel, cw: int, ch: int) -> bool {
        &&& self.id == s.id
        &&& self.label@ == label_text(s.id)
        &&& self.rect.is_cell_of(s, cw, ch)
    }
}

/// The buttons laid out for a client area of `client_w` by `client_h`.
pub open spec fn laid_out(buttons: Seq<Button>, client_w: int, client_h: int) -> bool {
    &&& buttons.len() == grid_slots().len()
    &&& forall|i: int|
        0 <= i < buttons.len() ==> #[trigger] buttons[i].placed_as(
            grid_slots()[i],
            cell_width(client_w),
            cell_height(client_h),
        )
}

/// The sizes of client area for which the layout arithmetic stays within `i32`.
pub open spec fn layout_fits(client_w: int, client_h: int) -> bool {
    &&& client_w >= i32::MIN + 2 * PADDING + GAP * (COLS - 1)
    &&& client_h >= i32::MIN + DISPLAY_HEIGHT + PADDING + GAP * (ROWS - 1)
}

/// Where each grid cell sits: columns from 0, rows 0 to 4, spans of one or
/// two columns that stay within the four columns.
pub proof fn lemma_slot_bounds(i: int)
    requires
        0 <= i < grid_slots().len(),
    ensures
        0 <= grid_slots()[i].col,
        1 <= grid_slots()[i].col_span <= 2,
        grid_slots()[i].col + grid_slots()[i].col_span <= COLS,
        0 <= grid_slots()[i].row < ROWS,
{
}

/// A factor between 0 and `n` scales `k` to between 0 and `n * k`.
proof fn lemma_scaled_bounds(a: int, n: int, k: int)
    by (nonlinear_arith)
    requires
        0 <= a <= n,
    ensures
        k >= 0 ==> 0 <= a * k <= n * k,
        k < 0 ==> n * k <= a * k <= 0,
{
}

/// Multiplication distributes over a sum of factors.
proof fn lemma_sum_of_scaled(a: int, b: int, k: int)
    by (nonlinear_arith)
    ensures
        a * k + b * k == (a + b) * k,
        k * b == b * k,
{
}

/// Places every button of the grid in a client area of `client_w` by
/// `client_h`: four columns and five rows of equal cells below the display,
/// with a padding of 10 and gaps of 6.
pub fn compute_button_rects(client_w: i32, client_h: i32) -> (buttons: Vec<Button>)
    requires
        layout_fits(client_w as int, client_h as int),
    ensures
        laid_out(buttons@, client_w as int, client_h as int),
{
    let grid_top = DISPLAY_HEIGHT;
    let grid_w = client_w - PADDING * 2;
    let grid_h = client_h - grid_top - PADDING;

    let cell_w = (grid_w - GAP * (COLS - 1)) / COLS;
    let cell_h = (grid_h - GAP * (ROWS - 1)) / ROWS;
    assert(cell_w == cell_width(client_w as int));
    assert(cell_h == cell_height(client_h as int));
    assert(4 * cell_w <= grid_w - 18 + 3 && 4 * cell_w >= grid_w - 18 - 3);
    assert(5 * cell_h <= grid_h - 24 + 4 && 5 * cell_h >= grid_h - 24 - 4);

    let grid = button_grid();
    let mut buttons: Vec<Button> = Vec::new();
    for i in 0..grid.len()
        invariant
            grid@.len() == grid_slots().len(),
            forall|j: int| 0 <= j < grid@.len() ==> #[trigger] grid@[j].describes(grid_slots()[j]),
            buttons@.len() == i,
            cell_w == cell_width(client_w as int),
            cell_h == cell_height(client_h as int),
            4 * cell_w <= grid_w - 18 + 3,
            4 * cell_w >= grid_w - 18 - 3,
            5 * cell_h <= grid_h - 24 + 4,
            5 * cell_h >= grid_h - 24 - 4,
            grid_w == client_w - 20,
            grid_h == client_h - 106,
            grid_top == DISPLAY_HEIGHT,
            layout_fits(client_w as int, client_h as int),
            forall|j: int|
                0 <= j < i ==> #[trigger] buttons@[j].placed_as(grid_slots()[j], cell_w as int, cell_h as int),
    {
        let d = grid[i];
        proof {
            lemma_slot_bounds(i as int);
            assert(grid@[i as int].describes(grid_slots()[i as int]));
        }
        let col = d.col as i32;
        let row = d.row as i32;
        let span = d.col_span as i32;
        assert(0 <= col <= 3 && 0 <= row <= 4 && 1 <= span <= 2 && col + span <= 4);
        proof {
            let k = cell_w + GAP;
            lemma_scaled_bounds(col as int, 3, k as int);
            lemma_scaled_bounds(row as int, 4, (cell_h + GAP) as int);
            lemma_scaled_bounds(span as int, 2, cell_w as int);
            lemma_scaled_bounds((col + span) as int, 4, k as int);
            lemma_sum_of_scaled(col as int, span as int, k as int);
            lemma_sum_of_scaled(span as int, 0, cell_w as int);
            assert(span * (cell_w + GAP) == span * cell_w + GAP * span) by (nonlinear_arith);
            assert(col * k + span * k == (col + span) * k) by (nonlinear_arith);
            let kh = cell_h + GAP;
            assert(-429496731 <= cell_h <= 429496704);
            assert(-1717986900 <= 4 * kh <= 1717986900);
            assert(row * kh <= 4 * kh || row * kh <= 0);
        }
        let x = PADDING + col * (cell_w + GAP);
        let y = grid_top + row * (cell_h + GAP);
        let w = cell_w * span + GAP * (span - 1);
        buttons.push(Button {
            id: d.id,
            label: d.label,
            rect: Rect { left: x, top: y, right: x + w, bottom: y + cell_h },
        });
    }
    buttons
}


/// `Some(i)` names the first button whose rectangle holds `(x, y)`;
/// `None` says that none holds it.
pub open spec fn is_first_hit(buttons: Seq<Button>, x: int, y: int, hit: Option<usize>) -> bool {
    match hit {
        Some(i) => {
            &&& i < buttons.len()
            &&& buttons[i as int].rect.contains(x, y)
            &&& forall|j: int| 0 <= j < i ==> !(#[trigger] buttons[j].rect.contains(x, y))
        },
        None => forall|j: int| 0 <= j < buttons.len() ==> !(#[trigger] buttons[j].rect.contains(x, y)),
    }
}

/// The index of the first button under the point `(x, y)`, if any.
pub fn hit_test(buttons: &[Button], x: i32, y: i32) -> (hit: Option<usize>)
    ensures
        is_first_hit(buttons@, x as int, y as int, hit),
{
    let n = buttons.len();
    let mut i: usize = 0;
    while i < n
        invariant
            n == buttons@.len(),
            i <= n,
            forall|j: int| 0 <= j < i ==> !(#[trigger] buttons@[j].rect.contains(x as int, y as int)),
        decreases n - i,
    {
        let b = &buttons[i];
        if x >= b.rect.left && x < b.rect.right && y >= b.rect.top && y < b.rect.bottom {
            return Some(i);
        }
        i = i + 1;
    }
    None
}

/// Of two grid cells, the earlier one lies in an earlier row, or in the same
/// row and wholly to the left.
pub proof fn lemma_slots_ordered(i: int, j: int)
    requires
        0 <= i < j < grid_slots().len(),
    ensures
        grid_slots()[i].row < grid_slots()[j].row || (grid_slots()[i].row == grid_slots()[j].row
            && grid_slots()[i].col + grid_slots()[i].col_span <= grid_slots()[j].col),
{
}

/// Scaling preserves order by a nonnegative factor.
proof fn lemma_scale_monotone(a: int, b: int, k: int)
    by (nonlinear_arith)
    requires
        a <= b,
        k >= 0,
    ensures
        a * k <= b * k,
{
}

/// A span of one or more columns has positive width only if the columns
/// with their gaps are wider than nothing.
proof fn lemma_positive_span(s: int, k: int)
    by (nonlinear_arith)
    requires
        s >= 1,
        s * k > GAP,
    ensures
        k > 0,
{
}

/// No point of the client area lies in two buttons: the cells of the grid
/// never overlap, whatever the size of the client area.
pub proof fn lemma_buttons_disjoint(buttons: Seq<Button>, client_w: int, client_h: int, i: int, j: int, x: int, y: int)
    requires
        laid_out(buttons, client_w, client_h),
        0 <= i < buttons.len(),
        0 <= j < buttons.len(),
        i != j,
    ensures
        !(buttons[i].rect.contains(x, y) && buttons[j].rect.contains(x, y)),
{
    let (a, b) = if i < j { (i, j) } else { (j, i) };
    let cw = cell_width(client_w);
    let ch = cell_height(client_h);
    let k = cw + GAP;
    let kh = ch + GAP;
    let sa = grid_slots()[a];
    let sb = grid_slots()[b];
    assert(buttons[a].placed_as(sa, cw, ch));
    assert(buttons[b].placed_as(sb, cw, ch));
    lemma_slots_ordered(a, b);
    lemma_slot_bounds(a);
    lemma_slot_bounds(b);
    if buttons[a].rect.contains(x, y) && buttons[b].rect.contains(x, y) {
        if sa.row < sb.row {
            // the rows are ch high and kh apart, so ch > 0 puts row b below row a
            assert(ch > 0);
            lemma_scale_monotone(sa.row + 1, sb.row, kh);
            assert((sa.row + 1) * kh == sa.row * kh + kh) by (nonlinear_arith);
        } else {
            assert(sa.col_span * cw + GAP * (sa.col_span - 1) > 0);
            assert(sa.col_span * k == sa.col_span * cw + GAP * sa.col_span) by (nonlinear_arith)
                requires k == cw + GAP;
            lemma_positive_span(sa.col_span, k);
            lemma_scale_monotone(sa.col + sa.col_span, sb.col, k);
            assert((sa.col + sa.col_span) * k == sa.col * k + sa.col_span * k) by (nonlinear_arith);
        }
    }
}

/// A button that holds a point is the only one that holds it, so
/// `hit_test` names the button under the pointer without ambiguity.
pub proof fn lemma_hit_is_unique(buttons: Seq<Button>, client_w: int, client_h: int, x: int, y: int, i: usize)
    requires
        laid_out(buttons, client_w, client_h),
        is_first_hit(buttons, x, y, Some(i)),
    ensures
        forall|j: int| 0 <= j < buttons.len() && j != i ==> !(#[trigger] buttons[j].rect.contains(x, y)),
{
    assert forall|j: int| 0 <= j < buttons.len() && j != i implies !(#[trigger] buttons[j].rect.contains(x, y)) by {
        lemma_buttons_disjoint(buttons, client_w, client_h, i as int, j, x, y);
    }
}

/// When the client area is at least as large as the padding, the gaps and
/// the display take, every button lies inside it: below the display and
/// within the padding on the other sides.
pub proof fn lemma_buttons_inside(buttons: Seq<Button>, client_w: int, client_h: int, i: int)
    requires
        laid_out(buttons, client_w, client_h),
        client_w >= 2 * PADDING + GAP * (COLS - 1),
        client_h >= DISPLAY_HEIGHT + PADDING + GAP * (ROWS - 1),
        0 <= i < buttons.len(),
    ensures
        PADDING <= buttons[i].rect.left,
        buttons[i].rect.right <= client_w - PADDING,
        DISPLAY_HEIGHT <= buttons[i].rect.top,
        buttons[i].rect.bottom <= client_h - PADDING,
{
    let cw = cell_width(client_w);
    let ch = cell_height(client_h);
    let k = cw + GAP;
    let kh = ch + GAP;
    let s = grid_slots()[i];
    assert(buttons[i].placed_as(s, cw, ch));
    lemma_slot_bounds(i);
    assert(cw >= 0 && 4 * cw <= client_w - 38);
    assert(ch >= 0 && 5 * ch <= client_h - 130);
    lemma_scaled_bounds(s.col, 3, k);
    lemma_scaled_bounds(s.row, 4, kh);
    lemma_scaled_bounds(s.col + s.col_span, 4, k);
    assert(s.col_span * k == s.col_span * cw + GAP * s.col_span) by (nonlinear_arith)
        requires k == cw + GAP;
    assert((s.col + s.col_span) * k == s.col * k + s.col_span * k) by (nonlinear_arith);
}

} // verus!
