//! The keypad state machine of the calculator.
//!
//! The machine keeps the text of the display, the text of the formula bar,
//! and the numbers of a pending operation. Numbers are opaque to it: each one
//! is a `Number`, a code chosen by the caller's arithmetic together with the
//! text that the display shows for it. Where a key needs arithmetic (an
//! operator that completes a pending operation, or `=`), the machine first
//! names the evaluation that is due (`operator_evaluation`,
//! `equals_evaluation`), and the caller hands back its outcome with the key.
use vstd::prelude::*;
use crate::text::{
    all_digits, at_most_one_point, is_ascii_text, is_digit, lemma_ascii_byte_len,
    lemma_decimal_digits_are_digits, lemma_trim_end_prefix,
    byte_count, byte_len, concat, contains_char, decimal_digits, digit_char, digit_str, int_text,
    int_to_text, is_single_char, push_decimal, trim_end, trim_end_char, without_last,
};

verus! {

/// A binary operation of the keypad.
#[derive(Debug, Clone, Copy, PartialEq, Eq, Structural)]
pub enum Op {
    Add,
    Sub,
    Mul,
    Div,
}

/// The symbol that the formula bar shows for an operation.
pub open spec fn symbol_of(op: Op) -> Seq<char> {
    match op {
        Op::Add => seq!['+'],
        Op::Sub => seq!['\u{2212}'],
        Op::Mul => seq!['\u{00D7}'],
        Op::Div => seq!['\u{00F7}'],
    }
}

/// The symbol that the formula bar shows for an operation.
pub fn op_symbol(op: Op) -> (s: &'static str)
    ensures
        s@ == symbol_of(op),
{
    match op {
        Op::Add => {
            proof { reveal_strlit("+"); }
            "+"
        },
        Op::Sub => {
            proof { reveal_strlit("\u{2212}"); }
            "\u{2212}"
        },
        Op::Mul => {
            proof { reveal_strlit("\u{00D7}"); }
            "\u{00D7}"
        },
        Op::Div => {
            proof { reveal_strlit("\u{00F7}"); }
            "\u{00F7}"
        },
    }
}

/// A number as the calculator holds it: the code by which the caller's
/// arithmetic knows it, and the text that the display shows for it.
pub struct Number {
    pub code: u64,
    pub text: String,
}

/// What a `Number` stands for in contracts.
#[verifier::ext_equal]
pub struct NumberModel {
    pub code: u64,
    pub text: Seq<char>,
}

impl View for Number {
    type V = NumberModel;

    open spec fn view(&self) -> NumberModel {
        NumberModel { code: self.code, text: self.text@ }
    }
}

impl Number {
    /// A copy of this number.
    pub fn duplicate(&self) -> (r: Number)
        ensures
            r@ == self@,
    {
        Number { code: self.code, text: self.text.clone() }
    }

    /// The number known by `code` whose value has the shape `shape`, with the
    /// text that the display shows for it.
    pub fn from_shape(code: u64, shape: NumberShape) -> (n: Number)
        ensures
            n.code == code,
            n.text@ == shape_text(shape@),
            shape_ok(shape@) ==> is_number_text(n.text@),
    {
        let ghost g = shape@;
        let text = format_number(shape);
        proof {
            if shape_ok(g) {
                lemma_shape_text_is_number_text(g);
            }
        }
        Number { code, text }
    }
}

/// The view of an optional number.
pub open spec fn opt_model(n: Option<Number>) -> Option<NumberModel> {
    match n {
        Some(v) => Some(v@),
        None => None,
    }
}

/// The view of the outcome of an evaluation, when one is given:
/// `Err(())` is a division by zero.
pub open spec fn outcome_model(o: Option<Result<Number, ()>>) -> Option<Result<NumberModel, ()>> {
    match o {
        Some(Ok(v)) => Some(Ok(v@)),
        Some(Err(e)) => Some(Err(e)),
        None => None,
    }
}

/// An evaluation that a key needs: `lhs op rhs`.
pub struct Evaluation {
    pub lhs: Number,
    pub op: Op,
    pub rhs: Number,
}

/// What an `Evaluation` stands for in contracts.
#[verifier::ext_equal]
pub struct EvaluationModel {
    pub lhs: NumberModel,
    pub op: Op,
    pub rhs: NumberModel,
}

impl View for Evaluation {
    type V = EvaluationModel;

    open spec fn view(&self) -> EvaluationModel {
        EvaluationModel { lhs: self.lhs@, op: self.op, rhs: self.rhs@ }
    }
}

/// The view of an optional evaluation.
pub open spec fn opt_evaluation_model(e: Option<Evaluation>) -> Option<EvaluationModel> {
    match e {
        Some(v) => Some(v@),
        None => None,
    }
}

/// The state of the calculator, as contracts speak of it.
#[verifier::ext_equal]
pub struct CalcModel {
    pub display: Seq<char>,
    pub expression: Seq<char>,
    pub accumulator: Option<NumberModel>,
    pub pending_op: Option<Op>,
    pub awaiting_operand: bool,
    pub just_evaluated: bool,
    pub last_rhs: Option<NumberModel>,
    pub is_error: bool,
}

/// The longest display, in bytes, that digit entry extends.
pub const MAX_ENTRY_BYTES: usize = 15;

/// The message that the display shows after a division by zero.
pub open spec fn divide_by_zero_message() -> Seq<char> {
    seq!['C', 'a', 'n', 'n', 'o', 't', ' ', 'd', 'i', 'v', 'i', 'd', 'e', ' ', 'b', 'y', ' ', 'z',
        'e', 'r', 'o']
}

/// The state of a fresh calculator.
pub open spec fn initial_model() -> CalcModel {
    CalcModel {
        display: seq!['0'],
        expression: Seq::empty(),
        accumulator: None,
        pending_op: None,
        awaiting_operand: false,
        just_evaluated: false,
        last_rhs: None,
        is_error: false,
    }
}

impl CalcModel {
    /// A digit key would append its character to the display.
    pub open spec fn digit_appends(self) -> bool {
        &&& !self.is_error
        &&& !self.just_evaluated
        &&& !self.awaiting_operand
        &&& byte_len(self.display) < MAX_ENTRY_BYTES
        &&& self.display != seq!['0']
    }

    /// The digit key `d`.
    pub open spec fn digit_step(self, d: u8) -> CalcModel {
        if self.is_error {
            self
        } else if self.just_evaluated {
            CalcModel { display: decimal_digits(d as nat), ..initial_model() }
        } else if self.awaiting_operand {
            CalcModel { display: decimal_digits(d as nat), awaiting_operand: false, ..self }
        } else if byte_len(self.display) >= MAX_ENTRY_BYTES {
            self
        } else if self.display == seq!['0'] {
            CalcModel { display: decimal_digits(d as nat), ..self }
        } else {
            CalcModel { display: self.display.push(digit_char(d as int)), ..self }
        }
    }

    /// The decimal-point key.
    pub open spec fn decimal_step(self) -> CalcModel {
        if self.is_error {
            self
        } else if self.just_evaluated {
            CalcModel { display: seq!['0', '.'], ..initial_model() }
        } else if self.awaiting_operand {
            CalcModel { display: seq!['0', '.'], awaiting_operand: false, ..self }
        } else if !self.display.contains('.') {
            CalcModel { display: self.display.push('.'), ..self }
        } else {
            self
        }
    }

    /// The state after a division by zero.
    pub open spec fn error_state(self) -> CalcModel {
        CalcModel {
            display: divide_by_zero_message(),
            expression: Seq::empty(),
            is_error: true,
            accumulator: None,
            pending_op: None,
            awaiting_operand: false,
            just_evaluated: false,
            ..self
        }
    }

    /// The evaluation that the operator key needs, with `entry` the number
    /// on the display: the pending operation applied to the accumulator and
    /// the entry, when an operand has been typed since it was chosen.
    pub open spec fn operator_evaluation(self, entry: NumberModel) -> Option<EvaluationModel> {
        if !self.is_error && self.pending_op is Some && !self.awaiting_operand {
            Some(EvaluationModel {
                lhs: match self.accumulator {
                    Some(a) => a,
                    None => entry,
                },
                op: self.pending_op->0,
                rhs: entry,
            })
        } else {
            None
        }
    }

    /// Records `op` as the pending operation on the accumulator `acc`.
    pub open spec fn choose_operation(self, op: Op, acc: NumberModel) -> CalcModel {
        CalcModel {
            accumulator: Some(acc),
            pending_op: Some(op),
            awaiting_operand: true,
            just_evaluated: false,
            expression: acc.text + seq![' '] + symbol_of(op),
            ..self
        }
    }

    /// The operator key `op`, with `entry` the number on the display and
    /// `outcome` the outcome of `operator_evaluation`, when one is due.
    pub open spec fn operator_step(
        self,
        op: Op,
        entry: NumberModel,
        outcome: Option<Result<NumberModel, ()>>,
    ) -> CalcModel {
        if self.is_error {
            self
        } else if self.pending_op is Some && !self.awaiting_operand {
            match outcome {
                Some(Ok(v)) => CalcModel { display: v.text, ..self }.choose_operation(op, v),
                _ => self.error_state(),
            }
        } else {
            self.choose_operation(op, entry)
        }
    }

    /// The evaluation that the equals key needs, with `entry` the number on
    /// the display: the pending operation on the accumulator and the entry,
    /// or, right after a result, on the result and the last right operand.
    pub open spec fn equals_evaluation(self, entry: NumberModel) -> Option<EvaluationModel> {
        if self.is_error || self.pending_op is None {
            None
        } else {
            Some(EvaluationModel {
                lhs: match self.accumulator {
                    Some(a) => a,
                    None => entry,
                },
                op: self.pending_op->0,
                rhs: if self.just_evaluated {
                    match self.last_rhs {
                        Some(r) => r,
                        None => entry,
                    }
                } else {
                    entry
                },
            })
        }
    }

    /// The equals key, with `entry` the number on the display and `outcome`
    /// the outcome of `equals_evaluation`, when one is due.
    pub open spec fn equals_step(self, entry: NumberModel, outcome: Option<Result<NumberModel, ()>>) -> CalcModel {
        match self.equals_evaluation(entry) {
            None => self,
            Some(e) => {
                let kept = CalcModel { last_rhs: Some(e.rhs), ..self };
                match outcome {
                    Some(Ok(v)) => CalcModel {
                        display: v.text,
                        accumulator: Some(v),
                        awaiting_operand: true,
                        just_evaluated: true,
                        expression: e.lhs.text + seq![' '] + symbol_of(e.op) + seq![' '] + e.rhs.text
                            + seq![' ', '='],
                        ..kept
                    },
                    _ => kept.error_state(),
                }
            },
        }
    }

    /// The clear-entry key.
    pub open spec fn clear_entry_step(self) -> CalcModel {
        if self.just_evaluated {
            initial_model()
        } else {
            CalcModel { display: seq!['0'], is_error: false, awaiting_operand: false, ..self }
        }
    }

    /// The backspace key.
    pub open spec fn backspace_step(self) -> CalcModel {
        if self.awaiting_operand || self.is_error {
            self
        } else if byte_len(self.display) <= 1 || self.display == seq!['-'] {
            CalcModel { display: seq!['0'], ..self }
        } else {
            CalcModel { display: self.display.drop_last(), ..self }
        }
    }
}

/// The calculator: the text of its display and formula bar, and the state of
/// the operation being entered.
pub struct Calculator {
    display: String,
    /// What the formula bar shows. Updated explicitly on operator/equals/clear.
    expression: String,
    accumulator: Option<Number>,
    pending_op: Option<Op>,
    /// Next digit input clears the display and starts fresh.
    awaiting_operand: bool,
    /// Last action was '='; digit/decimal after this starts a brand-new equation.
    just_evaluated: bool,
    last_rhs: Option<Number>,
    is_error: bool,
}

impl View for Calculator {
    type V = CalcModel;

    closed spec fn view(&self) -> CalcModel {
        CalcModel {
            display: self.display@,
            expression: self.expression@,
            accumulator: opt_model(self.accumulator),
            pending_op: self.pending_op,
            awaiting_operand: self.awaiting_operand,
            just_evaluated: self.just_evaluated,
            last_rhs: opt_model(self.last_rhs),
            is_error: self.is_error,
        }
    }
}

/// The decimal text of a digit key's value.
fn digit_text(d: u8) -> (s: String)
    ensures
        s@ == decimal_digits(d as nat),
{
    let mut s = String::new();
    push_decimal(&mut s, d as u64);
    assert(s@ =~= decimal_digits(d as nat));
    s
}

/// A copy of an optional number.
fn duplicate_opt(n: &Option<Number>) -> (r: Option<Number>)
    ensures
        opt_model(r) == opt_model(*n),
{
    match n {
        Some(v) => Some(v.duplicate()),
        None => None,
    }
}

impl Calculator {
    /// What the display shows.
    pub fn display(&self) -> (s: &str)
        ensures
            s@ == self@.display,
    {
        self.display.as_str()
    }

    /// What the formula bar shows.
    pub fn expression(&self) -> (s: &str)
        ensures
            s@ == self@.expression,
    {
        self.expression.as_str()
    }

    /// The calculator shows a division by zero and takes no keys but clear
    /// and clear-entry.
    pub fn is_error(&self) -> (e: bool)
        ensures
            e == self@.is_error,
    {
        self.is_error
    }

    /// A calculator showing `0`, with nothing pending.
    pub fn new() -> (c: Self)
        ensures
            c@ == initial_model(),
    {
        proof { reveal_strlit("0"); }
        let c = Calculator {
            display: String::from_str("0"),
            expression: String::new(),
            accumulator: None,
            pending_op: None,
            awaiting_operand: false,
            just_evaluated: false,
            last_rhs: None,
            is_error: false,
        };
        assert(c@ =~= initial_model());
        c
    }

    /// The digit key `d`.
    pub fn digit(&mut self, d: u8)
        requires
            old(self)@.digit_appends() ==> d < 10,
        ensures
            final(self)@ == old(self)@.digit_step(d),
    {
        if self.is_error {
            return;
        }
        if self.just_evaluated {
            // Starting a brand-new equation after '=' -- wipe everything
            *self = Self::new();
            self.display = digit_text(d);
            assert(self@ =~= old(self)@.digit_step(d));
            return;
        }
        if self.awaiting_operand {
            self.display = digit_text(d);
            self.awaiting_operand = false;
        } else {
            if byte_count(self.display.as_str()) >= MAX_ENTRY_BYTES {
                return;
            }
            if is_single_char(self.display.as_str(), '0') {
                self.display = digit_text(d);
            } else {
                self.display.append(digit_str(d as u64));
            }
        }
        assert(self@ =~= old(self)@.digit_step(d));
    }

    /// The decimal-point key.
    pub fn decimal(&mut self)
        ensures
            final(self)@ == old(self)@.decimal_step(),
    {
        if self.is_error {
            return;
        }
        proof { reveal_strlit("0."); }
        if self.just_evaluated {
            *self = Self::new();
            self.display = String::from_str("0.");
            assert(self@ =~= old(self)@.decimal_step());
            return;
        }
        if self.awaiting_operand {
            self.display = String::from_str("0.");
            self.awaiting_operand = false;
        } else if !contains_char(self.display.as_str(), '.') {
            proof { reveal_strlit("."); }
            self.display.append(".");
        }
        assert(self@ =~= old(self)@.decimal_step());
    }

    /// The evaluation that the operator key needs now, with `entry` the
    /// number on the display.
    pub fn operator_evaluation(&self, entry: &Number) -> (e: Option<Evaluation>)
        ensures
            opt_evaluation_model(e) == self@.operator_evaluation(entry@),
    {
        if !self.is_error && self.pending_op.is_some() && !self.awaiting_operand {
            let lhs = match &self.accumulator {
                Some(a) => a.duplicate(),
                None => entry.duplicate(),
            };
            let op = match self.pending_op {
                Some(p) => p,
                None => Op::Add,
            };
            Some(Evaluation { lhs, op, rhs: entry.duplicate() })
        } else {
            None
        }
    }

    /// The operator key `op`. `entry` is the number on the display, and
    /// `outcome` the outcome of `operator_evaluation(entry)` when it is
    /// `Some`: a pending operation is completed first, and a division by
    /// zero there puts the calculator in its error state.
    pub fn operator(&mut self, op: Op, entry: Number, outcome: Option<Result<Number, ()>>)
        requires
            old(self)@.operator_evaluation(entry@) is Some ==> outcome is Some,
        ensures
            final(self)@ == old(self)@.operator_step(op, entry@, outcome_model(outcome)),
    {
        if self.is_error {
            return;
        }
        let acc_text: String;
        if self.pending_op.is_some() && !self.awaiting_operand {
            // Chain: complete the pending operation first
            match outcome {
                Some(Ok(v)) => {
                    self.display = v.text.clone();
                    acc_text = v.text.clone();
                    self.accumulator = Some(v);
                },
                _ => {
                    self.set_error();
                    return;
                },
            }
        } else {
            acc_text = entry.text.clone();
            self.accumulator = Some(entry);
        }
        self.pending_op = Some(op);
        self.awaiting_operand = true;
        self.just_evaluated = false;
        // Formula bar: "acc op"
        proof { reveal_strlit(" "); }
        let head = concat(acc_text.as_str(), " ");
        self.expression = concat(head.as_str(), op_symbol(op));
        assert(self@ =~= old(self)@.operator_step(op, entry@, outcome_model(outcome)));
    }

    /// The evaluation that the equals key needs now, with `entry` the
    /// number on the display.
    pub fn equals_evaluation(&self, entry: &Number) -> (e: Option<Evaluation>)
        ensures
            opt_evaluation_model(e) == self@.equals_evaluation(entry@),
    {
        if self.is_error || self.pending_op.is_none() {
            return None;
        }
        let op = match self.pending_op {
            Some(p) => p,
            None => Op::Add,
        };
        let lhs = match &self.accumulator {
            Some(a) => a.duplicate(),
            None => entry.duplicate(),
        };
        let rhs = if self.just_evaluated {
            match &self.last_rhs {
                Some(r) => r.duplicate(),
                None => entry.duplicate(),
            }
        } else {
            entry.duplicate()
        };
        Some(Evaluation { lhs, op, rhs })
    }

    /// The equals key. `entry` is the number on the display, and `outcome`
    /// the outcome of `equals_evaluation(entry)` when it is `Some`.
    pub fn equals(&mut self, entry: Number, outcome: Option<Result<Number, ()>>)
        requires
            old(self)@.equals_evaluation(entry@) is Some ==> outcome is Some,
        ensures
            final(self)@ == old(self)@.equals_step(entry@, outcome_model(outcome)),
    {
        let due = self.equals_evaluation(&entry);
        let e = match due {
            Some(e) => e,
            None => {
                return;
            },
        };
        // Capture the full expression before taking the result
        proof { reveal_strlit(" "); reveal_strlit(" ="); }
        let part = concat(e.lhs.text.as_str(), " ");
        let part = concat(part.as_str(), op_symbol(e.op));
        let part = concat(part.as_str(), " ");
        let part = concat(part.as_str(), e.rhs.text.as_str());
        let full_expr = concat(part.as_str(), " =");
        self.last_rhs = Some(e.rhs);
        match outcome {
            Some(Ok(v)) => {
                self.display = v.text.clone();
                self.accumulator = Some(v);
                self.awaiting_operand = true;
                self.just_evaluated = true;
                self.expression = full_expr;
            },
            _ => {
                self.set_error();
            },
        }
        assert(self@ =~= old(self)@.equals_step(entry@, outcome_model(outcome)));
    }

    /// The clear key: back to a fresh calculator.
    pub fn clear(&mut self)
        ensures
            final(self)@ == initial_model(),
    {
        *self = Self::new();
    }

    /// The clear-entry key: the display goes back to `0`, and an error is
    /// dismissed; the pending operation and the formula bar stay.
    pub fn clear_entry(&mut self)
        ensures
            final(self)@ == old(self)@.clear_entry_step(),
    {
        if self.just_evaluated {
            // CE after evaluation is effectively the same as C
            *self = Self::new();
            return;
        }
        proof { reveal_strlit("0"); }
        self.display = String::from_str("0");
        self.is_error = false;
        self.awaiting_operand = false;
        // expression intentionally kept -- user may be correcting the RHS of a pending op
        assert(self@ =~= old(self)@.clear_entry_step());
    }

    /// The backspace key: removes the last character of the display.
    pub fn backspace(&mut self)
        ensures
            final(self)@ == old(self)@.backspace_step(),
    {
        if self.awaiting_operand || self.is_error {
            return;
        }
        proof { reveal_strlit("0"); reveal_strlit("-"); }
        let neg_only = is_single_char(self.display.as_str(), '-');
        if byte_count(self.display.as_str()) <= 1 || neg_only {
            self.display = String::from_str("0");
        } else {
            proof { crate::text::lemma_byte_len_zero(self.display@); }
            self.display = without_last(self.display.as_str());
        }
        assert(self@ =~= old(self)@.backspace_step());
    }

    fn set_error(&mut self)
        ensures
            final(self)@ == old(self)@.error_state(),
    {
        proof { reveal_strlit("Cannot divide by zero"); }
        self.display = String::from_str("Cannot divide by zero");
        self.expression = String::new();
        self.is_error = true;
        self.accumulator = None;
        self.pending_op = None;
        self.awaiting_operand = false;
        self.just_evaluated = false;
        assert(self@ =~= old(self)@.error_state());
    }
}

/// How a number is to be written, as the caller's arithmetic classifies it:
/// not finite, a whole number below 10^15 in magnitude, or any other value
/// together with its rendering to ten decimal places.
pub enum NumberShape {
    NotFinite,
    Whole(i64),
    Fraction(String),
}

/// What a `NumberShape` stands for in contracts.
pub enum ShapeModel {
    NotFinite,
    Whole(i64),
    Fraction(Seq<char>),
}

impl View for NumberShape {
    type V = ShapeModel;

    open spec fn view(&self) -> ShapeModel {
        match self {
            NumberShape::NotFinite => ShapeModel::NotFinite,
            NumberShape::Whole(n) => ShapeModel::Whole(*n),
            NumberShape::Fraction(s) => ShapeModel::Fraction(s@),
        }
    }
}

/// The text of a number: `Error` when it is not finite, a whole number in
/// plain decimal, and any other value with its ten decimal places less the
/// trailing zeros and a trailing point.
pub open spec fn shape_text(shape: ShapeModel) -> Seq<char> {
    match shape {
        ShapeModel::NotFinite => seq!['E', 'r', 'r', 'o', 'r'],
        ShapeModel::Whole(n) => int_text(n as int),
        ShapeModel::Fraction(s) => trim_end(trim_end(s, '0'), '.'),
    }
}

/// The text that the display shows for a number.
pub fn format_number(shape: NumberShape) -> (s: String)
    ensures
        s@ == shape_text(shape@),
{
    match shape {
        NumberShape::NotFinite => {
            proof { reveal_strlit("Error"); }
            String::from_str("Error")
        },
        NumberShape::Whole(n) => int_to_text(n),
        NumberShape::Fraction(s) => {
            let t = trim_end_char(s.as_str(), '0');
            trim_end_char(t.as_str(), '.')
        },
    }
}

/// A pending operation always has its left operand: a state that every key
/// keeps (see `lemma_keys_keep_operand` in the window module).
pub open spec fn operand_ready(s: CalcModel) -> bool {
    s.pending_op is Some ==> s.accumulator is Some
}

/// After a division by zero the calculator holds its message: digits, the
/// decimal point, operators, equals and backspace change nothing, until
/// clear or clear-entry dismisses the error.
pub proof fn lemma_error_holds(
    s: CalcModel,
    d: u8,
    op: Op,
    entry: NumberModel,
    outcome: Option<Result<NumberModel, ()>>,
)
    requires
        s.is_error,
    ensures
        s.digit_step(d) == s,
        s.decimal_step() == s,
        s.operator_step(op, entry, outcome) == s,
        s.equals_step(entry, outcome) == s,
        s.backspace_step() == s,
        s.operator_evaluation(entry) is None,
        s.equals_evaluation(entry) is None,
        !s.clear_entry_step().is_error,
        !initial_model().is_error,
{
}

/// A division by zero shows its message, empties the formula bar and drops
/// the pending operation.
pub proof fn lemma_division_by_zero(s: CalcModel, op: Op, entry: NumberModel)
    ensures
        s.equals_evaluation(entry) is Some ==> {
            let t = s.equals_step(entry, Some(Err(())));
            &&& t.is_error
            &&& t.display == divide_by_zero_message()
            &&& t.expression.len() == 0
            &&& t.pending_op is None
        },
        s.operator_evaluation(entry) is Some ==> {
            let t = s.operator_step(op, entry, Some(Err(())));
            &&& t.is_error
            &&& t.display == divide_by_zero_message()
            &&& t.expression.len() == 0
            &&& t.pending_op is None
        },
{
}

/// Pressing the decimal point twice does what pressing it once does: a
/// number gets at most one point.
pub proof fn lemma_decimal_idempotent(s: CalcModel)
    ensures
        s.decimal_step().decimal_step() == s.decimal_step(),
{
    let t = s.decimal_step();
    if !s.is_error {
        if s.just_evaluated || s.awaiting_operand {
            assert(t.display[1] == '.');
        } else if !s.display.contains('.') {
            assert(t.display[t.display.len() - 1] == '.');
        }
    }
}

/// Backspace takes back a digit that was appended to the entry.
pub proof fn lemma_backspace_undoes_digit(s: CalcModel, d: u8)
    requires
        s.digit_appends(),
        d < 10,
        s.display.len() > 0,
    ensures
        s.digit_step(d).backspace_step() == s,
{
    let t = s.digit_step(d);
    crate::text::lemma_byte_len_push_digit(s.display, d as int);
    crate::text::lemma_byte_len_zero(s.display);
    assert(t.display.len() >= 2);
    assert(t.display != seq!['-']);
    assert(t.display.drop_last() =~= s.display);
}

/// Typing digits never makes the entry longer than `MAX_ENTRY_BYTES` bytes,
/// or longer than it was.
pub proof fn lemma_digit_entry_bounded(s: CalcModel, d: u8)
    requires
        d < 10,
    ensures
        byte_len(s.digit_step(d).display) <= MAX_ENTRY_BYTES || s.digit_step(d).display == s.display,
{
    crate::text::lemma_byte_len_digit(d as int);
    assert(decimal_digits(d as nat) == seq![digit_char(d as int)]);
    crate::text::lemma_byte_len_push_digit(s.display, d as int);
}

/// After a result, a digit or the decimal point starts a new equation.
pub proof fn lemma_new_equation_after_result(s: CalcModel, d: u8)
    requires
        !s.is_error,
        s.just_evaluated,
    ensures
        s.digit_step(d) == (CalcModel { display: decimal_digits(d as nat), ..initial_model() }),
        s.decimal_step() == (CalcModel { display: seq!['0', '.'], ..initial_model() }),
{
}

/// Two operator keys in a row evaluate nothing the second time: the second
/// one only replaces the pending operation.
pub proof fn lemma_operator_twice(
    s: CalcModel,
    op1: Op,
    e1: NumberModel,
    o1: Option<Result<NumberModel, ()>>,
    e2: NumberModel,
)
    ensures
        s.operator_step(op1, e1, o1).operator_evaluation(e2) is None,
{
}

/// An operator key with an operand typed since the last one completes the
/// pending operation first: operations chain from left to right.
pub proof fn lemma_operator_chains(s: CalcModel, op: Op, entry: NumberModel, v: NumberModel)
    requires
        operand_ready(s),
        !s.is_error,
        s.pending_op is Some,
        !s.awaiting_operand,
    ensures
        s.operator_evaluation(entry) == Some(EvaluationModel { lhs: s.accumulator->0, op: s.pending_op->0, rhs: entry }),
        s.operator_step(op, entry, Some(Ok(v))).accumulator == Some(v),
        s.operator_step(op, entry, Some(Ok(v))).display == v.text,
        s.operator_step(op, entry, Some(Ok(v))).pending_op == Some(op),
{
}

/// Pressing `=` again repeats the last operation, with the same right
/// operand, on the result.
pub proof fn lemma_equals_repeats(s: CalcModel, entry: NumberModel, v: NumberModel, entry2: NumberModel)
    requires
        s.equals_evaluation(entry) is Some,
    ensures
        ({
            let e = s.equals_evaluation(entry)->0;
            s.equals_step(entry, Some(Ok(v))).equals_evaluation(entry2) == Some(EvaluationModel { lhs: v, op: e.op, rhs: e.rhs })
        }),
{
}

/// Clear-entry forgets only the entry: the pending operation, its left
/// operand and the formula bar stay, unless a result was just shown.
pub proof fn lemma_clear_entry_keeps_operation(s: CalcModel)
    requires
        !s.just_evaluated,
    ensures
        s.clear_entry_step().display == seq!['0'],
        s.clear_entry_step().expression == s.expression,
        s.clear_entry_step().accumulator == s.accumulator,
        s.clear_entry_step().pending_op == s.pending_op,
{
}

/// The text of a number never ends with a decimal point.
pub proof fn lemma_number_text_ends_well(shape: ShapeModel)
    ensures
        shape_text(shape).len() > 0 ==> shape_text(shape).last() != '.',
{
    match shape {
        ShapeModel::NotFinite => {},
        ShapeModel::Whole(n) => {
            if n < 0 {
                crate::text::lemma_decimal_digits_last((-n) as nat);
                let t = seq!['-'] + decimal_digits((-n) as nat);
                assert(t.last() == decimal_digits((-n) as nat).last());
            } else {
                crate::text::lemma_decimal_digits_last(n as nat);
            }
        },
        ShapeModel::Fraction(t) => {
            crate::text::lemma_trim_end_last(trim_end(t, '0'), '.');
        },
    }
}

/// `s` is how a value is written to ten decimal places: an optional minus
/// sign, one or more digits, a point, and ten digits.
pub open spec fn ten_place_rendering(s: Seq<char>) -> bool {
    let n = s.len() as int;
    &&& n >= 12
    &&& s[n - 11] == '.'
    &&& forall|i: int| n - 10 <= i < n ==> is_digit(#[trigger] s[i])
    &&& forall|i: int| 0 <= i < n - 11 ==> is_digit(#[trigger] s[i]) || (i == 0 && s[i] == '-')
    &&& is_digit(s[n - 12])
}

/// The shape of a value is as the arithmetic makes it: a fraction comes
/// with its rendering to ten decimal places.
pub open spec fn shape_ok(shape: ShapeModel) -> bool {
    match shape {
        ShapeModel::Fraction(s) => ten_place_rendering(s),
        _ => true,
    }
}

/// `t` can be the text of a number: not empty, ASCII, with at most one
/// decimal point, and not starting as the division-by-zero message does.
pub open spec fn is_number_text(t: Seq<char>) -> bool {
    &&& t.len() > 0
    &&& is_ascii_text(t)
    &&& at_most_one_point(t)
    &&& t[0] != 'C'
}

/// A nonempty prefix of a text made of digits, minus signs and one point
/// is a number text.
proof fn lemma_prefix_is_number_text(s: Seq<char>, m: int, point: int)
    requires
        0 < m <= s.len(),
        0 <= point < s.len(),
        s[point] == '.',
        forall|i: int| 0 <= i < s.len() && i != point ==> is_digit(#[trigger] s[i]) || s[i] == '-',
    ensures
        is_number_text(s.subrange(0, m)),
{
    let t = s.subrange(0, m);
    assert forall|i: int| 0 <= i < t.len() implies (#[trigger] t[i] as u32) < 0x80 by {
        assert(t[i] == s[i]);
        if i != point {
            assert(is_digit(s[i]) || s[i] == '-');
        }
    }
    assert forall|i: int, j: int|
        0 <= i < t.len() && 0 <= j < t.len() && #[trigger] t[i] == '.' && #[trigger] t[j] == '.' implies i == j by {
        assert(t[i] == s[i] && t[j] == s[j]);
        if i != point {
            assert(is_digit(s[i]) || s[i] == '-');
        }
        if j != point {
            assert(is_digit(s[j]) || s[j] == '-');
        }
    }
    assert(t[0] == s[0]);
    if 0 != point {
        assert(is_digit(s[0]) || s[0] == '-');
    }
}

/// The text of a well-shaped value is a number text.
pub proof fn lemma_shape_text_is_number_text(shape: ShapeModel)
    requires
        shape_ok(shape),
    ensures
        is_number_text(shape_text(shape)),
{
    match shape {
        ShapeModel::NotFinite => {
            let t = seq!['E', 'r', 'r', 'o', 'r'];
            assert(t[0] == 'E' && t[1] == 'r' && t[2] == 'r' && t[3] == 'o' && t[4] == 'r');
            assert(is_ascii_text(t));
            assert(at_most_one_point(t));
        },
        ShapeModel::Whole(n) => {
            let m: nat = if n < 0 { (-n) as nat } else { n as nat };
            lemma_decimal_digits_are_digits(m);
            let d = decimal_digits(m);
            let t = int_text(n as int);
            if n < 0 {
                assert(t =~= seq!['-'] + d);
                assert forall|i: int| 0 <= i < t.len() implies (#[trigger] t[i] as u32) < 0x80 by {
                    if i > 0 {
                        assert(t[i] == d[i - 1]);
                        assert(is_digit(d[i - 1]));
                    }
                }
                assert forall|i: int, j: int|
                    0 <= i < t.len() && 0 <= j < t.len() && #[trigger] t[i] == '.' && #[trigger] t[j] == '.' implies i == j by {
                    if i > 0 {
                        assert(t[i] == d[i - 1]);
                        assert(is_digit(d[i - 1]));
                    }
                }
            } else {
                assert(t == d);
                assert forall|i: int| 0 <= i < t.len() implies (#[trigger] t[i] as u32) < 0x80 by {
                    assert(is_digit(d[i]));
                }
                assert forall|i: int, j: int|
                    0 <= i < t.len() && 0 <= j < t.len() && #[trigger] t[i] == '.' && #[trigger] t[j] == '.' implies i == j by {
                    assert(is_digit(d[i]));
                }
                assert(is_digit(d[0]));
            }
        },
        ShapeModel::Fraction(s) => {
            let n = s.len() as int;
            let point = n - 11;
            assert forall|i: int| 0 <= i < s.len() && i != point implies is_digit(#[trigger] s[i]) || s[i] == '-' by {
                if i < point {
                    assert(is_digit(s[i]) || (i == 0 && s[i] == '-'));
                } else {
                    assert(is_digit(s[i]));
                }
            }
            lemma_trim_end_prefix(s, '0');
            let t1 = trim_end(s, '0');
            assert(s[point] != '0');
            assert(point < t1.len());
            lemma_trim_end_prefix(t1, '.');
            let t2 = trim_end(t1, '.');
            assert(t1[n - 12] == s[n - 12]);
            assert(t1[n - 12] != '.');
            assert(n - 12 < t2.len());
            assert(t2 =~= s.subrange(0, t2.len() as int));
            lemma_prefix_is_number_text(s, t2.len() as int, point);
        },
    }
}

/// What the display and the formula bar always look like: the display is
/// a nonempty ASCII text with at most one decimal point; in the error state
/// it shows the division-by-zero message over an empty formula bar, and
/// otherwise it does not start as that message does.
pub open spec fn display_well_formed(s: CalcModel) -> bool {
    &&& s.display.len() > 0
    &&& is_ascii_text(s.display)
    &&& at_most_one_point(s.display)
    &&& s.is_error ==> s.display == divide_by_zero_message() && s.expression.len() == 0
    &&& !s.is_error ==> s.display[0] != 'C'
}

/// A well-formed display shows the division-by-zero message exactly in the
/// error state.
pub proof fn lemma_error_message_iff_error(s: CalcModel)
    requires
        display_well_formed(s),
    ensures
        s.is_error <==> s.display == divide_by_zero_message(),
{
    if !s.is_error && s.display == divide_by_zero_message() {
        assert(divide_by_zero_message()[0] == 'C');
    }
}

/// The error state has a well-formed display.
proof fn lemma_error_state_well_formed(s: CalcModel)
    ensures
        display_well_formed(s.error_state()),
{
    let m = divide_by_zero_message();
    assert(is_ascii_text(m));
    assert(at_most_one_point(m));
}

/// A fresh calculator has a well-formed display.
pub proof fn lemma_initial_well_formed()
    ensures
        display_well_formed(initial_model()),
{
    let t = seq!['0'];
    assert(t[0] == '0');
    assert(is_ascii_text(t));
    assert(at_most_one_point(t));
}

/// A display that is a number text is well formed outside the error state.
proof fn lemma_number_display(s: CalcModel)
    requires
        !s.is_error,
        is_number_text(s.display),
    ensures
        display_well_formed(s),
{
}

/// Appending a character other than a point to a well-formed entry keeps
/// it well formed; appending a point does too when there was none.
proof fn lemma_push_keeps_form(s: CalcModel, c: char)
    requires
        display_well_formed(s),
        !s.is_error,
        (c as u32) < 0x80,
        c != '.' || !s.display.contains('.'),
    ensures
        display_well_formed(CalcModel { display: s.display.push(c), ..s }),
{
    let t = s.display.push(c);
    assert(t[0] == s.display[0]);
    assert forall|i: int| 0 <= i < t.len() implies (#[trigger] t[i] as u32) < 0x80 by {
        if i < s.display.len() {
            assert(t[i] == s.display[i]);
        }
    }
    assert forall|i: int, j: int|
        0 <= i < t.len() && 0 <= j < t.len() && #[trigger] t[i] == '.' && #[trigger] t[j] == '.' implies i == j by {
        if i < s.display.len() && j < s.display.len() {
            assert(t[i] == s.display[i] && t[j] == s.display[j]);
        } else if i < s.display.len() {
            assert(t[i] == s.display[i]);
            assert(s.display.contains('.'));
        } else if j < s.display.len() {
            assert(t[j] == s.display[j]);
            assert(s.display.contains('.'));
        }
    }
}

/// The display of a digit key's value is well formed.
proof fn lemma_digit_display(s: CalcModel, d: u8)
    requires
        !s.is_error,
    ensures
        display_well_formed(CalcModel { display: decimal_digits(d as nat), ..s }),
{
    lemma_decimal_digits_are_digits(d as nat);
    let t = decimal_digits(d as nat);
    assert forall|i: int| 0 <= i < t.len() implies (#[trigger] t[i] as u32) < 0x80 by {
        assert(is_digit(t[i]));
    }
    assert forall|i: int, j: int|
        0 <= i < t.len() && 0 <= j < t.len() && #[trigger] t[i] == '.' && #[trigger] t[j] == '.' implies i == j by {
        assert(is_digit(t[i]));
    }
    assert(is_digit(t[0]));
}

/// The display `0.` is well formed.
proof fn lemma_zero_point_display(s: CalcModel)
    requires
        !s.is_error,
    ensures
        display_well_formed(CalcModel { display: seq!['0', '.'], ..s }),
{
    let t = seq!['0', '.'];
    assert(t[0] == '0' && t[1] == '.');
    assert(is_ascii_text(t));
    assert(at_most_one_point(t));
}

/// The display `0` is well formed.
proof fn lemma_zero_display(s: CalcModel)
    requires
        !s.is_error,
    ensures
        display_well_formed(CalcModel { display: seq!['0'], ..s }),
{
    let t = seq!['0'];
    assert(t[0] == '0');
    assert(is_ascii_text(t));
    assert(at_most_one_point(t));
}

/// Every key of the calculator keeps its display well formed, when the
/// numbers that come back from the arithmetic have number texts.
pub proof fn lemma_keys_keep_display_well_formed(
    s: CalcModel,
    d: u8,
    op: Op,
    entry: NumberModel,
    outcome: Option<Result<NumberModel, ()>>,
)
    requires
        display_well_formed(s),
        s.digit_appends() ==> d < 10,
        outcome matches Some(Ok(v)) ==> is_number_text(v.text),
    ensures
        display_well_formed(s.digit_step(d)),
        display_well_formed(s.decimal_step()),
        display_well_formed(s.operator_step(op, entry, outcome)),
        display_well_formed(s.equals_step(entry, outcome)),
        display_well_formed(initial_model()),
        display_well_formed(s.clear_entry_step()),
        display_well_formed(s.backspace_step()),
{
    lemma_initial_well_formed();
    lemma_error_state_well_formed(s);
    if !s.is_error {
        // digit
        if s.just_evaluated {
            lemma_digit_display(initial_model(), d);
        } else if s.awaiting_operand {
            lemma_digit_display(CalcModel { awaiting_operand: false, ..s }, d);
        } else if byte_len(s.display) >= MAX_ENTRY_BYTES {
        } else if s.display == seq!['0'] {
            lemma_digit_display(s, d);
        } else {
            crate::text::lemma_digit_char_is_digit(d as int);
            lemma_push_keeps_form(s, digit_char(d as int));
        }
        // decimal
        if s.just_evaluated {
            lemma_zero_point_display(initial_model());
        } else if s.awaiting_operand {
            lemma_zero_point_display(CalcModel { awaiting_operand: false, ..s });
        } else if !s.display.contains('.') {
            lemma_push_keeps_form(s, '.');
        }
        // operator and equals
        match outcome {
            Some(Ok(v)) => {
                lemma_number_display(CalcModel { display: v.text, ..s }.choose_operation(op, v));
                if s.equals_evaluation(entry) is Some {
                    lemma_number_display(s.equals_step(entry, outcome));
                }
            },
            _ => {},
        }
        match s.equals_evaluation(entry) {
            Some(e) => {
                let kept = CalcModel { last_rhs: Some(e.rhs), ..s };
                lemma_error_state_well_formed(kept);
            },
            None => {},
        }
        // backspace
        if !s.awaiting_operand {
            if byte_len(s.display) <= 1 || s.display == seq!['-'] {
                lemma_zero_display(s);
            } else {
                lemma_ascii_byte_len(s.display);
                let t = s.display.drop_last();
                assert(t[0] == s.display[0]);
                assert forall|i: int| 0 <= i < t.len() implies (#[trigger] t[i] as u32) < 0x80 by {
                    assert(t[i] == s.display[i]);
                }
                assert forall|i: int, j: int|
                    0 <= i < t.len() && 0 <= j < t.len() && #[trigger] t[i] == '.' && #[trigger] t[j] == '.' implies i == j by {
                    assert(t[i] == s.display[i] && t[j] == s.display[j]);
                }
            }
        }
    }
    // clear entry
    if !s.just_evaluated {
        lemma_zero_display(CalcModel { is_error: false, ..s });
    }
}

/// The state that a division by zero leaves: its message over an empty
/// formula bar, which digits, the decimal point, operators, equals and
/// backspace leave as it is, and which clear-entry dismisses to `0`.
pub proof fn lemma_error_state_holds(
    s: CalcModel,
    d: u8,
    op: Op,
    entry: NumberModel,
    outcome: Option<Result<NumberModel, ()>>,
)
    ensures
        ({
            let t = s.error_state();
            &&& t.display == divide_by_zero_message()
            &&& t.expression.len() == 0
            &&& t.is_error
            &&& t.digit_step(d) == t
            &&& t.decimal_step() == t
            &&& t.operator_step(op, entry, outcome) == t
            &&& t.equals_step(entry, outcome) == t
            &&& t.backspace_step() == t
            &&& t.clear_entry_step().display == seq!['0']
            &&& !t.clear_entry_step().is_error
        }),
{
    lemma_error_holds(s.error_state(), d, op, entry, outcome);
}

/// An operator key ends the showing of a result: outside the error state
/// the calculator is no longer in the state right after `=`, so the next
/// digit starts the right operand and keeps the pending operation.
pub proof fn lemma_operator_leaves_result(
    s: CalcModel,
    op: Op,
    entry: NumberModel,
    outcome: Option<Result<NumberModel, ()>>,
    d: u8,
)
    requires
        !s.is_error,
    ensures
        !s.operator_step(op, entry, outcome).just_evaluated,
        ({
            let t = s.operator_step(op, entry, outcome);
            !t.is_error ==> {
                &&& t.awaiting_operand
                &&& t.pending_op == Some(op)
                &&& t.digit_step(d).display == decimal_digits(d as nat)
                &&& t.digit_step(d).pending_op == Some(op)
                &&& t.digit_step(d).accumulator == t.accumulator
                &&& t.digit_step(d).expression == t.expression
                &&& !t.digit_step(d).awaiting_operand
            }
        }),
{
}

/// When the operator key names an evaluation: exactly when, outside the
/// error state, an operation is pending and an operand has been typed since;
/// it applies the pending operation to the accumulator and the shown number.
pub proof fn lemma_operator_evaluation_due(s: CalcModel, entry: NumberModel)
    ensures
        (s.operator_evaluation(entry) is Some) == (!s.is_error && s.pending_op is Some && !s.awaiting_operand),
        s.operator_evaluation(entry) matches Some(e) ==> {
            &&& e.op == s.pending_op->0
            &&& e.rhs == entry
            &&& (s.accumulator matches Some(a) ==> e.lhs == a)
        },
{
}

/// What an operator key leaves: the chosen operation pending on the result
/// of the evaluation it completed, or else on the shown number, waiting for
/// its right operand, with the formula bar showing `accumulator op`.
pub proof fn lemma_operator_result(
    s: CalcModel,
    op: Op,
    entry: NumberModel,
    outcome: Option<Result<NumberModel, ()>>,
)
    requires
        !s.is_error,
        s.operator_evaluation(entry) is Some ==> outcome matches Some(Ok(_)),
    ensures
        ({
            let t = s.operator_step(op, entry, outcome);
            let acc = match (s.operator_evaluation(entry), outcome) {
                (Some(_), Some(Ok(v))) => v,
                _ => entry,
            };
            &&& !t.is_error
            &&& t.accumulator == Some(acc)
            &&& t.pending_op == Some(op)
            &&& t.awaiting_operand
            &&& !t.just_evaluated
            &&& t.expression == acc.text + seq![' '] + symbol_of(op)
            &&& t.display == (if s.operator_evaluation(entry) is Some { acc.text } else { s.display })
            &&& t.last_rhs == s.last_rhs
        }),
{
}

/// The equals key names an evaluation whenever, outside the error state, an
/// operation is pending: the pending operation on the accumulator and the
/// shown number, or, right after a result, on the result and the last right
/// operand.
pub proof fn lemma_equals_evaluation_due(s: CalcModel, entry: NumberModel)
    ensures
        (s.equals_evaluation(entry) is Some) == (!s.is_error && s.pending_op is Some),
        s.equals_evaluation(entry) matches Some(e) ==> {
            &&& e.op == s.pending_op->0
            &&& (s.accumulator matches Some(a) ==> e.lhs == a)
            &&& (!s.just_evaluated ==> e.rhs == entry)
            &&& (s.just_evaluated && s.last_rhs is Some ==> e.rhs == s.last_rhs->0)
        },
{
}

/// The equals key shows the outcome of the evaluation it named, keeps it as
/// the accumulator, remembers the right operand for a repeat, and writes the
/// whole evaluation to the formula bar.
pub proof fn lemma_equals_shows_outcome(s: CalcModel, entry: NumberModel, v: NumberModel)
    requires
        s.equals_evaluation(entry) is Some,
    ensures
        ({
            let e = s.equals_evaluation(entry)->0;
            let t = s.equals_step(entry, Some(Ok(v)));
            &&& t.display == v.text
            &&& t.accumulator == Some(v)
            &&& t.pending_op == s.pending_op
            &&& t.last_rhs == Some(e.rhs)
            &&& t.just_evaluated
            &&& t.awaiting_operand
            &&& !t.is_error
            &&& t.expression == e.lhs.text + seq![' '] + symbol_of(e.op) + seq![' '] + e.rhs.text + seq![' ', '=']
        }),
{
}

/// The equals key does nothing without a pending operation or in the error
/// state.
pub proof fn lemma_equals_without_operation(s: CalcModel, entry: NumberModel, outcome: Option<Result<NumberModel, ()>>)
    requires
        s.is_error || s.pending_op is None,
    ensures
        s.equals_step(entry, outcome) == s,
{
}

/// The decimal point opens the entry for digits: outside the error state it
/// leaves a display with a point that is not waiting for an operand, keeps
/// a pending operation unless a result was shown, and extends an entry
/// being typed; a digit typed next is appended after it.
pub proof fn lemma_decimal_opens_entry(s: CalcModel, d: u8)
    requires
        !s.is_error,
    ensures
        ({
            let t = s.decimal_step();
            &&& !t.awaiting_operand
            &&& !t.just_evaluated
            &&& !t.is_error
            &&& t.display.contains('.')
            &&& (s.just_evaluated ==> t.pending_op is None && t.accumulator is None && t.expression.len() == 0)
            &&& (!s.just_evaluated ==> t.pending_op == s.pending_op && t.accumulator == s.accumulator
                && t.expression == s.expression)
            &&& (!s.just_evaluated && !s.awaiting_operand ==> t.display.subrange(0, s.display.len() as int) == s.display)
            &&& (d < 10 && byte_len(t.display) < MAX_ENTRY_BYTES ==> t.digit_step(d).display == t.display.push(digit_char(d as int)))
            &&& (!s.just_evaluated && !s.awaiting_operand && s.display.contains('.') ==> t == s)
            &&& (!s.just_evaluated && !s.awaiting_operand && !s.display.contains('.') ==> t.display == s.display.push('.'))
        }),
{
    let t = s.decimal_step();
    if s.just_evaluated || s.awaiting_operand {
        assert(t.display[1] == '.');
    } else if !s.display.contains('.') {
        assert(t.display[t.display.len() - 1] == '.');
        assert(t.display.subrange(0, s.display.len() as int) =~= s.display);
    } else {
        assert(t.display.subrange(0, s.display.len() as int) =~= s.display);
    }
    assert(t.display != seq!['0']) by {
        if t.display == seq!['0'] {
            let i = choose|i: int| 0 <= i < t.display.len() && t.display[i] == '.';
            assert(t.display[i] == '0');
        }
    }
}

/// Backspace removes exactly the last character of an entry of two or more
/// characters, whatever that character is, and changes nothing else.
pub proof fn lemma_backspace_removes_last(s: CalcModel)
    requires
        !s.is_error,
        !s.awaiting_operand,
        s.display.len() >= 2,
    ensures
        s.backspace_step() == (CalcModel { display: s.display.drop_last(), ..s }),
{
    crate::text::lemma_byte_len_at_least_len(s.display);
}

/// Backspace leaves `0` in place of an entry of at most one ASCII
/// character, and does nothing while an operand is awaited or in the error
/// state.
pub proof fn lemma_backspace_edges(s: CalcModel)
    ensures
        (!s.is_error && !s.awaiting_operand && s.display.len() <= 1 && is_ascii_text(s.display))
            ==> s.backspace_step() == (CalcModel { display: seq!['0'], ..s }),
        (s.is_error || s.awaiting_operand) ==> s.backspace_step() == s,
{
    if s.display.len() <= 1 && is_ascii_text(s.display) {
        lemma_ascii_byte_len(s.display);
    }
}

/// Clear-entry always leaves `0` on the display, outside the error state
/// and not waiting for an operand; right after a result it is the same as
/// clear, and otherwise it keeps the pending operation and the formula bar.
pub proof fn lemma_clear_entry_shows_zero(s: CalcModel)
    ensures
        s.clear_entry_step().display == seq!['0'],
        !s.clear_entry_step().is_error,
        !s.clear_entry_step().awaiting_operand,
        !s.clear_entry_step().just_evaluated || s.clear_entry_step() == initial_model(),
        s.just_evaluated ==> s.clear_entry_step() == initial_model(),
        !s.just_evaluated ==> {
            &&& s.clear_entry_step().pending_op == s.pending_op
            &&& s.clear_entry_step().accumulator == s.accumulator
            &&& s.clear_entry_step().expression == s.expression
            &&& s.clear_entry_step().last_rhs == s.last_rhs
        },
{
}

/// A digit key outside the error state leaves an entry open for more
/// digits: right after a result it starts a new equation showing the
/// digit; while an operand is awaited it shows the digit as the operand;
/// on an entry being typed it appends the digit, unless the entry is full;
/// and apart from a new equation it keeps the pending operation.
pub proof fn lemma_digit_entry(s: CalcModel, d: u8)
    requires
        !s.is_error,
    ensures
        ({
            let t = s.digit_step(d);
            &&& !t.awaiting_operand
            &&& !t.is_error
            &&& !t.just_evaluated
            &&& (s.just_evaluated ==> t == CalcModel { display: decimal_digits(d as nat), ..initial_model() })
            &&& (!s.just_evaluated ==> t.pending_op == s.pending_op && t.accumulator == s.accumulator
                && t.expression == s.expression && t.last_rhs == s.last_rhs)
            &&& (!s.just_evaluated && s.awaiting_operand ==> t.display == decimal_digits(d as nat))
            &&& (s.digit_appends() ==> t.display == s.display.push(digit_char(d as int)))
            &&& (!s.just_evaluated && !s.awaiting_operand && byte_len(s.display) >= MAX_ENTRY_BYTES ==> t == s)
            &&& (!s.just_evaluated && !s.awaiting_operand && byte_len(s.display) < MAX_ENTRY_BYTES
                && s.display == seq!['0'] ==> t.display == decimal_digits(d as nat))
        }),
        MAX_ENTRY_BYTES == 15,
{
}

/// Clear gives back a fresh calculator, showing `0` with nothing pending.
pub proof fn lemma_clear_is_fresh()
    ensures
        initial_model().display == seq!['0'],
        initial_model().expression.len() == 0,
        initial_model().pending_op is None,
        initial_model().accumulator is None,
        !initial_model().is_error,
        !initial_model().just_evaluated,
        !initial_model().awaiting_operand,
{
}

/// The text of a fraction is its ten-place rendering cut short: it keeps
/// the sign, the whole part and the point's position, and when it keeps
/// the point it does not end in a zero.
pub proof fn lemma_fraction_text_trimmed(r: Seq<char>)
    requires
        ten_place_rendering(r),
    ensures
        ({
            let t = shape_text(ShapeModel::Fraction(r));
            &&& r.len() - 11 <= t.len() <= r.len()
            &&& t == r.subrange(0, t.len() as int)
            &&& (t.len() > r.len() - 11 ==> t.last() != '0')
            &&& t.last() != '.'
        }),
{
    let n = r.len() as int;
    lemma_trim_end_prefix(r, '0');
    let t1 = trim_end(r, '0');
    assert(r[n - 11] != '0');
    lemma_trim_end_prefix(t1, '.');
    let t2 = trim_end(t1, '.');
    assert(t1[n - 12] == r[n - 12]);
    assert(t1[n - 12] != '.');
    assert(t2 =~= r.subrange(0, t2.len() as int));
    crate::text::lemma_trim_end_last(t1, '.');
    crate::text::lemma_trim_end_last(r, '0');
    if t2.len() > n - 11 {
        // the point was kept, so nothing was cut at the second step
        assert(t2.len() <= t1.len());
        if t2.len() < t1.len() {
            assert(t1[t2.len() as int] == '.') by {
                lemma_trim_cut_chars(t1, '.');
            }
            assert(t1[t2.len() as int] == r[t2.len() as int]);
            assert(r[t2.len() as int] != '.') by {
                if t2.len() as int != n - 11 {
                    if t2.len() < n - 11 {
                        assert(is_digit(r[t2.len() as int]) || (t2.len() == 0 && r[0] == '-'));
                    } else {
                        assert(is_digit(r[t2.len() as int]));
                    }
                }
            }
        }
        assert(t2 == t1);
    }
}

/// The characters cut by `trim_end` are all `c`.
proof fn lemma_trim_cut_chars(s: Seq<char>, c: char)
    ensures
        forall|k: int| trim_end(s, c).len() <= k < s.len() ==> s[k] == c,
    decreases s.len(),
{
    lemma_trim_end_prefix(s, c);
    if s.len() > 0 && s.last() == c {
        lemma_trim_cut_chars(s.drop_last(), c);
        assert forall|k: int| trim_end(s, c).len() <= k < s.len() implies s[k] == c by {
            if k < s.len() - 1 {
                assert(s.drop_last()[k] == s[k]);
            }
        }
    }
}

/// The value of a text of digits read in decimal.
pub open spec fn digits_value(s: Seq<char>) -> nat
    decreases s.len(),
{
    if s.len() == 0 {
        0
    } else {
        digits_value(s.drop_last()) * 10 + digit_value(s.last())
    }
}

/// The value of a digit character.
pub open spec fn digit_value(c: char) -> nat {
    if is_digit(c) { (c as u32 - '0' as u32) as nat } else { 0 }
}

/// A digit character has the value it stands for.
proof fn lemma_digit_value(k: int)
    requires
        0 <= k < 10,
    ensures
        digit_value(digit_char(k)) == k,
{
}

/// The decimal text of a number reads back as that number.
pub proof fn lemma_decimal_digits_value(n: nat)
    ensures
        digits_value(decimal_digits(n)) == n,
    decreases n,
{
    if n < 10 {
        let t = decimal_digits(n);
        lemma_digit_value(n as int);
        assert(t.drop_last() =~= Seq::<char>::empty());
        assert(digits_value(t.drop_last()) == 0);
        assert(t.last() == digit_char(n as int));
        assert(digits_value(t) == digits_value(t.drop_last()) * 10 + digit_value(t.last()));
    } else {
        lemma_digit_value((n % 10) as int);
        lemma_decimal_digits_value(n / 10);
        let t = decimal_digits(n);
        assert(t.drop_last() =~= decimal_digits(n / 10));
        assert(t.last() == digit_char((n % 10) as int));
        assert(digits_value(t) == digits_value(t.drop_last()) * 10 + digit_value(t.last()));
        assert((n / 10) * 10 + n % 10 == n);
    }
}

/// A whole number's text reads back as the number, with a minus sign
/// exactly when it is negative.
pub proof fn lemma_whole_text_value(n: i64)
    ensures
        ({
            let t = shape_text(ShapeModel::Whole(n));
            &&& (n >= 0 ==> digits_value(t) == n && t.len() > 0 && t[0] != '-')
            &&& (n < 0 ==> t[0] == '-' && digits_value(t.subrange(1, t.len() as int)) == -n)
        }),
{
    if n >= 0 {
        lemma_decimal_digits_value(n as nat);
        lemma_decimal_digits_are_digits(n as nat);
        assert(is_digit(decimal_digits(n as nat)[0]));
    } else {
        lemma_decimal_digits_value((-n) as nat);
        let t = shape_text(ShapeModel::Whole(n));
        assert(t.subrange(1, t.len() as int) =~= decimal_digits((-n) as nat));
    }
}

} // verus!
