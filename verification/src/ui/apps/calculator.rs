//! Calculator app: the display and the keys.
//!
//! The running total is a floating-point number, which the caller keeps: after each key
//! the calculator states what must happen to that total (`CalcEffect`), and the caller
//! shows the result of an evaluation with `CalcState::show`.

use vstd::prelude::*;
use crate::text::{char_len, string_of, string_pop, string_push};

verus! {

/// An arithmetic operator.
#[derive(Clone, Copy, PartialEq, Eq, Structural, Debug)]
pub enum Op {
    Add,
    Sub,
    Mul,
    Div,
}

impl Op {
    /// The symbol of the operator.
    pub open spec fn label_spec(self) -> Seq<char> {
        match self {
            Op::Add => "+"@,
            Op::Sub => "-"@,
            Op::Mul => "*"@,
            Op::Div => "/"@,
        }
    }

    /// The symbol of the operator.
    pub fn label(self) -> (s: &'static str)
        ensures
            s@ == self.label_spec(),
    {
        match self {
            Op::Add => "+",
            Op::Sub => "-",
            Op::Mul => "*",
            Op::Div => "/",
        }
    }
}

/// What the caller's running total has to do after a key.
#[derive(Clone, Copy, PartialEq, Eq, Structural, Debug)]
pub enum CalcEffect {
    /// Nothing.
    Keep,
    /// Combine the total with the number on the display by the operator that was pending,
    /// and show the result; with no operator pending, the number becomes the total.
    Evaluate(Option<Op>),
    /// The total becomes zero.
    Reset,
}

/// The calculator: the text on its display, the operator waiting for its second operand,
/// whether the next digit starts a new number, and the effect of the last key.
pub struct CalcState {
    display: String,
    pending: Option<Op>,
    fresh: bool,
    effect: CalcEffect,
}

/// What a calculator holds.
pub struct CalcView {
    pub display: Seq<char>,
    pub pending: Option<Op>,
    pub fresh: bool,
    pub effect: CalcEffect,
}

impl View for CalcState {
    type V = CalcView;

    closed spec fn view(&self) -> CalcView {
        CalcView { display: self.display@, pending: self.pending, fresh: self.fresh, effect: self.effect }
    }
}

/// The digit that key `code` types: the keys `1`..`9` and `0`.
pub open spec fn calc_digit(code: u16) -> Option<char> {
    match code {
        2 => Some('1'),
        3 => Some('2'),
        4 => Some('3'),
        5 => Some('4'),
        6 => Some('5'),
        7 => Some('6'),
        8 => Some('7'),
        9 => Some('8'),
        10 => Some('9'),
        11 => Some('0'),
        _ => None,
    }
}

/// The operator of key `code`: `j` adds, `k` subtracts, `l` multiplies, `h` divides.
pub open spec fn calc_op(code: u16) -> Option<Op> {
    if code == 36 {
        Some(Op::Add)
    } else if code == 37 {
        Some(Op::Sub)
    } else if code == 38 {
        Some(Op::Mul)
    } else if code == 35 {
        Some(Op::Div)
    } else {
        None
    }
}

/// Whether the calculator uses key `code`: the digits, the operators, enter (`=`),
/// backspace and `c` (clear).
pub open spec fn calc_uses_key(code: u16) -> bool {
    (2 <= code <= 11) || (35 <= code <= 38) || code == 28 || code == 14 || code == 46
}

/// The calculator after key `code`, and whether it used the key. A digit starts a new
/// number after an operator or on a lone `0`, else it is appended; an operator or enter
/// evaluates the pending operator and waits for a new number; backspace deletes the last
/// digit (a lone `0` is left when none remains, and a new number starts); `c` clears all.
pub open spec fn calc_key(c: CalcView, code: u16) -> (CalcView, bool) {
    if calc_digit(code) is Some {
        let start = if c.fresh { Seq::empty() } else { c.display };
        let base = if start == "0"@ { Seq::empty() } else { start };
        (CalcView { display: base.push(calc_digit(code)->0), fresh: false, effect: CalcEffect::Keep, ..c }, true)
    } else if calc_op(code) is Some {
        (CalcView { pending: calc_op(code), fresh: true, effect: CalcEffect::Evaluate(c.pending), ..c }, true)
    } else if code == 28 {
        (CalcView { pending: None, fresh: true, effect: CalcEffect::Evaluate(c.pending), ..c }, true)
    } else if code == 14 {
        if c.fresh {
            (CalcView { display: "0"@, effect: CalcEffect::Keep, ..c }, true)
        } else if c.display.len() <= 1 {
            (CalcView { display: "0"@, fresh: true, effect: CalcEffect::Keep, ..c }, true)
        } else {
            (CalcView { display: c.display.drop_last(), effect: CalcEffect::Keep, ..c }, true)
        }
    } else if code == 46 {
        (CalcView { display: "0"@, pending: None, fresh: true, effect: CalcEffect::Reset }, true)
    } else {
        (c, false)
    }
}

impl CalcView {
    /// The display is never empty.
    pub open spec fn wf(self) -> bool {
        self.display.len() > 0
    }
}

impl CalcState {
    /// Showing `0`, nothing pending, ready for a new number.
    pub fn new() -> (s: Self)
        ensures
            s@ == (CalcView { display: "0"@, pending: None, fresh: true, effect: CalcEffect::Keep }),
            s@.wf(),
    {
        proof {
            reveal_strlit("0");
        }
        Self { display: string_of("0"), pending: None, fresh: true, effect: CalcEffect::Keep }
    }

    /// The text on the display.
    pub fn display(&self) -> (d: &str)
        ensures
            d@ == self@.display,
    {
        self.display.as_str()
    }

    /// The operator waiting for its second operand.
    pub fn pending(&self) -> (p: Option<Op>)
        ensures
            p == self@.pending,
    {
        self.pending
    }

    /// Hands out the effect of the last key on the running total, leaving `Keep`.
    pub fn take_effect(&mut self) -> (e: CalcEffect)
        ensures
            e == old(self)@.effect,
            final(self)@ == (CalcView { effect: CalcEffect::Keep, ..old(self)@ }),
    {
        let e = self.effect;
        self.effect = CalcEffect::Keep;
        e
    }

    /// Shows `text`, the result of an evaluation, on the display.
    pub fn show(&mut self, text: &str)
        requires
            text@.len() > 0,
        ensures
            final(self)@ == (CalcView { display: text@, ..old(self)@ }),
            final(self)@.wf(),
    {
        self.display = string_of(text);
    }

    /// Handles key `code`; returns whether the key was used.
    pub fn handle_key(&mut self, code: u16) -> (used: bool)
        ensures
            (final(self)@, used) == calc_key(old(self)@, code),
    {
        let digit = match code {
            2 => Some('1'),
            3 => Some('2'),
            4 => Some('3'),
            5 => Some('4'),
            6 => Some('5'),
            7 => Some('6'),
            8 => Some('7'),
            9 => Some('8'),
            10 => Some('9'),
            11 => Some('0'),
            _ => None,
        };
        proof {
            reveal_strlit("0");
        }
        if let Some(d) = digit {
            if self.fresh {
                self.display = String::new();
                self.fresh = false;
            }
            if self.display == string_of("0") {
                self.display = String::new();
            }
            string_push(&mut self.display, d);
            self.effect = CalcEffect::Keep;
            return true;
        }
        let op = match code {
            36 => Some(Op::Add),
            37 => Some(Op::Sub),
            38 => Some(Op::Mul),
            35 => Some(Op::Div),
            _ => None,
        };
        if let Some(o) = op {
            self.effect = CalcEffect::Evaluate(self.pending);
            self.pending = Some(o);
            self.fresh = true;
            return true;
        }
        if code == 28 {
            self.effect = CalcEffect::Evaluate(self.pending);
            self.pending = None;
            self.fresh = true;
            return true;
        }
        if code == 14 {
            if self.fresh {
                self.display = string_of("0");
            } else {
                let _ = string_pop(&mut self.display);
                if char_len(&self.display) == 0 {
                    string_push(&mut self.display, '0');
                    assert(self.display@ =~= "0"@);
                    self.fresh = true;
                }
            }
            self.effect = CalcEffect::Keep;
            return true;
        }
        if code == 46 {
            self.display = string_of("0");
            self.pending = None;
            self.fresh = true;
            self.effect = CalcEffect::Reset;
            return true;
        }
        false
    }
}

/// The calculator uses exactly the keys of `calc_uses_key`, and its display never
/// becomes empty.
pub proof fn law_calc_key(c: CalcView, code: u16)
    ensures
        calc_key(c, code).1 == calc_uses_key(code),
        c.wf() ==> calc_key(c, code).0.wf(),
{
    reveal_strlit("0");
}

/// Clearing forgets everything: after `c` the display shows `0`, nothing is pending and
/// the total is reset, whatever came before.
pub proof fn law_calc_clear(c: CalcView)
    ensures
        calc_key(c, 46).0 == (CalcView { display: "0"@, pending: None, fresh: true, effect: CalcEffect::Reset }),
{
}

/// Typing digits after an operator starts a new number: the display shows exactly the
/// digits typed since.
pub proof fn law_calc_new_number(c: CalcView, op_code: u16, d1: u16, d2: u16)
    requires
        calc_op(op_code) is Some,
        calc_digit(d1) is Some,
        calc_digit(d1)->0 != '0',
        calc_digit(d2) is Some,
    ensures
        calc_key(calc_key(calc_key(c, op_code).0, d1).0, d2).0.display == seq![
            calc_digit(d1)->0,
            calc_digit(d2)->0,
        ],
{
    reveal_strlit("0");
    let a = calc_key(c, op_code).0;
    let b = calc_key(a, d1).0;
    assert(b.display[0] != "0"@[0]);
}

/// A digit key (`1`..`9` are key codes 2..10, `0` is 11) always types its digit at the end
/// of the display: after an operator, after evaluating, or on a lone `0`, the display shows
/// that digit alone; otherwise the digit is appended to what is shown. The operator
/// pending stays, and a new number is under way.
pub proof fn law_calc_digit_entry(c: CalcView, code: u16)
    requires
        2 <= code <= 11,
    ensures
        ({
            let (n, used) = calc_key(c, code);
            &&& used
            &&& n.display.len() > 0
            &&& n.display.last() as u32 == if code == 11 { 48 } else { code + 47 }
            &&& n.display.drop_last() == if c.fresh || c.display == "0"@ {
                Seq::<char>::empty()
            } else {
                c.display
            }
            &&& n.pending == c.pending
            &&& !n.fresh
            &&& n.effect == CalcEffect::Keep
        }),
{
    reveal_strlit("0");
    let (n, used) = calc_key(c, code);
    let start = if c.fresh { Seq::<char>::empty() } else { c.display };
    let base = if start == "0"@ { Seq::<char>::empty() } else { start };
    assert(n.display == base.push(calc_digit(code)->0));
    assert(n.display.drop_last() =~= base);
}

} // verus!
