//! The four-function calculator state machine.
//!
//! The engine holds a running left operand, one pending operator and
//! the right operand being entered, all optional. One key press at a
//! time moves the state forward, and after each accepted key the state
//! renders as a line of text.
//!
//! Overflow policy: a digit whose shift-in would leave the 32-bit range
//! is dropped, and an operation whose result would leave it is rejected
//! like a division by zero; in both cases the state is unchanged.

use crate::digits::dec_str;
use crate::digits::dec_string;
use crate::digits::push_dec_i32;
use vstd::prelude::*;

verus! {

/// True for the ten decimal digit keys.
pub open spec fn is_digit_key(c: char) -> bool {
    '0' <= c && c <= '9'
}

/// The numeric value of a digit key.
pub open spec fn digit_val(c: char) -> int {
    c as int - '0' as int
}

/// True for the four arithmetic operator keys.
pub open spec fn is_op_key(c: char) -> bool {
    c == '+' || c == '-' || c == '*' || c == '/'
}

/// True when `v` fits a 32-bit signed integer.
pub open spec fn fits_i32(v: int) -> bool {
    -0x8000_0000 <= v && v <= 0x7fff_ffff
}

/// The magnitude of `v`.
pub open spec fn abs_val(v: int) -> nat {
    if v < 0 {
        (-v) as nat
    } else {
        v as nat
    }
}

/// Integer division truncating toward zero, as the machine divides.
pub open spec fn div_trunc(a: int, b: int) -> int {
    let q = (abs_val(a) / abs_val(b)) as int;
    if (a < 0) == (b < 0) {
        q
    } else {
        -q
    }
}

/// The exact result of one arithmetic key on mathematical integers.
pub open spec fn op_result(a: int, op: char, b: int) -> int {
    if op == '+' {
        a + b
    } else if op == '-' {
        a - b
    } else if op == '*' {
        a * b
    } else {
        div_trunc(a, b)
    }
}

/// True when applying `op` is possible on the machine: the divisor of a
/// division is nonzero, and the result fits a 32-bit signed integer.
pub open spec fn op_valid(a: int, op: char, b: int) -> bool {
    (op == '/' ==> b != 0) && fits_i32(op_result(a, op, b))
}

/// The calculator state.
pub struct CalculatorEngine {
    /// The left operand, also the running result.
    pub accumulator: Option<i32>,
    /// The operator chosen but not yet applied.
    pub pending_operator: Option<char>,
    /// The right operand being entered.
    pub operand: Option<i32>,
}

impl CalculatorEngine {
    /// The state invariant: a right operand exists only while an
    /// operator is pending, and a pending operator is one of the four
    /// arithmetic keys (equals is never stored).
    pub open spec fn wf(self) -> bool {
        &&& self.operand is Some ==> self.pending_operator is Some
        &&& self.pending_operator is Some ==> is_op_key(self.pending_operator->0)
    }

    /// The empty state, as at startup or after a clear.
    pub open spec fn spec_cleared() -> Self {
        CalculatorEngine { accumulator: None, pending_operator: None, operand: None }
    }

    /// A digit key shifts into the right operand if an operator is
    /// pending, else into the accumulator; a digit that would push the
    /// value out of range is dropped.
    pub open spec fn spec_apply_digit(self, d: int) -> Self {
        if self.pending_operator is Some {
            match self.operand {
                Some(b) => if fits_i32(b * 10 + d) {
                    CalculatorEngine { operand: Some((b * 10 + d) as i32), ..self }
                } else {
                    self
                },
                None => CalculatorEngine { operand: Some(d as i32), ..self },
            }
        } else {
            match self.accumulator {
                Some(a) => if fits_i32(a * 10 + d) {
                    CalculatorEngine { accumulator: Some((a * 10 + d) as i32), ..self }
                } else {
                    self
                },
                None => CalculatorEngine { accumulator: Some(d as i32), ..self },
            }
        }
    }

    /// True when all three slots are filled, so that an operator or
    /// equals key triggers a computation.
    pub open spec fn ready_to_compute(self) -> bool {
        self.accumulator is Some && self.pending_operator is Some && self.operand is Some
    }

    /// True when `key` would trigger a computation the machine cannot
    /// do: a division by zero, or a result outside the 32-bit range.
    /// Such a key press is ignored and the state is left unchanged.
    pub open spec fn spec_rejects(self, key: char) -> bool {
        &&& is_op_key(key) || key == '='
        &&& self.ready_to_compute()
        &&& !op_valid(self.accumulator->0 as int, self.pending_operator->0, self.operand->0 as int)
    }

    /// An operator or equals key: if all three slots are filled, apply
    /// the pending operator and keep the result as the accumulator;
    /// then record the new operator, except that equals is never
    /// recorded. A key that asks for an impossible computation is
    /// ignored, and equals with a missing slot is a no-op.
    pub open spec fn spec_apply_op(self, key: char) -> Self {
        if self.ready_to_compute() {
            let a = self.accumulator->0 as int;
            let op = self.pending_operator->0;
            let b = self.operand->0 as int;
            if op_valid(a, op, b) {
                CalculatorEngine {
                    accumulator: Some(op_result(a, op, b) as i32),
                    pending_operator: if key == '=' {
                        None
                    } else {
                        Some(key)
                    },
                    operand: None,
                }
            } else {
                self
            }
        } else {
            if key == '=' {
                self
            } else {
                CalculatorEngine { pending_operator: Some(key), ..self }
            }
        }
    }

    /// One key press: digits accumulate, 'C' clears everything,
    /// operators and equals compute and defer, and any symbol outside
    /// the keypad's set is ignored.
    pub open spec fn spec_apply(self, key: char) -> Self {
        if is_digit_key(key) {
            self.spec_apply_digit(digit_val(key))
        } else if key == 'C' {
            Self::spec_cleared()
        } else if is_op_key(key) || key == '=' {
            self.spec_apply_op(key)
        } else {
            self
        }
    }

    /// The accumulator as shown: an empty accumulator renders as zero.
    pub open spec fn shown_accumulator(self) -> int {
        match self.accumulator {
            Some(a) => a as int,
            None => 0,
        }
    }

    /// The textual rendering of the state: the accumulator alone, then
    /// the pending operator once chosen, then the right operand once
    /// its digits exist.
    pub open spec fn spec_display(self) -> Seq<char> {
        match self.operand {
            Some(b) => dec_str(self.shown_accumulator()) + seq![' ', self.pending_operator->0, ' ']
                + dec_str(b as int),
            None => match self.pending_operator {
                Some(op) => dec_str(self.shown_accumulator()) + seq![' ', op],
                None => dec_str(self.shown_accumulator()),
            },
        }
    }

    /// A fresh calculator with all slots empty.
    pub fn new() -> (engine: Self)
        ensures
            engine == Self::spec_cleared(),
    {
        CalculatorEngine { accumulator: None, pending_operator: None, operand: None }
    }

    /// Applies one key press and returns the rendering of the state
    /// after it.
    pub fn apply(&mut self, key: char) -> (display: String)
        requires
            old(self).wf(),
        ensures
            *final(self) == old(self).spec_apply(key),
            final(self).wf(),
            display@ == final(self).spec_display(),
    {
        let code = key as u32;
        if 48 <= code && code <= 57 {
            self.step_digit(code - 48);
        } else if key == 'C' {
            self.accumulator = None;
            self.pending_operator = None;
            self.operand = None;
        } else if key == '+' || key == '-' || key == '*' || key == '/' || key == '=' {
            self.step_op(key);
        }
        self.display()
    }

    /// True when `key` would be rejected as an impossible computation,
    /// so that the shell can report the refusal.
    pub fn would_reject(&self, key: char) -> (rejected: bool)
        requires
            self.wf(),
        ensures
            rejected == self.spec_rejects(key),
    {
        if !(key == '+' || key == '-' || key == '*' || key == '/' || key == '=') {
            return false;
        }
        match (self.accumulator, self.pending_operator, self.operand) {
            (Some(a), Some(op), Some(b)) => checked_op(a, op, b).is_none(),
            _ => false,
        }
    }

    /// The rendering of the current state as an owned string.
    pub fn display(&self) -> (s: String)
        requires
            self.wf(),
        ensures
            s@ == self.spec_display(),
    {
        let shown: i32 = match self.accumulator {
            Some(a) => a,
            None => 0,
        };
        let mut s = dec_string(shown);
        match self.pending_operator {
            Some(op) => {
                push_space(&mut s);
                push_op_char(&mut s, op);
                match self.operand {
                    Some(b) => {
                        push_space(&mut s);
                        push_dec_i32(&mut s, b);
                    },
                    None => {},
                }
            },
            None => {},
        }
        proof {
            assert(s@ =~= self.spec_display());
        }
        s
    }

    /// One digit key, already converted to its value.
    fn step_digit(&mut self, d: u32)
        requires
            d < 10,
            old(self).wf(),
        ensures
            *final(self) == old(self).spec_apply_digit(d as int),
            final(self).wf(),
    {
        if self.pending_operator.is_some() {
            match self.operand {
                Some(b) => {
                    let wide: i64 = (b as i64) * 10 + (d as i64);
                    if -0x8000_0000i64 <= wide && wide <= 0x7fff_ffffi64 {
                        self.operand = Some(wide as i32);
                    }
                },
                None => {
                    self.operand = Some(d as i32);
                },
            }
        } else {
            match self.accumulator {
                Some(a) => {
                    let wide: i64 = (a as i64) * 10 + (d as i64);
                    if -0x8000_0000i64 <= wide && wide <= 0x7fff_ffffi64 {
                        self.accumulator = Some(wide as i32);
                    }
                },
                None => {
                    self.accumulator = Some(d as i32);
                },
            }
        }
    }

    /// One operator or equals key.
    fn step_op(&mut self, key: char)
        requires
            old(self).wf(),
            is_op_key(key) || key == '=',
        ensures
            *final(self) == old(self).spec_apply_op(key),
            final(self).wf(),
    {
        match (self.accumulator, self.pending_operator, self.operand) {
            (Some(a), Some(op), Some(b)) => {
                match checked_op(a, op, b) {
                    Some(result) => {
                        self.accumulator = Some(result);
                        self.operand = None;
                        self.pending_operator = if key == '=' {
                            None
                        } else {
                            Some(key)
                        };
                    },
                    None => {},
                }
            },
            _ => {
                if key != '=' {
                    self.pending_operator = Some(key);
                }
            },
        }
    }
}

/// Law: the clear key resets fully. From any state, 'C' empties all
/// three slots and the state renders as "0".
pub proof fn lemma_clear_resets(s: CalculatorEngine)
    ensures
        s.spec_apply('C') == CalculatorEngine::spec_cleared(),
        s.spec_apply('C').accumulator is None,
        s.spec_apply('C').pending_operator is None,
        s.spec_apply('C').operand is None,
        s.spec_apply('C').spec_display() == seq!['0'],
{
    assert(s.spec_apply('C').spec_display() =~= seq!['0']);
}

/// Law: every key press preserves the state invariant.
pub proof fn lemma_apply_preserves_wf(s: CalculatorEngine, key: char)
    requires
        s.wf(),
    ensures
        s.spec_apply(key).wf(),
{
}

/// Law: a key press that asks for an impossible computation leaves the
/// state unchanged; in particular a division by zero keeps the
/// accumulator, the pending operator and the operand as they were.
pub proof fn lemma_rejected_key_ignored(s: CalculatorEngine, key: char)
    requires
        s.spec_rejects(key),
    ensures
        s.spec_apply(key) == s,
{
}

/// Appends one space character.
fn push_space(s: &mut String)
    ensures
        final(s)@ == old(s)@ + seq![' '],
{
    proof {
        reveal_strlit(" ");
    }
    s.append(" ");
    proof {
        assert(final(s)@ =~= old(s)@ + seq![' ']);
    }
}

/// Appends one arithmetic operator character.
fn push_op_char(s: &mut String, op: char)
    requires
        is_op_key(op),
    ensures
        final(s)@ == old(s)@ + seq![op],
{
    if op == '+' {
        proof {
            reveal_strlit("+");
        }
        s.append("+");
    } else if op == '-' {
        proof {
            reveal_strlit("-");
        }
        s.append("-");
    } else if op == '*' {
        proof {
            reveal_strlit("*");
        }
        s.append("*");
    } else {
        proof {
            reveal_strlit("/");
        }
        s.append("/");
    }
    proof {
        assert(final(s)@ =~= old(s)@ + seq![op]);
    }
}

/// Applies one arithmetic key to two machine integers: `None` when the
/// operation is impossible, a division by zero or an out-of-range
/// result.
fn checked_op(a: i32, op: char, b: i32) -> (r: Option<i32>)
    requires
        is_op_key(op),
    ensures
        op_valid(a as int, op, b as int) ==> r == Some(op_result(a as int, op, b as int) as i32),
        !op_valid(a as int, op, b as int) ==> r is None,
{
    if op == '/' {
        if b == 0 {
            return None;
        }
        div_trunc_i32(a, b)
    } else {
        proof {
            assert((a as int) * (b as int) <= 0x8000_0000 * 0x8000_0000 && (a as int) * (
            b as int) >= -(0x8000_0000 * 0x8000_0000)) by (nonlinear_arith)
                requires
                    -0x8000_0000 <= a as int <= 0x7fff_ffff,
                    -0x8000_0000 <= b as int <= 0x7fff_ffff,
            ;
        }
        let wide: i64 = if op == '+' {
            a as i64 + b as i64
        } else if op == '-' {
            a as i64 - b as i64
        } else {
            (a as i64) * (b as i64)
        };
        if -0x8000_0000i64 <= wide && wide <= 0x7fff_ffffi64 {
            Some(wide as i32)
        } else {
            None
        }
    }
}

/// Division of machine integers truncating toward zero: `None` only
/// when the quotient leaves the 32-bit range.
fn div_trunc_i32(a: i32, b: i32) -> (r: Option<i32>)
    requires
        b != 0,
    ensures
        fits_i32(div_trunc(a as int, b as int)) ==> r == Some(
            div_trunc(a as int, b as int) as i32,
        ),
        !fits_i32(div_trunc(a as int, b as int)) ==> r is None,
{
    let ua: u32 = abs_u32(a);
    let ub: u32 = abs_u32(b);
    let uq: u32 = ua / ub;
    proof {
        assert(uq as nat == abs_val(a as int) / abs_val(b as int));
    }
    let negative = (a < 0) != (b < 0);
    if negative {
        let q: i64 = -(uq as i64);
        assert(q == div_trunc(a as int, b as int));
        Some(q as i32)
    } else {
        assert(uq == div_trunc(a as int, b as int));
        if uq <= 0x7fff_ffffu32 {
            Some(uq as i32)
        } else {
            None
        }
    }
}

/// The magnitude of a machine integer, exact also at the minimum.
fn abs_u32(v: i32) -> (r: u32)
    ensures
        r as nat == abs_val(v as int),
{
    if v < 0 {
        (-(v as i64)) as u32
    } else {
        v as u32
    }
}

} // verus!
