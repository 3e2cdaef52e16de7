use vstd::prelude::*;

verus! {

use crate::error::Error;
use crate::render::{dec_of, emit_glyph};
use crate::stack::Stack;
use vstd::wrapping::i64_specs;

/// Operators that pop one operand.
pub enum UnaryOperation {
    Drop,
    Dup,
    Emit,
    Dot,
    Cr,
}

/// Operators that pop two operands ("first" is the most recently pushed).
pub enum BinaryOperation {
    Add,
    Sub,
    Mul,
    Eq,
    Gt,
    Lt,
    Swap,
    Over,
}

/// Operators that pop three operands.
pub enum TernaryOperation {
    Rot,
}

/// The stack left by a unary operator applied to a nonempty stack `s`.
pub open spec fn unary_result(s: Seq<i64>, op: UnaryOperation) -> Seq<i64> {
    match op {
        UnaryOperation::Cr => s,
        UnaryOperation::Dup => s.push(s.last()),
        UnaryOperation::Dot => s.drop_last(),
        UnaryOperation::Emit => s.drop_last(),
        UnaryOperation::Drop => s.drop_last(),
    }
}

/// The line a unary operator applied to a nonempty stack `s` reports to the
/// caller, if any: `.` reports the popped value, `emit` its character form,
/// `cr` a blank line.
pub open spec fn unary_output(s: Seq<i64>, op: UnaryOperation) -> Option<Seq<char>> {
    match op {
        UnaryOperation::Cr => Some(Seq::<char>::empty()),
        UnaryOperation::Dup => None,
        UnaryOperation::Dot => Some(dec_of(s.last() as int) + " ok"@),
        UnaryOperation::Emit => Some(seq![emit_glyph(s.last() as int)] + " ok"@),
        UnaryOperation::Drop => None,
    }
}

/// The stack left by a binary operator applied to a stack `s` holding at
/// least two values. Arithmetic wraps around on 64-bit overflow; the
/// comparison operators push -1 for "true" and 0 for "false", with `>` and
/// `<` comparing in the inverted direction the operator table prescribes.
pub open spec fn binary_result(s: Seq<i64>, op: BinaryOperation) -> Seq<i64> {
    let first = s.last();
    let second = s.drop_last().last();
    let rest = s.drop_last().drop_last();
    match op {
        BinaryOperation::Add => rest.push(i64_specs::wrapping_add(first, second)),
        BinaryOperation::Sub => rest.push(i64_specs::wrapping_sub(first, second)),
        BinaryOperation::Mul => rest.push(i64_specs::wrapping_mul(first, second)),
        BinaryOperation::Eq => rest.push(if first == second { -1i64 } else { 0i64 }),
        BinaryOperation::Gt => rest.push(if first < second { -1i64 } else { 0i64 }),
        BinaryOperation::Lt => rest.push(if first > second { -1i64 } else { 0i64 }),
        BinaryOperation::Swap => rest.push(first).push(second),
        BinaryOperation::Over => rest.push(second).push(first).push(second),
    }
}

/// The stack left by a ternary operator applied to a stack `s` holding at
/// least three values: `rot` cycles the third-from-top to the top.
pub open spec fn ternary_result(s: Seq<i64>, op: TernaryOperation) -> Seq<i64> {
    let first = s.last();
    let second = s.drop_last().last();
    let third = s.drop_last().drop_last().last();
    let rest = s.drop_last().drop_last().drop_last();
    match op {
        TernaryOperation::Rot => rest.push(second).push(first).push(third),
    }
}

/// Dispatcher for the built-in stack operators. Each function pops its
/// operands, computes, and pushes the result; on underflow it fails with
/// `StackUnderflow` at the failing pop, leaving the operands popped so far
/// removed.
pub struct Op;

impl Op {
    /// Applies a unary operator to `state`, returning the line it reports to
    /// the caller, if any.
    pub fn unary(state: &mut Stack, op: UnaryOperation) -> (r: Result<Option<String>, Error>)
        ensures
            old(state)@.len() == 0 ==> {
                &&& r == Err::<Option<String>, Error>(Error::StackUnderflow)
                &&& final(state)@ == old(state)@
            },
            old(state)@.len() > 0 ==> {
                &&& final(state)@ == unary_result(old(state)@, op)
                &&& r is Ok
                &&& (unary_output(old(state)@, op) is None ==> r == Ok::<Option<String>, Error>(
                    None,
                ))
                &&& (unary_output(old(state)@, op) matches Some(t) ==> r matches Ok(Some(line))
                    && line@ == t)
            },
    {
        let first = match state.pop() {
            Ok(v) => v,
            Err(e) => {
                return Err(e);
            },
        };
        match op {
            UnaryOperation::Cr => {
                state.push(first);
                proof {
                    assert(state@ =~= old(state)@);
                }
                Ok(Some(String::new()))
            },
            UnaryOperation::Dup => {
                state.push(first);
                state.push(first);
                proof {
                    assert(state@ =~= old(state)@.push(first));
                }
                Ok(None)
            },
            UnaryOperation::Dot => {
                let mut line = crate::render::dec_string(first);
                line.append(" ok");
                Ok(Some(line))
            },
            UnaryOperation::Emit => {
                let mut line = String::new();
                crate::utils::push_char(&mut line, crate::render::emit_char(first));
                line.append(" ok");
                Ok(Some(line))
            },
            UnaryOperation::Drop => Ok(None),
        }
    }

    /// Applies a binary operator to `state`.
    pub fn binary(state: &mut Stack, op: BinaryOperation) -> (r: Result<(), Error>)
        ensures
            old(state)@.len() == 0 ==> {
                &&& r == Err::<(), Error>(Error::StackUnderflow)
                &&& final(state)@ == old(state)@
            },
            old(state)@.len() == 1 ==> {
                &&& r == Err::<(), Error>(Error::StackUnderflow)
                &&& final(state)@ == old(state)@.drop_last()
            },
            old(state)@.len() >= 2 ==> {
                &&& r == Ok::<(), Error>(())
                &&& final(state)@ == binary_result(old(state)@, op)
            },
    {
        let first = match state.pop() {
            Ok(v) => v,
            Err(e) => {
                return Err(e);
            },
        };
        let second = match state.pop() {
            Ok(v) => v,
            Err(e) => {
                return Err(e);
            },
        };
        match op {
            BinaryOperation::Add => state.push(first.wrapping_add(second)),
            BinaryOperation::Sub => state.push(first.wrapping_sub(second)),
            BinaryOperation::Mul => state.push(first.wrapping_mul(second)),
            BinaryOperation::Eq => state.push(if first == second { -1 } else { 0 }),
            BinaryOperation::Gt => state.push(if first < second { -1 } else { 0 }),
            BinaryOperation::Lt => state.push(if first > second { -1 } else { 0 }),
            BinaryOperation::Swap => {
                state.push(first);
                state.push(second);
            },
            BinaryOperation::Over => {
                state.push(second);
                state.push(first);
                state.push(second);
            },
        }
        Ok(())
    }

    /// Applies a ternary operator to `state`.
    pub fn ternary(state: &mut Stack, op: TernaryOperation) -> (r: Result<(), Error>)
        ensures
            old(state)@.len() <= 2 ==> {
                &&& r == Err::<(), Error>(Error::StackUnderflow)
                &&& final(state)@.len() == 0
            },
            old(state)@.len() >= 3 ==> {
                &&& r == Ok::<(), Error>(())
                &&& final(state)@ == ternary_result(old(state)@, op)
            },
    {
        let first = match state.pop() {
            Ok(v) => v,
            Err(e) => {
                return Err(e);
            },
        };
        let second = match state.pop() {
            Ok(v) => v,
            Err(e) => {
                return Err(e);
            },
        };
        let third = match state.pop() {
            Ok(v) => v,
            Err(e) => {
                return Err(e);
            },
        };
        match op {
            TernaryOperation::Rot => {
                state.push(second);
                state.push(first);
                state.push(third);
            },
        }
        Ok(())
    }
}

} // verus!
