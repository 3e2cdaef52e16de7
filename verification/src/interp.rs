use vstd::prelude::*;

verus! {

use crate::error::Error;
use crate::op::{unary_output, unary_result, binary_result, BinaryOperation, Op, UnaryOperation};
use crate::render::{render, render_stack};
use crate::stack::Stack;
use crate::utils::{digits_val, is_num_tok, parse_num, split_ws, tok_is, Utils};

/// The mathematical state of the basic interpreter: the operand stack, the
/// token buffer, and the lines reported to the caller so far.
#[verifier::ext_equal]
pub struct InterpView {
    pub stack: Seq<i64>,
    pub tokens: Seq<Seq<char>>,
    pub out: Seq<Seq<char>>,
}

/// The part of the state an executed token can affect: the token buffer
/// never changes during execution.
#[verifier::ext_equal]
pub struct Effect {
    pub stack: Seq<i64>,
    pub out: Seq<Seq<char>>,
}

/// The mutable part of a state.
pub open spec fn eff(v: InterpView) -> Effect {
    Effect { stack: v.stack, out: v.out }
}

/// A unary operator applied to the mutable state.
pub open spec fn unary_effect(s: Effect, op: UnaryOperation) -> Result<Effect, (Effect, Error)> {
    if s.stack.len() == 0 {
        Err((s, Error::StackUnderflow))
    } else {
        let s2 = Effect { stack: unary_result(s.stack, op), ..s };
        match unary_output(s.stack, op) {
            Some(line) => Ok(Effect { out: s2.out.push(line), ..s2 }),
            None => Ok(s2),
        }
    }
}

/// A binary operator applied to the mutable state; the failing pop leaves
/// the operands popped so far removed.
pub open spec fn binary_effect(s: Effect, op: BinaryOperation) -> Result<Effect, (Effect, Error)> {
    if s.stack.len() == 0 {
        Err((s, Error::StackUnderflow))
    } else if s.stack.len() == 1 {
        Err((Effect { stack: s.stack.drop_last(), ..s }, Error::StackUnderflow))
    } else {
        Ok(Effect { stack: binary_result(s.stack, op), ..s })
    }
}

/// The effect of one token in the basic interpreter: numeric literals are
/// pushed (a literal beyond the 64-bit range fails with `NotFound`), the
/// arithmetic and comparison operators and `.` and `emit` dispatch to the
/// operator table, and anything else fails with `NotFound`.
pub open spec fn interp_token(s: Effect, t: Seq<char>) -> Result<Effect, (Effect, Error)> {
    if is_num_tok(t) {
        if digits_val(t) <= i64::MAX {
            Ok(Effect { stack: s.stack.push(digits_val(t) as i64), ..s })
        } else {
            Err((s, Error::NotFound))
        }
    } else if t == "+"@ {
        binary_effect(s, BinaryOperation::Add)
    } else if t == "-"@ {
        binary_effect(s, BinaryOperation::Sub)
    } else if t == "*"@ {
        binary_effect(s, BinaryOperation::Mul)
    } else if t == "="@ {
        binary_effect(s, BinaryOperation::Eq)
    } else if t == ">"@ {
        binary_effect(s, BinaryOperation::Gt)
    } else if t == "<"@ {
        binary_effect(s, BinaryOperation::Lt)
    } else if t == "."@ {
        unary_effect(s, UnaryOperation::Dot)
    } else if t == "emit"@ {
        unary_effect(s, UnaryOperation::Emit)
    } else {
        Err((s, Error::NotFound))
    }
}

/// Executes the tokens from position `i` on, left to right, stopping at the
/// first failing token.
pub open spec fn interp_run(s: Effect, tokens: Seq<Seq<char>>, i: int) -> Result<
    Effect,
    (Effect, Error),
>
    decreases tokens.len() - i,
{
    if i < 0 || i >= tokens.len() {
        Ok(s)
    } else {
        match interp_token(s, tokens[i]) {
            Ok(s2) => interp_run(s2, tokens, i + 1),
            Err(p) => Err(p),
        }
    }
}

/// The basic interpreter: no dictionary, no cursor; each call of `exec`
/// walks the whole token buffer.
pub struct Interp {
    /// The operand stack.
    pub stack: Stack,
    tokens: Vec<String>,
    out: Vec<String>,
}

impl View for Interp {
    type V = InterpView;

    closed spec fn view(&self) -> InterpView {
        InterpView {
            stack: self.stack@,
            tokens: self.tokens.deep_view(),
            out: self.out.deep_view(),
        }
    }
}

impl Interp {
    /// A fresh interpreter with an empty stack and an empty token buffer.
    pub fn new() -> (r: Self)
        ensures
            r@ == (InterpView {
                stack: Seq::<i64>::empty(),
                tokens: Seq::<Seq<char>>::empty(),
                out: Seq::<Seq<char>>::empty(),
            }),
    {
        let r = Interp { stack: Stack::new(), tokens: Vec::new(), out: Vec::new() };
        proof {
            assert(r@ =~= InterpView {
                stack: Seq::<i64>::empty(),
                tokens: Seq::<Seq<char>>::empty(),
                out: Seq::<Seq<char>>::empty(),
            });
        }
        r
    }

    /// Replaces the token buffer with the tokens of `input`; the stack and
    /// the pending output are kept.
    pub fn parse(&mut self, input: String)
        ensures
            final(self)@ == (InterpView { tokens: split_ws(input@), ..old(self)@ }),
    {
        self.tokens = Utils::split(input);
        proof {
            assert(self@ =~= InterpView { tokens: split_ws(input@), ..old(self)@ });
        }
    }

    /// Applies a unary operator and appends its report, if any, to the
    /// pending output.
    fn do_unary(&mut self, op: UnaryOperation) -> (r: Result<(), Error>)
        ensures
            final(self)@.tokens == old(self)@.tokens,
            (unary_effect(eff(old(self)@), op) matches Ok(t) ==> r == Ok::<(), Error>(()) && eff(
                final(self)@,
            ) == t),
            (unary_effect(eff(old(self)@), op) matches Err(p) ==> r == Err::<(), Error>(p.1)
                && eff(final(self)@) == p.0),
    {
        match Op::unary(&mut self.stack, op) {
            Ok(Some(line)) => {
                let ghost prev = self.out.deep_view();
                let ghost l = line@;
                self.out.push(line);
                proof {
                    assert(self.out.deep_view() =~= prev.push(l));
                    assert(eff(self@) =~= Effect {
                        stack: unary_result(old(self)@.stack, op),
                        out: old(self)@.out.push(l),
                    });
                }
                Ok(())
            },
            Ok(None) => {
                proof {
                    assert(eff(self@) =~= Effect {
                        stack: unary_result(old(self)@.stack, op),
                        out: old(self)@.out,
                    });
                }
                Ok(())
            },
            Err(e) => {
                proof {
                    assert(eff(self@) =~= eff(old(self)@));
                }
                Err(e)
            },
        }
    }

    /// Applies a binary operator.
    fn do_binary(&mut self, op: BinaryOperation) -> (r: Result<(), Error>)
        ensures
            final(self)@.tokens == old(self)@.tokens,
            (binary_effect(eff(old(self)@), op) matches Ok(t) ==> r == Ok::<(), Error>(()) && eff(
                final(self)@,
            ) == t),
            (binary_effect(eff(old(self)@), op) matches Err(p) ==> r == Err::<(), Error>(p.1)
                && eff(final(self)@) == p.0),
    {
        let r = Op::binary(&mut self.stack, op);
        proof {
            if old(self)@.stack.len() == 0 {
                assert(eff(self@) =~= eff(old(self)@));
            } else if old(self)@.stack.len() == 1 {
                assert(eff(self@) =~= Effect {
                    stack: old(self)@.stack.drop_last(),
                    out: old(self)@.out,
                });
            } else {
                assert(eff(self@) =~= Effect {
                    stack: binary_result(old(self)@.stack, op),
                    out: old(self)@.out,
                });
            }
        }
        r
    }

    /// Executes the whole token buffer, left to right, aborting at the first
    /// failing token; stack mutations applied before a failure remain in
    /// effect.
    #[verifier::loop_isolation(false)]
    pub fn exec(&mut self) -> (r: Result<(), Error>)
        ensures
            final(self)@.tokens == old(self)@.tokens,
            (interp_run(eff(old(self)@), old(self)@.tokens, 0) matches Ok(t) ==> r == Ok::<
                (),
                Error,
            >(()) && eff(final(self)@) == t),
            (interp_run(eff(old(self)@), old(self)@.tokens, 0) matches Err(p) ==> r == Err::<
                (),
                Error,
            >(p.1) && eff(final(self)@) == p.0),
    {
        let ghost eff0 = eff(self@);
        let ghost toks = self@.tokens;
        let n = self.tokens.len();
        let mut i: usize = 0;
        while i < n
            invariant
                i <= n,
                n == toks.len(),
                self@.tokens == toks,
                interp_run(eff0, toks, 0) == interp_run(eff(self@), toks, i as int),
            decreases n - i,
        {
            let ghost pre = eff(self@);
            let token = self.tokens[i].clone();
            if Utils::is_num(token.as_str()) {
                match parse_num(token.as_str()) {
                    Some(v) => {
                        self.stack.push(v);
                        proof {
                            assert(eff(self@) =~= Effect { stack: pre.stack.push(v), ..pre });
                            assert(interp_token(pre, toks[i as int]) == Ok::<
                                Effect,
                                (Effect, Error),
                            >(eff(self@)));
                        }
                    },
                    None => {
                        proof {
                            assert(interp_token(pre, toks[i as int]) == Err::<
                                Effect,
                                (Effect, Error),
                            >((pre, Error::NotFound)));
                        }
                        return Err(Error::NotFound);
                    },
                }
            } else if tok_is(&token, "+") {
                match self.do_binary(BinaryOperation::Add) {
                    Ok(_) => {},
                    Err(e) => {
                        return Err(e);
                    },
                }
            } else if tok_is(&token, "-") {
                match self.do_binary(BinaryOperation::Sub) {
                    Ok(_) => {},
                    Err(e) => {
                        return Err(e);
                    },
                }
            } else if tok_is(&token, "*") {
                match self.do_binary(BinaryOperation::Mul) {
                    Ok(_) => {},
                    Err(e) => {
                        return Err(e);
                    },
                }
            } else if tok_is(&token, "=") {
                match self.do_binary(BinaryOperation::Eq) {
                    Ok(_) => {},
                    Err(e) => {
                        return Err(e);
                    },
                }
            } else if tok_is(&token, ">") {
                match self.do_binary(BinaryOperation::Gt) {
                    Ok(_) => {},
                    Err(e) => {
                        return Err(e);
                    },
                }
            } else if tok_is(&token, "<") {
                match self.do_binary(BinaryOperation::Lt) {
                    Ok(_) => {},
                    Err(e) => {
                        return Err(e);
                    },
                }
            } else if tok_is(&token, ".") {
                match self.do_unary(UnaryOperation::Dot) {
                    Ok(_) => {},
                    Err(e) => {
                        return Err(e);
                    },
                }
            } else if tok_is(&token, "emit") {
                match self.do_unary(UnaryOperation::Emit) {
                    Ok(_) => {},
                    Err(e) => {
                        return Err(e);
                    },
                }
            } else {
                proof {
                    assert(interp_token(pre, toks[i as int]) == Err::<Effect, (Effect, Error)>((
                        pre,
                        Error::NotFound,
                    )));
                }
                return Err(Error::NotFound);
            }
            i = i + 1;
        }
        Ok(())
    }

    /// The stack rendered for display: the values bottom-to-top in decimal,
    /// space-joined, with the top called out.
    pub fn contents(&mut self) -> (r: String)
        ensures
            final(self)@ == old(self)@,
            r@ == render_stack(old(self)@.stack),
    {
        render(self.stack.contents())
    }

    /// Hands over the lines the executed operators reported, oldest first,
    /// leaving no pending output behind.
    pub fn take_output(&mut self) -> (r: Vec<String>)
        ensures
            r.deep_view() == old(self)@.out,
            final(self)@ == (InterpView { out: Seq::<Seq<char>>::empty(), ..old(self)@ }),
    {
        let mut o: Vec<String> = Vec::new();
        core::mem::swap(&mut o, &mut self.out);
        proof {
            assert(self.out.deep_view() =~= Seq::<Seq<char>>::empty());
            assert(self@ =~= InterpView { out: Seq::<Seq<char>>::empty(), ..old(self)@ });
        }
        o
    }
}

} // verus!
