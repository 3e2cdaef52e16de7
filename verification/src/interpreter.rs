use vstd::prelude::*;

verus! {

use crate::error::Error;
use crate::op::{
    binary_result,
    ternary_result,
    unary_output,
    unary_result,
    BinaryOperation,
    Op,
    TernaryOperation,
    UnaryOperation,
};
use crate::render::{render, render_stack};
use crate::stack::Stack;
use crate::utils::{digits_val, is_num_tok, join, join_spaces, parse_num, split_ws, tok_is, Utils};

/// The mathematical state of an interpreter: the operand stack, the token
/// buffer with its cursor, the dictionary of user-defined words, and the
/// lines reported to the caller so far.
#[verifier::ext_equal]
pub struct State {
    pub stack: Seq<i64>,
    pub tokens: Seq<Seq<char>>,
    pub ptr: int,
    pub dict: Map<Seq<char>, Seq<char>>,
    pub out: Seq<Seq<char>>,
}

/// Whether every token of the buffer has been consumed.
pub open spec fn done(s: State) -> bool {
    s.ptr >= s.tokens.len()
}

/// The index of the first occurrence of `t` in `tokens` at or after `i`, or
/// the buffer length when there is none.
pub open spec fn find_from(tokens: Seq<Seq<char>>, i: int, t: Seq<char>) -> int
    decreases tokens.len() - i,
{
    if i >= tokens.len() {
        tokens.len() as int
    } else if tokens[i] == t {
        i
    } else {
        find_from(tokens, i + 1, t)
    }
}

/// The effect of a unary operator: underflow on an empty stack; otherwise
/// the stack is transformed and the operator's report, if any, is appended
/// to the output.
pub open spec fn unary_step(s: State, op: UnaryOperation) -> Result<State, (State, Error)> {
    if s.stack.len() == 0 {
        Err((s, Error::StackUnderflow))
    } else {
        let s2 = State { stack: unary_result(s.stack, op), ..s };
        match unary_output(s.stack, op) {
            Some(line) => Ok(State { out: s2.out.push(line), ..s2 }),
            None => Ok(s2),
        }
    }
}

/// The effect of a binary operator: the failing pop leaves the operands
/// popped so far removed.
pub open spec fn binary_step(s: State, op: BinaryOperation) -> Result<State, (State, Error)> {
    if s.stack.len() == 0 {
        Err((s, Error::StackUnderflow))
    } else if s.stack.len() == 1 {
        Err((State { stack: s.stack.drop_last(), ..s }, Error::StackUnderflow))
    } else {
        Ok(State { stack: binary_result(s.stack, op), ..s })
    }
}

/// The effect of a ternary operator.
pub open spec fn ternary_step(s: State, op: TernaryOperation) -> Result<State, (State, Error)> {
    if s.stack.len() <= 2 {
        Err((State { stack: Seq::<i64>::empty(), ..s }, Error::StackUnderflow))
    } else {
        Ok(State { stack: ternary_result(s.stack, op), ..s })
    }
}

/// The effect of the defining word: reads the next token as the new word's
/// name, consumes tokens up to the next `;`, and stores them space-joined in
/// the dictionary. Running out of tokens fails with `TokenOutOfBounds`.
/// `s1` is the state with the `:` token itself already consumed.
pub open spec fn define_step(s1: State) -> Result<State, (State, Error)> {
    if s1.ptr >= s1.tokens.len() {
        Err((s1, Error::TokenOutOfBounds))
    } else {
        let name = s1.tokens[s1.ptr];
        let c0 = s1.ptr + 1;
        let j = find_from(s1.tokens, c0, ";"@);
        if j == s1.tokens.len() {
            Err((State { ptr: j, ..s1 }, Error::TokenOutOfBounds))
        } else {
            Ok(
                State {
                    ptr: j,
                    dict: s1.dict.insert(name, join_spaces(s1.tokens.subrange(c0, j))),
                    ..s1
                },
            )
        }
    }
}

/// Consumes the next unread token and applies its effect: numeric literals
/// are pushed (a literal beyond the 64-bit range fails with `NotFound`);
/// a known word's stored body is re-tokenized and appended to the end of the
/// buffer; operator keywords dispatch to the operator table; `;` alone is a
/// no-op; `:` captures a definition; anything else fails with `NotFound`.
pub open spec fn step(s: State) -> Result<State, (State, Error)>
    recommends
        !done(s),
{
    let t = s.tokens[s.ptr];
    let s1 = State { ptr: s.ptr + 1, ..s };
    if is_num_tok(t) {
        if digits_val(t) <= i64::MAX {
            Ok(State { stack: s1.stack.push(digits_val(t) as i64), ..s1 })
        } else {
            Err((s1, Error::NotFound))
        }
    } else if s.dict.contains_key(t) {
        Ok(State { tokens: s.tokens + split_ws(s.dict[t]), ..s1 })
    } else if t == "dup"@ {
        unary_step(s1, UnaryOperation::Dup)
    } else if t == "over"@ {
        binary_step(s1, BinaryOperation::Over)
    } else if t == "emit"@ {
        unary_step(s1, UnaryOperation::Emit)
    } else if t == "cr"@ {
        unary_step(s1, UnaryOperation::Cr)
    } else if t == "drop"@ {
        unary_step(s1, UnaryOperation::Drop)
    } else if t == "."@ {
        unary_step(s1, UnaryOperation::Dot)
    } else if t == "+"@ {
        binary_step(s1, BinaryOperation::Add)
    } else if t == "-"@ {
        binary_step(s1, BinaryOperation::Sub)
    } else if t == "*"@ {
        binary_step(s1, BinaryOperation::Mul)
    } else if t == "="@ {
        binary_step(s1, BinaryOperation::Eq)
    } else if t == ">"@ {
        binary_step(s1, BinaryOperation::Gt)
    } else if t == "<"@ {
        binary_step(s1, BinaryOperation::Lt)
    } else if t == "swap"@ {
        binary_step(s1, BinaryOperation::Swap)
    } else if t == "rot"@ {
        ternary_step(s1, TernaryOperation::Rot)
    } else if t == ";"@ {
        Ok(s1)
    } else if t == ":"@ {
        define_step(s1)
    } else {
        Err((s1, Error::NotFound))
    }
}

/// The state after exactly `k` successful steps, or `None` when execution
/// finishes or fails earlier.
pub open spec fn run_steps(s: State, k: nat) -> Option<State>
    decreases k,
{
    if k == 0 {
        Some(s)
    } else if done(s) {
        None
    } else {
        match step(s) {
            Ok(s2) => run_steps(s2, (k - 1) as nat),
            Err(_) => None,
        }
    }
}

/// The outcome of the execution loop within `fuel` steps: the terminal state
/// together with the result the loop reports, or `None` when `fuel` steps do
/// not suffice.
pub open spec fn run(s: State, fuel: nat) -> Option<(State, Result<(), Error>)>
    decreases fuel,
{
    if done(s) {
        Some((s, Ok(())))
    } else if fuel == 0 {
        None
    } else {
        match step(s) {
            Ok(s2) => run(s2, (fuel - 1) as nat),
            Err((s2, e)) => Some((s2, Err(e))),
        }
    }
}

proof fn lemma_run_steps_snoc(s0: State, k: nat, t: State, t2: State)
    requires
        run_steps(s0, k) == Some(t),
        !done(t),
        step(t) == Ok::<State, (State, Error)>(t2),
    ensures
        run_steps(s0, (k + 1) as nat) == Some(t2),
    decreases k,
{
    if k == 0 {
        assert(run_steps(t2, 0nat) == Some(t2));
    } else {
        lemma_run_steps_snoc(step(s0)->Ok_0, (k - 1) as nat, t, t2);
    }
}

proof fn lemma_run_of_steps_done(s0: State, k: nat, t: State)
    requires
        run_steps(s0, k) == Some(t),
        done(t),
    ensures
        run(s0, k) == Some((t, Ok::<(), Error>(()))),
    decreases k,
{
    if k == 0 {
    } else {
        lemma_run_of_steps_done(step(s0)->Ok_0, (k - 1) as nat, t);
    }
}

proof fn lemma_run_of_steps_err(s0: State, k: nat, t: State, t2: State, e: Error)
    requires
        run_steps(s0, k) == Some(t),
        !done(t),
        step(t) == Err::<State, (State, Error)>((t2, e)),
    ensures
        run(s0, (k + 1) as nat) == Some((t2, Err::<(), Error>(e))),
    decreases k,
{
    if k == 0 {
    } else {
        lemma_run_of_steps_err(step(s0)->Ok_0, (k - 1) as nat, t, t2, e);
    }
}

/// Law: execution is deterministic — whenever the `run` relation reaches an
/// outcome at all, that outcome is unique, whatever fuel witnesses it. So
/// `exec`'s contract pins the terminal state and result exactly; in
/// particular, after a failing `exec` the stack holds exactly the mutations
/// the tokens before the failure applied.
pub proof fn lemma_run_deterministic(s: State, n1: nat, n2: nat)
    requires
        run(s, n1) is Some,
        run(s, n2) is Some,
    ensures
        run(s, n1) == run(s, n2),
    decreases n1,
{
    if !done(s) && n1 > 0 && n2 > 0 {
        match step(s) {
            Ok(s2) => lemma_run_deterministic(s2, (n1 - 1) as nat, (n2 - 1) as nat),
            Err(_) => {},
        }
    }
}

/// The dictionary denoted by an association list, later entries overriding
/// earlier ones.
pub open spec fn dict_view(entries: Seq<(Seq<char>, Seq<char>)>) -> Map<Seq<char>, Seq<char>>
    decreases entries.len(),
{
    if entries.len() == 0 {
        Map::<Seq<char>, Seq<char>>::empty()
    } else {
        dict_view(entries.drop_last()).insert(entries.last().0, entries.last().1)
    }
}

proof fn lemma_find_from_at(tokens: Seq<Seq<char>>, c0: int, i: int, t: Seq<char>)
    requires
        c0 <= i <= tokens.len(),
        forall|j: int| c0 <= j < i ==> tokens[j] != t,
        i < tokens.len() ==> tokens[i] == t,
    ensures
        find_from(tokens, c0, t) == if i < tokens.len() {
            i
        } else {
            tokens.len() as int
        },
    decreases i - c0,
{
    if c0 < i {
        lemma_find_from_at(tokens, c0 + 1, i, t);
    }
}

proof fn lemma_dict_view_found(entries: Seq<(Seq<char>, Seq<char>)>, i: int, k: Seq<char>)
    requires
        0 <= i < entries.len(),
        entries[i].0 == k,
        forall|j: int| i < j < entries.len() ==> (#[trigger] entries[j]).0 != k,
    ensures
        dict_view(entries).contains_key(k),
        dict_view(entries)[k] == entries[i].1,
    decreases entries.len(),
{
    if i == entries.len() - 1 {
    } else {
        assert(entries.drop_last()[i] == entries[i]);
        lemma_dict_view_found(entries.drop_last(), i, k);
    }
}

proof fn lemma_dict_view_absent(entries: Seq<(Seq<char>, Seq<char>)>, k: Seq<char>)
    requires
        forall|j: int| 0 <= j < entries.len() ==> (#[trigger] entries[j]).0 != k,
    ensures
        !dict_view(entries).contains_key(k),
    decreases entries.len(),
{
    if entries.len() > 0 {
        lemma_dict_view_absent(entries.drop_last(), k);
    }
}

/// The interpreter: owns the operand stack, the token buffer with its
/// cursor, the dictionary of user-defined words, and the output lines not
/// yet handed to the caller.
pub struct Interpreter {
    /// The operand stack.
    pub stack: Stack,
    tokens: Vec<String>,
    variables: Vec<(String, String)>,
    ptr: usize,
    out: Vec<String>,
}

impl View for Interpreter {
    type V = State;

    closed spec fn view(&self) -> State {
        State {
            stack: self.stack@,
            tokens: self.tokens.deep_view(),
            ptr: self.ptr as int,
            dict: dict_view(self.variables.deep_view()),
            out: self.out.deep_view(),
        }
    }
}

impl Interpreter {
    /// A fresh interpreter: empty stack, empty buffer, empty dictionary.
    pub fn new() -> (r: Self)
        ensures
            r@ == (State {
                stack: Seq::<i64>::empty(),
                tokens: Seq::<Seq<char>>::empty(),
                ptr: 0,
                dict: Map::<Seq<char>, Seq<char>>::empty(),
                out: Seq::<Seq<char>>::empty(),
            }),
    {
        let r = Interpreter {
            stack: Stack::new(),
            tokens: Vec::new(),
            variables: Vec::new(),
            ptr: 0,
            out: Vec::new(),
        };
        proof {
            assert(r@ =~= State {
                stack: Seq::<i64>::empty(),
                tokens: Seq::<Seq<char>>::empty(),
                ptr: 0,
                dict: Map::<Seq<char>, Seq<char>>::empty(),
                out: Seq::<Seq<char>>::empty(),
            });
        }
        r
    }

    /// Replaces the token buffer with the tokens of `input` and resets the
    /// cursor; the stack, the dictionary and the pending output are kept.
    /// Returns the interpreter itself, so that `exec` can be chained.
    pub fn parse(&mut self, input: String) -> (r: &mut Self)
        ensures
            (*r)@ == (State { tokens: split_ws(input@), ptr: 0, ..old(self)@ }),
            *final(self) == *final(r),
    {
        self.tokens = Utils::split(input);
        self.reset();
        proof {
            assert(self@ =~= State { tokens: split_ws(input@), ptr: 0, ..old(self)@ });
        }
        self
    }

    /// Consumes and returns the next unread token; fails with
    /// `TokenOutOfBounds` (leaving the state unchanged) when none remains.
    pub fn get_next(&mut self) -> (r: Result<String, Error>)
        ensures
            old(self)@.ptr < old(self)@.tokens.len() ==> {
                &&& r matches Ok(t) && t@ == old(self)@.tokens[old(self)@.ptr]
                &&& final(self)@ == (State { ptr: old(self)@.ptr + 1, ..old(self)@ })
            },
            old(self)@.ptr >= old(self)@.tokens.len() ==> {
                &&& r == Err::<String, Error>(Error::TokenOutOfBounds)
                &&& final(self)@ == old(self)@
            },
    {
        if self.ptr < self.tokens.len() {
            let ret = self.tokens[self.ptr].clone();
            self.ptr = self.ptr + 1;
            proof {
                assert(self@ =~= State { ptr: old(self)@.ptr + 1, ..old(self)@ });
            }
            Ok(ret)
        } else {
            Err(Error::TokenOutOfBounds)
        }
    }

    /// Returns the next unread token without consuming it; fails with
    /// `TokenOutOfBounds` when none remains.
    pub fn peek_next(&mut self) -> (r: Result<String, Error>)
        ensures
            final(self)@ == old(self)@,
            old(self)@.ptr < old(self)@.tokens.len() ==> (r matches Ok(t) && t@ == old(self)@.tokens[old(self)@.ptr]),
            old(self)@.ptr >= old(self)@.tokens.len() ==> r == Err::<String, Error>(
                Error::TokenOutOfBounds,
            ),
    {
        if self.has_next() {
            let ret = self.tokens[self.ptr].clone();
            Ok(ret)
        } else {
            Err(Error::TokenOutOfBounds)
        }
    }

    /// Whether an unread token remains.
    pub fn has_next(&mut self) -> (r: bool)
        ensures
            final(self)@ == old(self)@,
            r == (old(self)@.ptr < old(self)@.tokens.len()),
    {
        self.ptr < self.tokens.len()
    }

    /// Moves the cursor back to the first token.
    pub fn reset(&mut self)
        ensures
            final(self)@ == (State { ptr: 0, ..old(self)@ }),
    {
        self.ptr = 0;
        proof {
            assert(self@ =~= State { ptr: 0, ..old(self)@ });
        }
    }

    /// Looks a word up in the dictionary, returning a copy of its stored
    /// definition body.
    fn lookup(&self, name: &String) -> (r: Option<String>)
        ensures
            self@.dict.contains_key(name@) ==> (r matches Some(v) && v@ == self@.dict[name@]),
            !self@.dict.contains_key(name@) ==> r is None,
    {
        let ghost entries = self.variables.deep_view();
        let mut i: usize = self.variables.len();
        while i > 0
            invariant
                i <= self.variables.len(),
                entries == self.variables.deep_view(),
                forall|j: int| i <= j < entries.len() ==> (#[trigger] entries[j]).0 != name@,
            decreases i,
        {
            i = i - 1;
            if self.variables[i].0 == *name {
                proof {
                    lemma_dict_view_found(entries, i as int, name@);
                }
                return Some(self.variables[i].1.clone());
            }
        }
        proof {
            lemma_dict_view_absent(entries, name@);
        }
        None
    }

    /// Stores `value` as the definition body of `name`, overriding any
    /// earlier definition.
    fn insert(&mut self, name: String, value: String)
        ensures
            final(self)@ == (State { dict: old(self)@.dict.insert(name@, value@), ..old(self)@ }),
    {
        let ghost entries = self.variables.deep_view();
        self.variables.push((name, value));
        proof {
            assert(self.variables.deep_view() =~= entries.push((name@, value@)));
            assert(self.variables.deep_view().drop_last() =~= entries);
            assert(self@ =~= State { dict: old(self)@.dict.insert(name@, value@), ..old(self)@ });
        }
    }

    /// Applies a unary operator to the stack and appends its report, if any,
    /// to the pending output.
    fn do_unary(&mut self, op: UnaryOperation) -> (r: Result<(), Error>)
        ensures
            (unary_step(old(self)@, op) matches Ok(t) ==> r == Ok::<(), Error>(()) && final(self)@
                == t),
            (unary_step(old(self)@, op) matches Err(p) ==> r == Err::<(), Error>(p.1) && final(self)@ == p.0),
    {
        match Op::unary(&mut self.stack, op) {
            Ok(Some(line)) => {
                let ghost prev = self.out.deep_view();
                let ghost l = line@;
                self.out.push(line);
                proof {
                    assert(self.out.deep_view() =~= prev.push(l));
                    assert(self@ =~= State {
                        stack: unary_result(old(self)@.stack, op),
                        out: old(self)@.out.push(l),
                        ..old(self)@
                    });
                }
                Ok(())
            },
            Ok(None) => {
                proof {
                    assert(self@ =~= State {
                        stack: unary_result(old(self)@.stack, op),
                        ..old(self)@
                    });
                }
                Ok(())
            },
            Err(e) => {
                proof {
                    assert(self@ =~= old(self)@);
                }
                Err(e)
            },
        }
    }

    /// Applies a binary operator to the stack.
    fn do_binary(&mut self, op: BinaryOperation) -> (r: Result<(), Error>)
        ensures
            (binary_step(old(self)@, op) matches Ok(t) ==> r == Ok::<(), Error>(()) && final(self)@ == t),
            (binary_step(old(self)@, op) matches Err(p) ==> r == Err::<(), Error>(p.1) && final(self)@ == p.0),
    {
        let r = Op::binary(&mut self.stack, op);
        proof {
            if old(self)@.stack.len() == 0 {
                assert(self@ =~= old(self)@);
            } else if old(self)@.stack.len() == 1 {
                assert(self@ =~= State {
                    stack: old(self)@.stack.drop_last(),
                    ..old(self)@
                });
            } else {
                assert(self@ =~= State {
                    stack: binary_result(old(self)@.stack, op),
                    ..old(self)@
                });
            }
        }
        r
    }

    /// Applies a ternary operator to the stack.
    fn do_ternary(&mut self, op: TernaryOperation) -> (r: Result<(), Error>)
        ensures
            (ternary_step(old(self)@, op) matches Ok(t) ==> r == Ok::<(), Error>(()) && final(self)@ == t),
            (ternary_step(old(self)@, op) matches Err(p) ==> r == Err::<(), Error>(p.1) && final(self)@ == p.0),
    {
        let r = Op::ternary(&mut self.stack, op);
        proof {
            if old(self)@.stack.len() <= 2 {
                assert(self@ =~= State {
                    stack: Seq::<i64>::empty(),
                    ..old(self)@
                });
            } else {
                assert(self@ =~= State {
                    stack: ternary_result(old(self)@.stack, op),
                    ..old(self)@
                });
            }
        }
        r
    }

    /// Runs the execution loop: consumes tokens left to right per the `step`
    /// relation until the buffer is exhausted or a token fails, whichever
    /// comes first. Stack and dictionary mutations applied before a failure
    /// remain in effect.
    #[verifier::loop_isolation(false)]
    #[verifier::rlimit(50)]
    pub fn exec(&mut self) -> (r: Result<(), Error>)
        ensures
            exists|n: nat| run(old(self)@, n) == Some((final(self)@, r)),
    {
        let ghost s0 = self@;
        let ghost mut steps: nat = 0nat;
        loop
            invariant
                run_steps(s0, steps) == Some(self@),
            decreases usize::MAX - self.ptr,
        {
            let ghost pre = self@;
            if !self.has_next() {
                proof {
                    lemma_run_of_steps_done(s0, steps, pre);
                    assert(run(s0, steps) == Some((self@, Ok::<(), Error>(()))));
                }
                return Ok(());
            }
            let token = match self.get_next() {
                Ok(t) => t,
                Err(_) => vstd::pervasive::unreached(),
            };
            let ghost s1 = self@;
            if Utils::is_num(token.as_str()) {
                match parse_num(token.as_str()) {
                    Some(v) => {
                        self.stack.push(v);
                        proof {
                            assert(self@ =~= State { stack: s1.stack.push(v), ..s1 });
                            assert(step(pre) == Ok::<State, (State, Error)>(self@));
                            lemma_run_steps_snoc(s0, steps, pre, self@);
                            steps = steps + 1nat;
                        }
                    },
                    None => {
                        proof {
                            assert(step(pre) == Err::<State, (State, Error)>((
                                s1,
                                Error::NotFound,
                            )));
                            lemma_run_of_steps_err(s0, steps, pre, s1, Error::NotFound);
                        }
                        return Err(Error::NotFound);
                    },
                }
            } else if let Some(val) = self.lookup(&token) {
                let ghost prev = self.tokens.deep_view();
                let mut extra = Utils::split(val);
                self.tokens.append(&mut extra);
                proof {
                    assert(self.tokens.deep_view() =~= prev + split_ws(pre.dict[token@]));
                    assert(self@ =~= State {
                        tokens: pre.tokens + split_ws(pre.dict[token@]),
                        ..s1
                    });
                    assert(step(pre) == Ok::<State, (State, Error)>(self@));
                    lemma_run_steps_snoc(s0, steps, pre, self@);
                    steps = steps + 1nat;
                }
            } else if tok_is(&token, "dup") {
                match self.do_unary(UnaryOperation::Dup) {
                    Ok(_) => {
                        proof {
                            lemma_run_steps_snoc(s0, steps, pre, self@);
                            steps = steps + 1nat;
                        }
                    },
                    Err(e) => {
                        proof {
                            lemma_run_of_steps_err(s0, steps, pre, self@, e);
                        }
                        return Err(e);
                    },
                }
            } else if tok_is(&token, "over") {
                match self.do_binary(BinaryOperation::Over) {
                    Ok(_) => {
                        proof {
                            lemma_run_steps_snoc(s0, steps, pre, self@);
                            steps = steps + 1nat;
                        }
                    },
                    Err(e) => {
                        proof {
                            lemma_run_of_steps_err(s0, steps, pre, self@, e);
                        }
                        return Err(e);
                    },
                }
            } else if tok_is(&token, "emit") {
                match self.do_unary(UnaryOperation::Emit) {
                    Ok(_) => {
                        proof {
                            lemma_run_steps_snoc(s0, steps, pre, self@);
                            steps = steps + 1nat;
                        }
                    },
                    Err(e) => {
                        proof {
                            lemma_run_of_steps_err(s0, steps, pre, self@, e);
                        }
                        return Err(e);
                    },
                }
            } else if tok_is(&token, "cr") {
                match self.do_unary(UnaryOperation::Cr) {
                    Ok(_) => {
                        proof {
                            lemma_run_steps_snoc(s0, steps, pre, self@);
                            steps = steps + 1nat;
                        }
                    },
                    Err(e) => {
                        proof {
                            lemma_run_of_steps_err(s0, steps, pre, self@, e);
                        }
                        return Err(e);
                    },
                }
            } else if tok_is(&token, "drop") {
                match self.do_unary(UnaryOperation::Drop) {
                    Ok(_) => {
                        proof {
                            lemma_run_steps_snoc(s0, steps, pre, self@);
                            steps = steps + 1nat;
                        }
                    },
                    Err(e) => {
                        proof {
                            lemma_run_of_steps_err(s0, steps, pre, self@, e);
                        }
                        return Err(e);
                    },
                }
            } else if tok_is(&token, ".") {
                match self.do_unary(UnaryOperation::Dot) {
                    Ok(_) => {
                        proof {
                            lemma_run_steps_snoc(s0, steps, pre, self@);
                            steps = steps + 1nat;
                        }
                    },
                    Err(e) => {
                        proof {
                            lemma_run_of_steps_err(s0, steps, pre, self@, e);
                        }
                        return Err(e);
                    },
                }
            } else if tok_is(&token, "+") {
                match self.do_binary(BinaryOperation::Add) {
                    Ok(_) => {
                        proof {
                            lemma_run_steps_snoc(s0, steps, pre, self@);
                            steps = steps + 1nat;
                        }
                    },
                    Err(e) => {
                        proof {
                            lemma_run_of_steps_err(s0, steps, pre, self@, e);
                        }
                        return Err(e);
                    },
                }
            } else if tok_is(&token, "-") {
                match self.do_binary(BinaryOperation::Sub) {
                    Ok(_) => {
                        proof {
                            lemma_run_steps_snoc(s0, steps, pre, self@);
                            steps = steps + 1nat;
                        }
                    },
                    Err(e) => {
                        proof {
                            lemma_run_of_steps_err(s0, steps, pre, self@, e);
                        }
                        return Err(e);
                    },
                }
            } else if tok_is(&token, "*") {
                match self.do_binary(BinaryOperation::Mul) {
                    Ok(_) => {
                        proof {
                            lemma_run_steps_snoc(s0, steps, pre, self@);
                            steps = steps + 1nat;
                        }
                    },
                    Err(e) => {
                        proof {
                            lemma_run_of_steps_err(s0, steps, pre, self@, e);
                        }
                        return Err(e);
                    },
                }
            } else if tok_is(&token, "=") {
                match self.do_binary(BinaryOperation::Eq) {
                    Ok(_) => {
                        proof {
                            lemma_run_steps_snoc(s0, steps, pre, self@);
                            steps = steps + 1nat;
                        }
                    },
                    Err(e) => {
                        proof {
                            lemma_run_of_steps_err(s0, steps, pre, self@, e);
                        }
                        return Err(e);
                    },
                }
            } else if tok_is(&token, ">") {
                match self.do_binary(BinaryOperation::Gt) {
                    Ok(_) => {
                        proof {
                            lemma_run_steps_snoc(s0, steps, pre, self@);
                            steps = steps + 1nat;
                        }
                    },
                    Err(e) => {
                        proof {
                            lemma_run_of_steps_err(s0, steps, pre, self@, e);
                        }
                        return Err(e);
                    },
                }
            } else if tok_is(&token, "<") {
                match self.do_binary(BinaryOperation::Lt) {
                    Ok(_) => {
                        proof {
                            lemma_run_steps_snoc(s0, steps, pre, self@);
                            steps = steps + 1nat;
                        }
                    },
                    Err(e) => {
                        proof {
                            lemma_run_of_steps_err(s0, steps, pre, self@, e);
                        }
                        return Err(e);
                    },
                }
            } else if tok_is(&token, "swap") {
                match self.do_binary(BinaryOperation::Swap) {
                    Ok(_) => {
                        proof {
                            lemma_run_steps_snoc(s0, steps, pre, self@);
                            steps = steps + 1nat;
                        }
                    },
                    Err(e) => {
                        proof {
                            lemma_run_of_steps_err(s0, steps, pre, self@, e);
                        }
                        return Err(e);
                    },
                }
            } else if tok_is(&token, "rot") {
                match self.do_ternary(TernaryOperation::Rot) {
                    Ok(_) => {
                        proof {
                            lemma_run_steps_snoc(s0, steps, pre, self@);
                            steps = steps + 1nat;
                        }
                    },
                    Err(e) => {
                        proof {
                            lemma_run_of_steps_err(s0, steps, pre, self@, e);
                        }
                        return Err(e);
                    },
                }
            } else if tok_is(&token, ";") {
                proof {
                    assert(step(pre) == Ok::<State, (State, Error)>(s1));
                    lemma_run_steps_snoc(s0, steps, pre, self@);
                    steps = steps + 1nat;
                }
            } else if tok_is(&token, ":") {
                proof {
                    assert(step(pre) == define_step(s1));
                }
                let name = match self.get_next() {
                    Ok(n) => n,
                    Err(e) => {
                        proof {
                            lemma_run_of_steps_err(s0, steps, pre, s1, Error::TokenOutOfBounds);
                        }
                        return Err(e);
                    },
                };
                let ghost c0 = s1.ptr + 1;
                let mut value: Vec<String> = Vec::new();
                loop
                    invariant
                        run_steps(s0, steps) == Some(pre),
                        !done(pre),
                        step(pre) == define_step(s1),
                        s1 == (State { ptr: pre.ptr + 1, ..pre }),
                        0 <= pre.ptr,
                        s1.ptr < s1.tokens.len(),
                        name@ == s1.tokens[s1.ptr],
                        c0 == s1.ptr + 1,
                        self@ == (State { ptr: self@.ptr, ..s1 }),
                        c0 <= self@.ptr <= s1.tokens.len(),
                        value.deep_view() =~= s1.tokens.subrange(c0, self@.ptr),
                        forall|j: int| c0 <= j < self@.ptr ==> s1.tokens[j] != ";"@,
                    decreases s1.tokens.len() - self@.ptr,
                {
                    let ghost i = self@.ptr;
                    let p = match self.peek_next() {
                        Ok(p) => p,
                        Err(e) => {
                            proof {
                                lemma_find_from_at(s1.tokens, c0, i, ";"@);
                                assert(self@ =~= State { ptr: s1.tokens.len() as int, ..s1 });
                                lemma_run_of_steps_err(
                                    s0,
                                    steps,
                                    pre,
                                    self@,
                                    Error::TokenOutOfBounds,
                                );
                            }
                            return Err(e);
                        },
                    };
                    if tok_is(&p, ";") {
                        break ;
                    }
                    let tk = match self.get_next() {
                        Ok(t) => t,
                        Err(_) => vstd::pervasive::unreached(),
                    };
                    let ghost prevv = value.deep_view();
                    let ghost tkv = tk@;
                    value.push(tk);
                    proof {
                        assert(value.deep_view() =~= prevv.push(tkv));
                        assert(s1.tokens.subrange(c0, i + 1) =~= s1.tokens.subrange(c0, i).push(
                            s1.tokens[i],
                        ));
                        assert(self@ =~= State { ptr: i + 1, ..s1 });
                    }
                }
                let ghost i = self@.ptr;
                let body = join(&value);
                self.insert(name, body);
                proof {
                    lemma_find_from_at(s1.tokens, c0, i, ";"@);
                    assert(find_from(s1.tokens, c0, ";"@) == i);
                    assert(self@ =~= State {
                        ptr: i,
                        dict: s1.dict.insert(name@, join_spaces(s1.tokens.subrange(c0, i))),
                        ..s1
                    });
                    assert(step(pre) == Ok::<State, (State, Error)>(self@));
                    lemma_run_steps_snoc(s0, steps, pre, self@);
                    steps = steps + 1nat;
                }
            } else {
                proof {
                    assert(step(pre) == Err::<State, (State, Error)>((s1, Error::NotFound)));
                    lemma_run_of_steps_err(s0, steps, pre, s1, Error::NotFound);
                }
                return Err(Error::NotFound);
            }
        }
    }

    /// The stack rendered for display: the values bottom-to-top in decimal,
    /// space-joined, with the top called out.
    pub fn contents(&mut self) -> (r: String)
        ensures
            final(self)@ == old(self)@,
            r@ == render_stack(old(self)@.stack),
    {
        render(self.stack.contents())
    }

    /// Law: `contents` is idempotent. Its result is a function of the stack
    /// alone and the call leaves the interpreter unchanged, so two calls
    /// without an intervening `exec` or `parse` return identical text:
    /// `r1` and `r2` stand for the two results, each constrained exactly as
    /// `contents`'s contract constrains them on the unchanged state `s`.
    pub proof fn lemma_contents_idempotent(s: State, r1: Seq<char>, r2: Seq<char>)
        requires
            r1 == render_stack(s.stack),
            r2 == render_stack(s.stack),
        ensures
            r1 == r2,
    {
    }

    /// Hands over the lines the executed operators reported, oldest first,
    /// leaving no pending output behind.
    pub fn take_output(&mut self) -> (r: Vec<String>)
        ensures
            r.deep_view() == old(self)@.out,
            final(self)@ == (State { out: Seq::<Seq<char>>::empty(), ..old(self)@ }),
    {
        let mut o: Vec<String> = Vec::new();
        core::mem::swap(&mut o, &mut self.out);
        proof {
            assert(self.out.deep_view() =~= Seq::<Seq<char>>::empty());
            assert(self@ =~= State { out: Seq::<Seq<char>>::empty(), ..old(self)@ });
        }
        o
    }
}

} // verus!
