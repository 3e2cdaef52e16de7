use vstd::prelude::*;

verus! {

/// Whitespace for tokenization purposes: the characters with the Unicode
/// `White_Space` property.
pub open spec fn is_ws_char(c: char) -> bool {
    ||| c == ' '
    ||| c == '\t'
    ||| c == '\n'
    ||| c == '\u{b}'
    ||| c == '\u{c}'
    ||| c == '\r'
    ||| c == '\u{85}'
    ||| c == '\u{a0}'
    ||| c == '\u{1680}'
    ||| c == '\u{2000}'
    ||| c == '\u{2001}'
    ||| c == '\u{2002}'
    ||| c == '\u{2003}'
    ||| c == '\u{2004}'
    ||| c == '\u{2005}'
    ||| c == '\u{2006}'
    ||| c == '\u{2007}'
    ||| c == '\u{2008}'
    ||| c == '\u{2009}'
    ||| c == '\u{200a}'
    ||| c == '\u{2028}'
    ||| c == '\u{2029}'
    ||| c == '\u{202f}'
    ||| c == '\u{205f}'
    ||| c == '\u{3000}'
}

/// One step of the tokenizing fold: a whitespace character closes the token
/// under construction (if any); any other character extends it.
pub open spec fn split_step(
    st: (Seq<Seq<char>>, Seq<char>),
    c: char,
) -> (Seq<Seq<char>>, Seq<char>) {
    if is_ws_char(c) {
        if st.1.len() > 0 {
            (st.0.push(st.1), Seq::<char>::empty())
        } else {
            st
        }
    } else {
        (st.0, st.1.push(c))
    }
}

/// Folds `split_step` over `s`, yielding the finished tokens together with
/// the token still under construction.
pub open spec fn split_fold(s: Seq<char>) -> (Seq<Seq<char>>, Seq<char>)
    decreases s.len(),
{
    if s.len() == 0 {
        (Seq::<Seq<char>>::empty(), Seq::<char>::empty())
    } else {
        split_step(split_fold(s.drop_last()), s.last())
    }
}

/// The whitespace-separated tokens of `s`, in order of appearance.
pub open spec fn split_ws(s: Seq<char>) -> Seq<Seq<char>> {
    let st = split_fold(s);
    if st.1.len() > 0 {
        st.0.push(st.1)
    } else {
        st.0
    }
}

/// A decimal digit.
pub open spec fn is_digit_char(c: char) -> bool {
    48 <= c as int && c as int <= 57
}

/// The all-digits lexical test for numeric literals. Vacuously true of the
/// empty sequence, exactly as the character-by-character scan decides it.
pub open spec fn is_num_tok(t: Seq<char>) -> bool {
    forall|i: int| 0 <= i < t.len() ==> is_digit_char(#[trigger] t[i])
}

/// The value of a digit sequence read in base ten (0 for the empty sequence).
pub open spec fn digits_val(t: Seq<char>) -> int
    decreases t.len(),
{
    if t.len() == 0 {
        0
    } else {
        digits_val(t.drop_last()) * 10 + (t.last() as int - 48)
    }
}

/// Relies on String::push: appends the single character to the end.
#[verifier::external_body]
pub(crate) fn push_char(s: &mut String, c: char)
    ensures
        final(s)@ == old(s)@.push(c),
{
    s.push(c);
}

/// Compares a token against a keyword.
pub(crate) fn tok_is(t: &String, lit: &str) -> (r: bool)
    ensures
        r == (t@ == lit@),
{
    let l = String::from_str(lit);
    *t == l
}

fn is_ws(c: char) -> (r: bool)
    ensures
        r == is_ws_char(c),
{
    c == ' ' || c == '\t' || c == '\n' || c == '\u{b}' || c == '\u{c}' || c == '\r'
        || c == '\u{85}' || c == '\u{a0}' || c == '\u{1680}' || c == '\u{2000}' || c == '\u{2001}'
        || c == '\u{2002}' || c == '\u{2003}' || c == '\u{2004}' || c == '\u{2005}'
        || c == '\u{2006}' || c == '\u{2007}' || c == '\u{2008}' || c == '\u{2009}'
        || c == '\u{200a}' || c == '\u{2028}' || c == '\u{2029}' || c == '\u{202f}'
        || c == '\u{205f}' || c == '\u{3000}'
}

/// Tokenization and literal recognition.
pub struct Utils;

impl Utils {
    /// Splits `input` on whitespace into its tokens; whitespace-only input
    /// yields no tokens.
    pub fn split(input: String) -> (r: Vec<String>)
        ensures
            r.deep_view() == split_ws(input@),
    {
        let s: &str = input.as_str();
        let n: usize = s.unicode_len();
        let mut tokens: Vec<String> = Vec::new();
        let mut cur: String = String::new();
        let mut i: usize = 0;
        while i < n
            invariant
                i <= n,
                n == s@.len(),
                s@ == input@,
                (tokens.deep_view(), cur@) == split_fold(s@.subrange(0, i as int)),
            decreases n - i,
        {
            let c = s.get_char(i);
            proof {
                assert(s@.subrange(0, i + 1).drop_last() =~= s@.subrange(0, i as int));
                assert(s@.subrange(0, i + 1).last() == s@[i as int]);
            }
            if is_ws(c) {
                if !cur.as_str().is_empty() {
                    let ghost prev = tokens.deep_view();
                    tokens.push(cur);
                    proof {
                        assert(tokens.deep_view() =~= prev.push(cur@));
                    }
                    cur = String::new();
                }
            } else {
                push_char(&mut cur, c);
            }
            i += 1;
        }
        proof {
            assert(s@.subrange(0, n as int) =~= s@);
        }
        if !cur.as_str().is_empty() {
            let ghost prev = tokens.deep_view();
            tokens.push(cur);
            proof {
                assert(tokens.deep_view() =~= prev.push(cur@));
            }
        }
        tokens
    }

    /// Whether every character of `s` is a decimal digit.
    pub fn is_num(s: &str) -> (r: bool)
        ensures
            r == is_num_tok(s@),
    {
        let n: usize = s.unicode_len();
        let mut i: usize = 0;
        while i < n
            invariant
                i <= n,
                n == s@.len(),
                forall|j: int| 0 <= j < i ==> is_digit_char(#[trigger] s@[j]),
            decreases n - i,
        {
            let c = s.get_char(i);
            let v = c as u32;
            if !(48 <= v && v <= 57) {
                proof {
                    assert(!is_digit_char(s@[i as int]));
                }
                return false;
            }
            i += 1;
        }
        true
    }
}

/// Reads an all-digits token as a signed 64-bit value; `None` when the value
/// does not fit.
pub fn parse_num(s: &str) -> (r: Option<i64>)
    requires
        is_num_tok(s@),
    ensures
        digits_val(s@) <= i64::MAX ==> r == Some(digits_val(s@) as i64),
        digits_val(s@) > i64::MAX ==> r is None,
{
    let n: usize = s.unicode_len();
    let mut acc: i64 = 0;
    let mut overflow = false;
    let mut i: usize = 0;
    while i < n
        invariant
            is_num_tok(s@),
            i <= n,
            n == s@.len(),
            !overflow ==> acc == digits_val(s@.subrange(0, i as int)),
            overflow ==> digits_val(s@.subrange(0, i as int)) > i64::MAX,
            acc >= 0,
        decreases n - i,
    {
        let c = s.get_char(i);
        proof {
            assert(is_digit_char(s@[i as int]));
            assert(s@.subrange(0, i + 1).drop_last() =~= s@.subrange(0, i as int));
            assert(s@.subrange(0, i + 1).last() == s@[i as int]);
        }
        let d: i64 = (c as u32 - 48) as i64;
        if !overflow {
            if acc > 922337203685477580i64 || (acc == 922337203685477580i64 && d > 7) {
                overflow = true;
            } else {
                acc = acc * 10 + d;
            }
        }
        i += 1;
    }
    proof {
        assert(s@.subrange(0, n as int) =~= s@);
    }
    if overflow {
        None
    } else {
        Some(acc)
    }
}

/// The elements of `ts` joined with single spaces.
pub open spec fn join_spaces(ts: Seq<Seq<char>>) -> Seq<char>
    decreases ts.len(),
{
    if ts.len() == 0 {
        Seq::<char>::empty()
    } else if ts.len() == 1 {
        ts[0]
    } else {
        join_spaces(ts.drop_last()) + seq![' '] + ts.last()
    }
}

/// Joins strings with single spaces.
pub fn join(v: &Vec<String>) -> (r: String)
    ensures
        r@ == join_spaces(v.deep_view()),
{
    let mut r = String::new();
    let mut i: usize = 0;
    proof {
        reveal_strlit(" ");
    }
    while i < v.len()
        invariant
            i <= v.len(),
            r@ == join_spaces(v.deep_view().subrange(0, i as int)),
            " "@ =~= seq![' '],
        decreases v.len() - i,
    {
        proof {
            assert(v.deep_view().subrange(0, i + 1).drop_last() =~= v.deep_view().subrange(
                0,
                i as int,
            ));
            assert(v.deep_view().subrange(0, i + 1).last() == v[i as int]@);
        }
        if i > 0 {
            r.append(" ");
        }
        r.append(v[i].as_str());
        i += 1;
    }
    proof {
        assert(v.deep_view().subrange(0, v.deep_view().len() as int) =~= v.deep_view());
    }
    r
}

} // verus!
