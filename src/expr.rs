//! Expressions embedded in instructions: literals and item queries.
use vstd::prelude::*;
use crate::lexer::{
    span_end,
    char_at, char_exec, skip_white, skip_white_exec, span_end_exec, token_at, word_at, word_at_exec,
    ws_char_at, ws_char_exec, ws_ident_at, ws_ident_exec, in_class, lemma_span_end_bounds, CharClass,
};

verus! {

/// An expression that the interpreter evaluates against the game state.
#[derive(Clone, Debug, PartialEq, Eq)]
pub enum Expr {
    /// A boolean literal, `true` or `false`.
    Bool(bool),
    /// A non-negative integer literal.
    Int(u32),
    /// Whether the player holds the item: `has_item(id)`.
    HasItem(String),
}

/// What an `Expr` holds, with its strings as character sequences.
pub enum ExprModel {
    Bool(bool),
    Int(u32),
    HasItem(Seq<char>),
}

impl View for Expr {
    type V = ExprModel;

    open spec fn view(&self) -> ExprModel {
        match self {
            Expr::Bool(b) => ExprModel::Bool(*b),
            Expr::Int(n) => ExprModel::Int(*n),
            Expr::HasItem(id) => ExprModel::HasItem(id@),
        }
    }
}

pub open spec fn kw_has_item() -> Seq<char> {
    seq!['h', 'a', 's', '_', 'i', 't', 'e', 'm']
}

pub open spec fn kw_true() -> Seq<char> {
    seq!['t', 'r', 'u', 'e']
}

pub open spec fn kw_false() -> Seq<char> {
    seq!['f', 'a', 'l', 's', 'e']
}

/// The number that a run of decimal digits writes.
pub open spec fn digits_value(d: Seq<char>) -> nat
    decreases d.len(),
{
    if d.len() == 0 {
        0
    } else {
        digits_value(d.drop_last()) * 10 + (d.last() as nat - '0' as nat) as nat
    }
}

/// An expression at `p`: `has_item(id)`, `true`, `false` or a decimal number
/// that fits in 32 bits; and the position after it.
pub open spec fn expr_at(s: Seq<char>, p: int) -> Option<(ExprModel, int)> {
    if word_at(s, p, kw_has_item()) {
        match ws_char_at(s, p + 8, '(') {
            Some(a) => match ws_ident_at(s, a) {
                Some((id, b)) => match char_at(s, b, ')') {
                    Some(c) => Some((ExprModel::HasItem(id), c)),
                    None => None,
                },
                None => None,
            },
            None => None,
        }
    } else if word_at(s, p, kw_true()) {
        Some((ExprModel::Bool(true), p + 4))
    } else if word_at(s, p, kw_false()) {
        Some((ExprModel::Bool(false), p + 5))
    } else {
        match token_at(s, p, CharClass::Digit) {
            Some((d, q)) => if digits_value(d) <= u32::MAX {
                Some((ExprModel::Int(digits_value(d) as u32), q))
            } else {
                None
            },
            None => None,
        }
    }
}

/// An expression with white space allowed before and after it.
pub open spec fn ws_expr_at(s: Seq<char>, p: int) -> Option<(ExprModel, int)> {
    match expr_at(s, skip_white(s, p)) {
        Some((e, q)) => Some((e, skip_white(s, q))),
        None => None,
    }
}

fn digits_exec(s: &Vec<char>, p: usize) -> (r: Option<(u32, usize)>)
    requires
        p <= s@.len(),
    ensures
        match r {
            Some((n, q)) => token_at(s@, p as int, CharClass::Digit) matches Some((d, e))
                && e == q && digits_value(d) == n && q <= s@.len(),
            None => match token_at(s@, p as int, CharClass::Digit) {
                Some((d, e)) => digits_value(d) > u32::MAX,
                None => true,
            },
        },
{
    let q = span_end_exec(s, p, &CharClass::Digit);
    proof {
        lemma_span_end_bounds(s@, p as int, CharClass::Digit);
    }
    if q == p {
        return None;
    }
    let mut v: u32 = 0;
    let mut i: usize = p;
    while i < q
        invariant
            p <= i <= q <= s@.len(),
            p < q,
            q as int == span_end(s@, p as int, CharClass::Digit),
            forall|j: int| p <= j < q ==> in_class(#[trigger] s@[j], CharClass::Digit),
            v == digits_value(s@.subrange(p as int, i as int)),
        decreases q - i,
    {
        let c = s[i];
        let dg: u32 = (c as u32) - ('0' as u32);
        assert(s@.subrange(p as int, i + 1).drop_last() =~= s@.subrange(p as int, i as int));
        assert(digits_value(s@.subrange(p as int, i + 1)) == v * 10 + dg);
        if v > (u32::MAX - dg) / 10 {
            assert(digits_value(s@.subrange(p as int, i + 1)) > u32::MAX) by (nonlinear_arith)
                requires
                    v > (u32::MAX - dg) / 10,
                    digits_value(s@.subrange(p as int, i + 1)) == v * 10 + dg,
            ;
            proof {
                let d = s@.subrange(p as int, q as int);
                assert forall|j: int| 0 <= j < d.len() implies in_class(#[trigger] d[j], CharClass::Digit) by {
                    assert(d[j] == s@[p + j]);
                }
                lemma_prefix_value_grows(s@.subrange(p as int, q as int), (i + 1 - p) as int);
                assert(s@.subrange(p as int, q as int).subrange(0, i + 1 - p) =~= s@.subrange(p as int, i + 1));
            }
            return None;
        }
        v = v * 10 + dg;
        i = i + 1;
    }
    Some((v, q))
}

/// A longer run of digits writes a number at least as large.
proof fn lemma_prefix_value_grows(d: Seq<char>, k: int)
    requires
        0 <= k <= d.len(),
        forall|j: int| 0 <= j < d.len() ==> in_class(#[trigger] d[j], CharClass::Digit),
    ensures
        digits_value(d.subrange(0, k)) <= digits_value(d),
    decreases d.len() - k,
{
    if k < d.len() {
        lemma_prefix_value_grows(d, k + 1);
        assert(d.subrange(0, k + 1).drop_last() =~= d.subrange(0, k));
    } else {
        assert(d.subrange(0, k) =~= d);
    }
}

/// The expression at `p`, as `expr_at` reads it.
pub fn expr_exec(text: &str, s: &Vec<char>, p: usize) -> (r: Option<(Expr, usize)>)
    requires
        text@ == s@,
        p <= s@.len(),
    ensures
        match r {
            Some((e, q)) => expr_at(s@, p as int) == Some((e@, q as int)) && q <= s@.len(),
            None => expr_at(s@, p as int) is None,
        },
{
    if word_at_exec(s, p, &['h', 'a', 's', '_', 'i', 't', 'e', 'm']) {
        let a = match ws_char_exec(s, p + 8, '(') {
            Some(a) => a,
            None => return None,
        };
        let (id, b) = match ws_ident_exec(text, s, a) {
            Some(x) => x,
            None => return None,
        };
        match char_exec(s, b, ')') {
            Some(c) => Some((Expr::HasItem(id), c)),
            None => None,
        }
    } else if word_at_exec(s, p, &['t', 'r', 'u', 'e']) {
        Some((Expr::Bool(true), p + 4))
    } else if word_at_exec(s, p, &['f', 'a', 'l', 's', 'e']) {
        Some((Expr::Bool(false), p + 5))
    } else {
        match digits_exec(s, p) {
            Some((n, q)) => Some((Expr::Int(n), q)),
            None => None,
        }
    }
}

/// An expression with white space allowed before and after it.
pub fn ws_expr_exec(text: &str, s: &Vec<char>, p: usize) -> (r: Option<(Expr, usize)>)
    requires
        text@ == s@,
        p <= s@.len(),
    ensures
        match r {
            Some((e, q)) => ws_expr_at(s@, p as int) == Some((e@, q as int)) && q <= s@.len(),
            None => ws_expr_at(s@, p as int) is None,
        },
{
    let a = skip_white_exec(s, p);
    match expr_exec(text, s, a) {
        Some((e, q)) => Some((e, skip_white_exec(s, q))),
        None => None,
    }
}

} // verus!
