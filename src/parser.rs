//! Executable readers for the script grammar, each proved to read exactly
//! what its spec function in `grammar` reads.
use vstd::prelude::*;
use crate::expr::{ws_expr_exec, Expr};
use crate::grammar::{
    choice_array_at, choice_at, choice_list_at, compile_text, expr_close_at, gset_at,
    instruction_at, instructions_from, jump_at, jump_if_at, more_choices, open_ident_comma_at,
    paren_ident_at, paren_symbol_at, receive_money_at, remove_item_at, section_at,
    section_start_at, sections_from, special_at, talk_at, talk_choices_at,
};
use crate::lexer::{
    char_exec, end_line_at, end_line_exec, skip_white_exec, span_end_exec, token_exec, word_at_exec,
    ws_char_exec, ws_ident_exec, ws_word_exec, CharClass,
};
use crate::script::{
    choices_model, instructions_model, sections_model, special_of, Instruction, InstructionModel,
    Script, SectionModel, SpecialInstruction,
};

verus! {

/// `r` is what the spec reader gives as `e`, on a text of length `n`.
pub open spec fn read_as<T: View>(r: Option<(T, usize)>, e: Option<(T::V, int)>, n: int) -> bool {
    match r {
        Some((v, q)) => e == Some((v@, q as int)) && q <= n,
        None => e is None,
    }
}

pub open spec fn ident_read_as(r: Option<(String, usize)>, e: Option<(Seq<char>, int)>, n: int) -> bool {
    match r {
        Some((v, q)) => e == Some((v@, q as int)) && q <= n,
        None => e is None,
    }
}

fn paren_ident_exec(text: &str, s: &Vec<char>, p: usize) -> (r: Option<(String, usize)>)
    requires
        text@ == s@,
        p <= s@.len(),
    ensures
        ident_read_as(r, paren_ident_at(s@, p as int), s@.len() as int),
{
    let a = match char_exec(s, p, '(') {
        Some(a) => a,
        None => return None,
    };
    let (id, b) = match ws_ident_exec(text, s, a) {
        Some(x) => x,
        None => return None,
    };
    match char_exec(s, b, ')') {
        Some(c) => Some((id, c)),
        None => None,
    }
}

fn open_ident_comma_exec(text: &str, s: &Vec<char>, p: usize) -> (r: Option<(String, usize)>)
    requires
        text@ == s@,
        p <= s@.len(),
    ensures
        ident_read_as(r, open_ident_comma_at(s@, p as int), s@.len() as int),
{
    let a = match char_exec(s, p, '(') {
        Some(a) => a,
        None => return None,
    };
    let (id, b) = match ws_ident_exec(text, s, a) {
        Some(x) => x,
        None => return None,
    };
    match char_exec(s, b, ',') {
        Some(c) => Some((id, c)),
        None => None,
    }
}

fn expr_close_exec(text: &str, s: &Vec<char>, p: usize) -> (r: Option<(Expr, usize)>)
    requires
        text@ == s@,
        p <= s@.len(),
    ensures
        read_as(r, expr_close_at(s@, p as int), s@.len() as int),
{
    let (e, a) = match ws_expr_exec(text, s, p) {
        Some(x) => x,
        None => return None,
    };
    match char_exec(s, a, ')') {
        Some(b) => Some((e, b)),
        None => None,
    }
}

fn jump_exec(text: &str, s: &Vec<char>, p: usize) -> (r: Option<(Instruction, usize)>)
    requires
        text@ == s@,
        p <= s@.len(),
    ensures
        read_as(r, jump_at(s@, p as int), s@.len() as int),
{
    let a = match ws_word_exec(s, p, &['j', 'u', 'm', 'p']) {
        Some(a) => a,
        None => return None,
    };
    let (id, b) = match paren_ident_exec(text, s, a) {
        Some(x) => x,
        None => return None,
    };
    match end_line_exec(s, b) {
        Some(c) => Some((Instruction::Jump(id), c)),
        None => None,
    }
}

fn jump_if_exec(text: &str, s: &Vec<char>, p: usize) -> (r: Option<(Instruction, usize)>)
    requires
        text@ == s@,
        p <= s@.len(),
    ensures
        read_as(r, jump_if_at(s@, p as int), s@.len() as int),
{
    let a = match ws_word_exec(s, p, &['j', 'u', 'm', 'p', '_', 'i', 'f']) {
        Some(a) => a,
        None => return None,
    };
    let (id, b) = match open_ident_comma_exec(text, s, a) {
        Some(x) => x,
        None => return None,
    };
    let (e, c) = match expr_close_exec(text, s, b) {
        Some(x) => x,
        None => return None,
    };
    match end_line_exec(s, c) {
        Some(d) => Some((Instruction::JumpIf(id, e), d)),
        None => None,
    }
}

fn gset_exec(text: &str, s: &Vec<char>, p: usize) -> (r: Option<(Instruction, usize)>)
    requires
        text@ == s@,
        p <= s@.len(),
    ensures
        read_as(r, gset_at(s@, p as int), s@.len() as int),
{
    let a = match ws_word_exec(s, p, &['g', 's', 'e', 't']) {
        Some(a) => a,
        None => return None,
    };
    let (id, b) = match open_ident_comma_exec(text, s, a) {
        Some(x) => x,
        None => return None,
    };
    let (e, c) = match expr_close_exec(text, s, b) {
        Some(x) => x,
        None => return None,
    };
    match end_line_exec(s, c) {
        Some(d) => Some((Instruction::GSet(id, e), d)),
        None => None,
    }
}

fn talk_exec(text: &str, s: &Vec<char>, p: usize) -> (r: Option<(Instruction, usize)>)
    requires
        text@ == s@,
        p <= s@.len(),
    ensures
        read_as(r, talk_at(s@, p as int), s@.len() as int),
{
    let a = match ws_word_exec(s, p, &['t', 'a', 'l', 'k']) {
        Some(a) => a,
        None => return None,
    };
    let (id, b) = match paren_ident_exec(text, s, a) {
        Some(x) => x,
        None => return None,
    };
    match end_line_exec(s, b) {
        Some(c) => {
            let none: Vec<(String, String)> = Vec::new();
            assert(choices_model(none@) =~= Seq::empty());
            Some((Instruction::Talk(id, none), c))
        },
        None => None,
    }
}

fn receive_money_exec(text: &str, s: &Vec<char>, p: usize) -> (r: Option<(Instruction, usize)>)
    requires
        text@ == s@,
        p <= s@.len(),
    ensures
        read_as(r, receive_money_at(s@, p as int), s@.len() as int),
{
    let a = match ws_word_exec(
        s,
        p,
        &['r', 'e', 'c', 'e', 'i', 'v', 'e', '_', 'm', 'o', 'n', 'e', 'y'],
    ) {
        Some(a) => a,
        None => return None,
    };
    let b = match char_exec(s, a, '(') {
        Some(b) => b,
        None => return None,
    };
    let (e, c) = match expr_close_exec(text, s, b) {
        Some(x) => x,
        None => return None,
    };
    match end_line_exec(s, c) {
        Some(d) => Some((Instruction::ReceiveMoney(e), d)),
        None => None,
    }
}

fn remove_item_exec(text: &str, s: &Vec<char>, p: usize) -> (r: Option<(Instruction, usize)>)
    requires
        text@ == s@,
        p <= s@.len(),
    ensures
        read_as(r, remove_item_at(s@, p as int), s@.len() as int),
{
    let a = match ws_word_exec(s, p, &['r', 'e', 'm', 'o', 'v', 'e', '_', 'i', 't', 'e', 'm']) {
        Some(a) => a,
        None => return None,
    };
    let (id, b) = match paren_ident_exec(text, s, a) {
        Some(x) => x,
        None => return None,
    };
    match end_line_exec(s, b) {
        Some(c) => Some((Instruction::RemoveItem(id), c)),
        None => None,
    }
}

/// The characters of a text, in order.
pub fn chars_of(text: &str) -> (r: Vec<char>)
    ensures
        r@ == text@,
{
    let mut v: Vec<char> = Vec::new();
    for c in it: text.chars()
        invariant
            v@ == it.seq().take(it.index() as int),
    {
        v.push(c);
    }
    assert(v@ =~= text@);
    v
}

/// The special behaviour named by the characters of `s` from `a` to `b`.
fn special_in(s: &Vec<char>, a: usize, b: usize) -> (r: Option<SpecialInstruction>)
    requires
        a <= b <= s@.len(),
    ensures
        r == special_of(s@.subrange(a as int, b as int)),
{
    let buy = ['s', 'h', 'o', 'p', '_', 'b', 'u', 'y'];
    let sell = ['s', 'h', 'o', 'p', '_', 's', 'e', 'l', 'l'];
    if b - a == 8 && word_at_exec(s, a, &buy) {
        Some(SpecialInstruction::ShopBuy)
    } else if b - a == 9 && word_at_exec(s, a, &sell) {
        Some(SpecialInstruction::ShopSell)
    } else {
        assert(buy@.len() == 8 && sell@.len() == 9);
        None
    }
}

fn special_exec(s: &Vec<char>, p: usize) -> (r: Option<(Instruction, usize)>)
    requires
        p <= s@.len(),
    ensures
        read_as(r, special_at(s@, p as int), s@.len() as int),
{
    let a = match ws_word_exec(s, p, &['s', 'p', 'e', 'c', 'i', 'a', 'l']) {
        Some(a) => a,
        None => return None,
    };
    let a1 = match char_exec(s, a, '(') {
        Some(x) => x,
        None => return None,
    };
    let a2 = skip_white_exec(s, a1);
    let b = span_end_exec(s, a2, &CharClass::Symbol);
    if b == a2 {
        return None;
    }
    let b2 = skip_white_exec(s, b);
    let c = match char_exec(s, b2, ')') {
        Some(x) => x,
        None => return None,
    };
    assert(paren_symbol_at(s@, a as int) == Some((s@.subrange(a2 as int, b as int), c as int)));
    let k = match special_in(s, a2, b) {
        Some(k) => k,
        None => return None,
    };
    match end_line_exec(s, c) {
        Some(d) => Some((Instruction::Special(k), d)),
        None => None,
    }
}

pub open spec fn choice_read_as(
    r: Option<((String, String), usize)>,
    e: Option<((Seq<char>, Seq<char>), int)>,
    n: int,
) -> bool {
    match r {
        Some((c, q)) => e == Some(((c.0@, c.1@), q as int)) && q <= n,
        None => e is None,
    }
}

fn choice_exec(text: &str, s: &Vec<char>, p: usize) -> (r: Option<((String, String), usize)>)
    requires
        text@ == s@,
        p <= s@.len(),
    ensures
        choice_read_as(r, choice_at(s@, p as int), s@.len() as int),
{
    let a = match ws_char_exec(s, p, '(') {
        Some(a) => a,
        None => return None,
    };
    let (x, b) = match ws_ident_exec(text, s, a) {
        Some(v) => v,
        None => return None,
    };
    let c = match ws_char_exec(s, b, ',') {
        Some(c) => c,
        None => return None,
    };
    let (y, d) = match ws_ident_exec(text, s, c) {
        Some(v) => v,
        None => return None,
    };
    match ws_char_exec(s, d, ')') {
        Some(e) => Some(((x, y), e)),
        None => None,
    }
}

/// The choices at `p`, as `choice_list_at` reads them.
fn choice_list_exec(text: &str, s: &Vec<char>, p: usize) -> (r: (Vec<(String, String)>, usize))
    requires
        text@ == s@,
        p <= s@.len(),
    ensures
        choices_model(r.0@) == choice_list_at(s@, p as int).0,
        r.1 == choice_list_at(s@, p as int).1,
        r.1 <= s@.len(),
{
    let mut out: Vec<(String, String)> = Vec::new();
    let (first, mut q) = match choice_exec(text, s, p) {
        Some(x) => x,
        None => {
            assert(choices_model(out@) =~= Seq::empty());
            return (out, p);
        },
    };
    out.push(first);
    let ghost target = choice_list_at(s@, p as int);
    assert(choices_model(out@) + more_choices(s@, q as int).0 =~= target.0);
    loop
        invariant
            text@ == s@,
            q <= s@.len(),
            target == choice_list_at(s@, p as int),
            choices_model(out@) + more_choices(s@, q as int).0 == target.0,
            more_choices(s@, q as int).1 == target.1,
        ensures
            more_choices(s@, q as int).0 == Seq::<(Seq<char>, Seq<char>)>::empty(),
            more_choices(s@, q as int).1 == q,
        decreases s@.len() - q,
    {
        let a = match ws_char_exec(s, q, ',') {
            Some(a) => a,
            None => break,
        };
        let (c, r) = match choice_exec(text, s, a) {
            Some(x) => x,
            None => break,
        };
        if r <= q {
            break;
        }
        let ghost before = choices_model(out@);
        out.push(c);
        proof {
            let m = more_choices(s@, r as int);
            assert(more_choices(s@, q as int).0 == seq![(c.0@, c.1@)] + m.0);
            assert(choices_model(out@) =~= before.push((c.0@, c.1@)));
            assert(choices_model(out@) + m.0 =~= before + (seq![(c.0@, c.1@)] + m.0));
        }
        q = r;
    }
    assert(choices_model(out@) + Seq::empty() =~= choices_model(out@));
    (out, q)
}

fn talk_choices_exec(text: &str, s: &Vec<char>, p: usize) -> (r: Option<(Instruction, usize)>)
    requires
        text@ == s@,
        p <= s@.len(),
    ensures
        read_as(r, talk_choices_at(s@, p as int), s@.len() as int),
{
    let a = match ws_word_exec(s, p, &['t', 'a', 'l', 'k']) {
        Some(a) => a,
        None => return None,
    };
    let (id, b) = match open_ident_comma_exec(text, s, a) {
        Some(x) => x,
        None => return None,
    };
    let b1 = match ws_char_exec(s, b, '[') {
        Some(x) => x,
        None => return None,
    };
    let (cs, b2) = choice_list_exec(text, s, b1);
    let c = match ws_char_exec(s, b2, ']') {
        Some(x) => x,
        None => return None,
    };
    assert(choice_array_at(s@, b as int) == Some((choices_model(cs@), c as int)));
    let d = match char_exec(s, c, ')') {
        Some(x) => x,
        None => return None,
    };
    match end_line_exec(s, d) {
        Some(e) => Some((Instruction::Talk(id, cs), e)),
        None => None,
    }
}

/// One instruction at `p`, trying the forms in the order of `instruction_at`.
fn instruction_exec(text: &str, s: &Vec<char>, p: usize) -> (r: Option<(Instruction, usize)>)
    requires
        text@ == s@,
        p <= s@.len(),
    ensures
        read_as(r, instruction_at(s@, p as int), s@.len() as int),
{
    reveal(instruction_at);
    let r = jump_exec(text, s, p);
    if r.is_some() {
        return r;
    }
    let r = jump_if_exec(text, s, p);
    if r.is_some() {
        return r;
    }
    let r = talk_choices_exec(text, s, p);
    if r.is_some() {
        return r;
    }
    let r = talk_exec(text, s, p);
    if r.is_some() {
        return r;
    }
    let r = gset_exec(text, s, p);
    if r.is_some() {
        return r;
    }
    let r = receive_money_exec(text, s, p);
    if r.is_some() {
        return r;
    }
    let r = remove_item_exec(text, s, p);
    if r.is_some() {
        return r;
    }
    special_exec(s, p)
}

/// The instructions from `p`, as `instructions_from` reads them.
fn instructions_exec(text: &str, s: &Vec<char>, p: usize) -> (r: (Vec<Instruction>, usize))
    requires
        text@ == s@,
        p <= s@.len(),
    ensures
        instructions_model(r.0@) == instructions_from(s@, p as int).0,
        r.1 == instructions_from(s@, p as int).1,
        r.1 <= s@.len(),
{
    let mut out: Vec<Instruction> = Vec::new();
    let mut q = p;
    let ghost target = instructions_from(s@, p as int);
    assert(instructions_model(out@) + instructions_from(s@, q as int).0 =~= target.0);
    loop
        invariant
            text@ == s@,
            q <= s@.len(),
            target == instructions_from(s@, p as int),
            instructions_model(out@) + instructions_from(s@, q as int).0 == target.0,
            instructions_from(s@, q as int).1 == target.1,
        ensures
            instructions_from(s@, q as int).0 == Seq::<InstructionModel>::empty(),
            instructions_from(s@, q as int).1 == q,
        decreases s@.len() - q,
    {
        let (i, r) = match instruction_exec(text, s, q) {
            Some(x) => x,
            None => break,
        };
        if r <= q {
            break;
        }
        let ghost before = instructions_model(out@);
        let ghost iv = i@;
        out.push(i);
        proof {
            let m = instructions_from(s@, r as int);
            assert(instructions_from(s@, q as int).0 == seq![iv] + m.0);
            assert(instructions_model(out@) =~= before.push(iv));
            assert(instructions_model(out@) + m.0 =~= before + (seq![iv] + m.0));
        }
        q = r;
    }
    assert(instructions_model(out@) + Seq::empty() =~= instructions_model(out@));
    (out, q)
}

/// A section header at `p`, as `section_start_at` reads it.
fn section_start_exec(text: &str, s: &Vec<char>, p: usize) -> (r: Option<(String, usize)>)
    requires
        text@ == s@,
        p <= s@.len(),
    ensures
        ident_read_as(r, section_start_at(s@, p as int), s@.len() as int),
{
    if !word_at_exec(s, p, &['-', '-', '-']) {
        return None;
    }
    let a = span_end_exec(s, p + 3, &CharClass::Space);
    if a == p + 3 {
        return None;
    }
    let (name, b) = match token_exec(text, s, a, &CharClass::Ident) {
        Some(x) => x,
        None => return None,
    };
    match end_line_exec(s, b) {
        Some(c) => Some((name, c)),
        None => None,
    }
}

/// The sections from `p`, as `sections_from` reads them.
fn sections_exec(text: &str, s: &Vec<char>, p: usize) -> (r: (Vec<(String, Vec<Instruction>)>, usize))
    requires
        text@ == s@,
        p <= s@.len(),
    ensures
        sections_model(r.0@) == sections_from(s@, p as int).0,
        r.1 == sections_from(s@, p as int).1,
        r.1 <= s@.len(),
{
    let mut out: Vec<(String, Vec<Instruction>)> = Vec::new();
    let mut q = p;
    let ghost target = sections_from(s@, p as int);
    assert(sections_model(out@) + sections_from(s@, q as int).0 =~= target.0);
    loop
        invariant
            text@ == s@,
            q <= s@.len(),
            target == sections_from(s@, p as int),
            sections_model(out@) + sections_from(s@, q as int).0 == target.0,
            sections_from(s@, q as int).1 == target.1,
        ensures
            sections_from(s@, q as int).0 == Seq::<SectionModel>::empty(),
            sections_from(s@, q as int).1 == q,
        decreases s@.len() - q,
    {
        let (name, a) = match section_start_exec(text, s, q) {
            Some(x) => x,
            None => break,
        };
        let (body, r) = instructions_exec(text, s, a);
        assert(section_at(s@, q as int) == Some(((name@, instructions_model(body@)), r as int)));
        if r <= q {
            break;
        }
        let ghost before = sections_model(out@);
        let ghost sv = (name@, instructions_model(body@));
        out.push((name, body));
        proof {
            let m = sections_from(s@, r as int);
            assert(sections_from(s@, q as int).0 == seq![sv] + m.0);
            assert(sections_model(out@) =~= before.push(sv));
            assert(sections_model(out@) + m.0 =~= before + (seq![sv] + m.0));
        }
        q = r;
    }
    assert(sections_model(out@) + Seq::empty() =~= sections_model(out@));
    (out, q)
}

/// Why a script did not compile.
#[derive(Debug)]
pub enum PakCompileError {
    /// The text is not a script: the sections that could be read end at
    /// `position` (counted in characters), before the end of the text.
    ScriptParseError { description: String, position: usize },
}

/// Compiles a script: reads its sections, which must take up the whole text,
/// and folds them into one table in which a later section replaces an earlier
/// one of the same name.
pub fn parse(input: &str) -> (r: Result<Script, PakCompileError>)
    ensures
        match r {
            Ok(script) => compile_text(input@) == Some(script@),
            Err(PakCompileError::ScriptParseError { position, .. }) => {
                &&& compile_text(input@) is None
                &&& position == sections_from(input@, 0).1
            },
        },
{
    let s = chars_of(input);
    let (secs, q) = sections_exec(input, &s, 0);
    if q == s.len() {
        let script = Script::from_sections(secs);
        Ok(script)
    } else {
        Err(
            PakCompileError::ScriptParseError {
                description: "unrecognized text after the last section that could be read".to_owned(),
                position: q,
            },
        )
    }
}

/// The text from character `q` to the end.
fn rest_of<'a>(text: &'a str, q: usize) -> (r: &'a str)
    requires
        q <= text@.len(),
    ensures
        r@ == text@.subrange(q as int, text@.len() as int),
{
    let n = text.unicode_len();
    text.substring_char(q, n)
}

/// `r` is what the spec reader `e` reads at the start of `s`, with the text
/// that is left after it.
pub open spec fn read_from_start<T: View>(s: Seq<char>, e: Option<(T::V, int)>, r: Option<(&str, T)>) -> bool {
    match e {
        Some((v, q)) => r matches Some((rest, x)) && x@ == v && rest@ == s.subrange(q, s.len() as int),
        None => r is None,
    }
}

fn instruction_from_start<'a>(text: &'a str, r: Option<(Instruction, usize)>, n: usize) -> (o: Option<(&'a str, Instruction)>)
    requires
        n == text@.len(),
        r matches Some((_, q)) ==> q <= n,
    ensures
        match r {
            Some((i, q)) => o matches Some((rest, x)) && x == i && rest@ == text@.subrange(q as int, n as int),
            None => o is None,
        },
{
    match r {
        Some((i, q)) => Some((rest_of(text, q), i)),
        None => None,
    }
}

/// Optional horizontal space and one line end at the start of `input`; the
/// text after them.
pub fn end_line(input: &str) -> (r: Option<&str>)
    ensures
        match end_line_at(input@, 0) {
            Some(q) => r matches Some(rest) && rest@ == input@.subrange(q, input@.len() as int),
            None => r is None,
        },
{
    let s = chars_of(input);
    match end_line_exec(&s, 0) {
        Some(q) => Some(rest_of(input, q)),
        None => None,
    }
}

/// A section header at the start of `input`: the text after it, and the name.
pub fn section_start(input: &str) -> (r: Option<(&str, String)>)
    ensures
        read_from_start(input@, section_start_at(input@, 0), r),
{
    let s = chars_of(input);
    match section_start_exec(input, &s, 0) {
        Some((name, q)) => Some((rest_of(input, q), name)),
        None => None,
    }
}

/// One instruction, of any form, at the start of `input`.
pub fn instruction(input: &str) -> (r: Option<(&str, Instruction)>)
    ensures
        read_from_start(input@, instruction_at(input@, 0), r),
{
    let s = chars_of(input);
    let n = s.len();
    instruction_from_start(input, instruction_exec(input, &s, 0), n)
}

/// A `jump` instruction at the start of `input`.
pub fn jump_instruction(input: &str) -> (r: Option<(&str, Instruction)>)
    ensures
        read_from_start(input@, jump_at(input@, 0), r),
{
    let s = chars_of(input);
    let n = s.len();
    instruction_from_start(input, jump_exec(input, &s, 0), n)
}

/// A `jump_if` instruction at the start of `input`.
pub fn jump_if_instruction(input: &str) -> (r: Option<(&str, Instruction)>)
    ensures
        read_from_start(input@, jump_if_at(input@, 0), r),
{
    let s = chars_of(input);
    let n = s.len();
    instruction_from_start(input, jump_if_exec(input, &s, 0), n)
}

/// A `talk` instruction without choices at the start of `input`.
pub fn talk_instruction(input: &str) -> (r: Option<(&str, Instruction)>)
    ensures
        read_from_start(input@, talk_at(input@, 0), r),
{
    let s = chars_of(input);
    let n = s.len();
    instruction_from_start(input, talk_exec(input, &s, 0), n)
}

/// A `talk` instruction with a list of choices at the start of `input`.
pub fn talk_instruction_with_choices(input: &str) -> (r: Option<(&str, Instruction)>)
    ensures
        read_from_start(input@, talk_choices_at(input@, 0), r),
{
    let s = chars_of(input);
    let n = s.len();
    instruction_from_start(input, talk_choices_exec(input, &s, 0), n)
}

/// A `gset` instruction at the start of `input`.
pub fn gset_instruction(input: &str) -> (r: Option<(&str, Instruction)>)
    ensures
        read_from_start(input@, gset_at(input@, 0), r),
{
    let s = chars_of(input);
    let n = s.len();
    instruction_from_start(input, gset_exec(input, &s, 0), n)
}

/// A `receive_money` instruction at the start of `input`.
pub fn receive_money_instruction(input: &str) -> (r: Option<(&str, Instruction)>)
    ensures
        read_from_start(input@, receive_money_at(input@, 0), r),
{
    let s = chars_of(input);
    let n = s.len();
    instruction_from_start(input, receive_money_exec(input, &s, 0), n)
}

/// A `remove_item` instruction at the start of `input`.
pub fn remove_item_instruction(input: &str) -> (r: Option<(&str, Instruction)>)
    ensures
        read_from_start(input@, remove_item_at(input@, 0), r),
{
    let s = chars_of(input);
    let n = s.len();
    instruction_from_start(input, remove_item_exec(input, &s, 0), n)
}

/// A `special` instruction at the start of `input`.
pub fn special_instruction(input: &str) -> (r: Option<(&str, Instruction)>)
    ensures
        read_from_start(input@, special_at(input@, 0), r),
{
    let s = chars_of(input);
    let n = s.len();
    instruction_from_start(input, special_exec(&s, 0), n)
}

impl SpecialInstruction {
    /// The behaviour that a symbol names, if any.
    pub fn from_name(name: &str) -> (r: Option<SpecialInstruction>)
        ensures
            r == special_of(name@),
    {
        let s = chars_of(name);
        assert(s@.subrange(0, s@.len() as int) =~= name@);
        special_in(&s, 0, s.len())
    }
}

} // verus!
