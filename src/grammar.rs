//! The script grammar as spec functions over the source characters. Each
//! reader takes a position and gives what it read and the position after it,
//! or `None`; repetitions stop at the first item that does not read.
use vstd::prelude::*;
use crate::expr::{ws_expr_at, ExprModel};
use crate::lexer::{
    char_at, end_line_at, skip_white, token_at, word_at, ws_char_at, ws_ident_at, ws_word_at,
    CharClass,
};
use crate::script::{fold_sections, special_of, InstructionModel, SectionModel};

verus! {

pub open spec fn kw_jump() -> Seq<char> {
    seq!['j', 'u', 'm', 'p']
}

pub open spec fn kw_jump_if() -> Seq<char> {
    seq!['j', 'u', 'm', 'p', '_', 'i', 'f']
}

pub open spec fn kw_talk() -> Seq<char> {
    seq!['t', 'a', 'l', 'k']
}

pub open spec fn kw_gset() -> Seq<char> {
    seq!['g', 's', 'e', 't']
}

pub open spec fn kw_receive_money() -> Seq<char> {
    seq!['r', 'e', 'c', 'e', 'i', 'v', 'e', '_', 'm', 'o', 'n', 'e', 'y']
}

pub open spec fn kw_remove_item() -> Seq<char> {
    seq!['r', 'e', 'm', 'o', 'v', 'e', '_', 'i', 't', 'e', 'm']
}

pub open spec fn kw_special() -> Seq<char> {
    seq!['s', 'p', 'e', 'c', 'i', 'a', 'l']
}

/// The marker that opens a section header.
pub open spec fn section_mark() -> Seq<char> {
    seq!['-', '-', '-']
}

/// `(` identifier `)`, with white space allowed around the identifier.
pub open spec fn paren_ident_at(s: Seq<char>, p: int) -> Option<(Seq<char>, int)> {
    match char_at(s, p, '(') {
        Some(a) => match ws_ident_at(s, a) {
            Some((id, b)) => match char_at(s, b, ')') {
                Some(c) => Some((id, c)),
                None => None,
            },
            None => None,
        },
        None => None,
    }
}

/// `(` identifier `,`, with white space allowed around the identifier.
pub open spec fn open_ident_comma_at(s: Seq<char>, p: int) -> Option<(Seq<char>, int)> {
    match char_at(s, p, '(') {
        Some(a) => match ws_ident_at(s, a) {
            Some((id, b)) => match char_at(s, b, ',') {
                Some(c) => Some((id, c)),
                None => None,
            },
            None => None,
        },
        None => None,
    }
}

/// An expression, then `)`.
pub open spec fn expr_close_at(s: Seq<char>, p: int) -> Option<(ExprModel, int)> {
    match ws_expr_at(s, p) {
        Some((e, a)) => match char_at(s, a, ')') {
            Some(b) => Some((e, b)),
            None => None,
        },
        None => None,
    }
}

/// `jump(section)`
pub open spec fn jump_at(s: Seq<char>, p: int) -> Option<(InstructionModel, int)> {
    match ws_word_at(s, p, kw_jump()) {
        Some(a) => match paren_ident_at(s, a) {
            Some((id, b)) => match end_line_at(s, b) {
                Some(c) => Some((InstructionModel::Jump(id), c)),
                None => None,
            },
            None => None,
        },
        None => None,
    }
}

/// `jump_if(section, expr)`
pub open spec fn jump_if_at(s: Seq<char>, p: int) -> Option<(InstructionModel, int)> {
    match ws_word_at(s, p, kw_jump_if()) {
        Some(a) => match open_ident_comma_at(s, a) {
            Some((id, b)) => match expr_close_at(s, b) {
                Some((e, c)) => match end_line_at(s, c) {
                    Some(d) => Some((InstructionModel::JumpIf(id, e), d)),
                    None => None,
                },
                None => None,
            },
            None => None,
        },
        None => None,
    }
}

/// One choice of a talk: `(label, section)`, white space allowed everywhere.
pub open spec fn choice_at(s: Seq<char>, p: int) -> Option<((Seq<char>, Seq<char>), int)> {
    match ws_char_at(s, p, '(') {
        Some(a) => match ws_ident_at(s, a) {
            Some((x, b)) => match ws_char_at(s, b, ',') {
                Some(c) => match ws_ident_at(s, c) {
                    Some((y, d)) => match ws_char_at(s, d, ')') {
                        Some(e) => Some(((x, y), e)),
                        None => None,
                    },
                    None => None,
                },
                None => None,
            },
            None => None,
        },
        None => None,
    }
}

/// The choices that follow at `p`, each after a `,`.
pub open spec fn more_choices(s: Seq<char>, p: int) -> (Seq<(Seq<char>, Seq<char>)>, int)
    decreases s.len() - p,
{
    match ws_char_at(s, p, ',') {
        Some(a) => match choice_at(s, a) {
            Some((c, q)) => if p < q <= s.len() {
                let rest = more_choices(s, q);
                (seq![c] + rest.0, rest.1)
            } else {
                (Seq::empty(), p)
            },
            None => (Seq::empty(), p),
        },
        None => (Seq::empty(), p),
    }
}

/// The choices between `[` and `]`: none, or one and then more after commas.
pub open spec fn choice_list_at(s: Seq<char>, p: int) -> (Seq<(Seq<char>, Seq<char>)>, int) {
    match choice_at(s, p) {
        Some((c, q)) => {
            let rest = more_choices(s, q);
            (seq![c] + rest.0, rest.1)
        },
        None => (Seq::empty(), p),
    }
}

/// `[` choices `]`, white space allowed everywhere.
pub open spec fn choice_array_at(s: Seq<char>, p: int) -> Option<(Seq<(Seq<char>, Seq<char>)>, int)> {
    match ws_char_at(s, p, '[') {
        Some(a) => {
            let l = choice_list_at(s, a);
            match ws_char_at(s, l.1, ']') {
                Some(b) => Some((l.0, b)),
                None => None,
            }
        },
        None => None,
    }
}

/// `talk(text, [(label, section), ...])`
pub open spec fn talk_choices_at(s: Seq<char>, p: int) -> Option<(InstructionModel, int)> {
    match ws_word_at(s, p, kw_talk()) {
        Some(a) => match open_ident_comma_at(s, a) {
            Some((id, b)) => match choice_array_at(s, b) {
                Some((cs, c)) => match char_at(s, c, ')') {
                    Some(d) => match end_line_at(s, d) {
                        Some(e) => Some((InstructionModel::Talk(id, cs), e)),
                        None => None,
                    },
                    None => None,
                },
                None => None,
            },
            None => None,
        },
        None => None,
    }
}

/// `talk(text)`
pub open spec fn talk_at(s: Seq<char>, p: int) -> Option<(InstructionModel, int)> {
    match ws_word_at(s, p, kw_talk()) {
        Some(a) => match paren_ident_at(s, a) {
            Some((id, b)) => match end_line_at(s, b) {
                Some(c) => Some((InstructionModel::Talk(id, Seq::empty()), c)),
                None => None,
            },
            None => None,
        },
        None => None,
    }
}

/// `gset(variable, expr)`
pub open spec fn gset_at(s: Seq<char>, p: int) -> Option<(InstructionModel, int)> {
    match ws_word_at(s, p, kw_gset()) {
        Some(a) => match open_ident_comma_at(s, a) {
            Some((id, b)) => match expr_close_at(s, b) {
                Some((e, c)) => match end_line_at(s, c) {
                    Some(d) => Some((InstructionModel::GSet(id, e), d)),
                    None => None,
                },
                None => None,
            },
            None => None,
        },
        None => None,
    }
}

/// `receive_money(expr)`
pub open spec fn receive_money_at(s: Seq<char>, p: int) -> Option<(InstructionModel, int)> {
    match ws_word_at(s, p, kw_receive_money()) {
        Some(a) => match char_at(s, a, '(') {
            Some(b) => match expr_close_at(s, b) {
                Some((e, c)) => match end_line_at(s, c) {
                    Some(d) => Some((InstructionModel::ReceiveMoney(e), d)),
                    None => None,
                },
                None => None,
            },
            None => None,
        },
        None => None,
    }
}

/// `remove_item(item)`
pub open spec fn remove_item_at(s: Seq<char>, p: int) -> Option<(InstructionModel, int)> {
    match ws_word_at(s, p, kw_remove_item()) {
        Some(a) => match paren_ident_at(s, a) {
            Some((id, b)) => match end_line_at(s, b) {
                Some(c) => Some((InstructionModel::RemoveItem(id), c)),
                None => None,
            },
            None => None,
        },
        None => None,
    }
}

/// `(` symbol `)`, white space allowed around the symbol.
pub open spec fn paren_symbol_at(s: Seq<char>, p: int) -> Option<(Seq<char>, int)> {
    match char_at(s, p, '(') {
        Some(a) => match token_at(s, skip_white(s, a), CharClass::Symbol) {
            Some((w, b)) => match char_at(s, skip_white(s, b), ')') {
                Some(c) => Some((w, c)),
                None => None,
            },
            None => None,
        },
        None => None,
    }
}

/// `special(symbol)`, where the symbol names a built-in behaviour.
pub open spec fn special_at(s: Seq<char>, p: int) -> Option<(InstructionModel, int)> {
    match ws_word_at(s, p, kw_special()) {
        Some(a) => match paren_symbol_at(s, a) {
            Some((w, b)) => match special_of(w) {
                Some(k) => match end_line_at(s, b) {
                    Some(c) => Some((InstructionModel::Special(k), c)),
                    None => None,
                },
                None => None,
            },
            None => None,
        },
        None => None,
    }
}

/// One instruction: the first form, in this order, that reads at `p`.
#[verifier::opaque]
pub open spec fn instruction_at(s: Seq<char>, p: int) -> Option<(InstructionModel, int)> {
    if jump_at(s, p) is Some {
        jump_at(s, p)
    } else if jump_if_at(s, p) is Some {
        jump_if_at(s, p)
    } else if talk_choices_at(s, p) is Some {
        talk_choices_at(s, p)
    } else if talk_at(s, p) is Some {
        talk_at(s, p)
    } else if gset_at(s, p) is Some {
        gset_at(s, p)
    } else if receive_money_at(s, p) is Some {
        receive_money_at(s, p)
    } else if remove_item_at(s, p) is Some {
        remove_item_at(s, p)
    } else {
        special_at(s, p)
    }
}

/// The instructions that follow one another from `p`, in source order.
pub open spec fn instructions_from(s: Seq<char>, p: int) -> (Seq<InstructionModel>, int)
    decreases s.len() - p,
{
    match instruction_at(s, p) {
        Some((i, q)) => if p < q <= s.len() {
            let rest = instructions_from(s, q);
            (seq![i] + rest.0, rest.1)
        } else {
            (Seq::empty(), p)
        },
        None => (Seq::empty(), p),
    }
}

/// A section header: `---`, horizontal space, the name, the line end.
pub open spec fn section_start_at(s: Seq<char>, p: int) -> Option<(Seq<char>, int)> {
    if word_at(s, p, section_mark()) {
        match token_at(s, p + 3, CharClass::Space) {
            Some((_, a)) => match token_at(s, a, CharClass::Ident) {
                Some((name, b)) => match end_line_at(s, b) {
                    Some(c) => Some((name, c)),
                    None => None,
                },
                None => None,
            },
            None => None,
        }
    } else {
        None
    }
}

/// A section: its header, then its instructions.
pub open spec fn section_at(s: Seq<char>, p: int) -> Option<(SectionModel, int)> {
    match section_start_at(s, p) {
        Some((name, a)) => {
            let body = instructions_from(s, a);
            Some(((name, body.0), body.1))
        },
        None => None,
    }
}

/// The sections that follow one another from `p`, in source order.
pub open spec fn sections_from(s: Seq<char>, p: int) -> (Seq<SectionModel>, int)
    decreases s.len() - p,
{
    match section_at(s, p) {
        Some((sec, q)) => if p < q <= s.len() {
            let rest = sections_from(s, q);
            (seq![sec] + rest.0, rest.1)
        } else {
            (Seq::empty(), p)
        },
        None => (Seq::empty(), p),
    }
}

/// The script that a source compiles to: its sections must read the whole
/// text, and they are folded into one table, later names replacing earlier.
pub open spec fn compile_text(s: Seq<char>) -> Option<Map<Seq<char>, Seq<InstructionModel>>> {
    let secs = sections_from(s, 0);
    if secs.1 == s.len() {
        Some(fold_sections(secs.0))
    } else {
        None
    }
}

} // verus!
