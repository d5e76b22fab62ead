//! Properties of the compiler that hold for every source text.
use vstd::prelude::*;
use crate::grammar::{
    choice_array_at, choice_at, choice_list_at, compile_text, gset_at, instruction_at,
    instructions_from, jump_at, jump_if_at, kw_special, kw_talk, more_choices,
    open_ident_comma_at, paren_symbol_at,
    receive_money_at, remove_item_at, section_at, section_mark, section_start_at, sections_from,
    special_at, talk_at, talk_choices_at,
};
use crate::lexer::{
    char_at, end_line_at, in_class, lemma_span_end_bounds, skip_white, span_end, token_at, word_at, ws_char_at,
    ws_ident_at, ws_word_at, CharClass,
};
use crate::script::{
    lemma_fold_contains, lemma_fold_last, special_name, special_of, InstructionModel,
    SpecialInstruction,
};

verus! {

/// Every special behaviour is read back from its own name.
pub proof fn law_special_name_round_trip(k: SpecialInstruction)
    ensures
        special_of(special_name(k)) == Some(k),
{
    assert(special_name(SpecialInstruction::ShopSell) != special_name(SpecialInstruction::ShopBuy))
        by {
        assert(special_name(SpecialInstruction::ShopSell).len() == 9);
    }
}

/// When two sections have the same name, looking the name up in the compiled
/// script gives the instructions of the later one, unless a still later
/// section has that name too.
pub proof fn law_later_section_replaces_earlier(s: Seq<char>, i: int, j: int)
    requires
        compile_text(s) is Some,
        0 <= i < j < sections_from(s, 0).0.len(),
        sections_from(s, 0).0[i].0 == sections_from(s, 0).0[j].0,
        forall|k: int|
            j < k < sections_from(s, 0).0.len() ==> #[trigger] sections_from(s, 0).0[k].0
                != sections_from(s, 0).0[j].0,
    ensures
        compile_text(s).unwrap().contains_key(sections_from(s, 0).0[j].0),
        compile_text(s).unwrap()[sections_from(s, 0).0[j].0] == sections_from(s, 0).0[j].1,
{
    lemma_fold_last(sections_from(s, 0).0, j);
}

/// The names in a compiled script are exactly the names of its sections.
pub proof fn law_script_names_are_section_names(s: Seq<char>, n: Seq<char>)
    requires
        compile_text(s) is Some,
    ensures
        compile_text(s).unwrap().contains_key(n) <==> exists|i: int|
            0 <= i < sections_from(s, 0).0.len() && #[trigger] sections_from(s, 0).0[i].0 == n,
{
    lemma_fold_contains(sections_from(s, 0).0, n);
}

/// The instructions of a section are kept in the order in which they are
/// written: each one is read where the one before it ends.
pub proof fn law_instructions_in_source_order(s: Seq<char>, p: int)
    requires
        0 <= p <= s.len(),
    ensures
        exists|pos: Seq<int>|
            {
                &&& pos.len() == instructions_from(s, p).0.len() + 1
                &&& pos[0] == p
                &&& pos.last() == instructions_from(s, p).1
                &&& forall|k: int|
                    0 <= k < instructions_from(s, p).0.len() ==> instruction_at(s, #[trigger] pos[k])
                        == Some((instructions_from(s, p).0[k], pos[k + 1]))
            },
    decreases s.len() - p,
{
    let r = instructions_from(s, p);
    match instruction_at(s, p) {
        Some((i, q)) => {
            if p < q <= s.len() {
                law_instructions_in_source_order(s, q);
                let rest = instructions_from(s, q);
                let tail = choose|pos: Seq<int>|
                    {
                        &&& pos.len() == rest.0.len() + 1
                        &&& pos[0] == q
                        &&& pos.last() == rest.1
                        &&& forall|k: int|
                            0 <= k < rest.0.len() ==> instruction_at(s, #[trigger] pos[k]) == Some(
                                (rest.0[k], pos[k + 1]),
                            )
                    };
                let pos = seq![p] + tail;
                assert forall|k: int| 0 <= k < r.0.len() implies instruction_at(s, #[trigger] pos[k])
                    == Some((r.0[k], pos[k + 1])) by {
                    if k > 0 {
                        assert(pos[k] == tail[k - 1]);
                        assert(r.0[k] == rest.0[k - 1]);
                    }
                }
                assert(pos.last() == tail.last());
            } else {
                assert(seq![p].last() == p);
            }
        },
        None => {
            assert(seq![p].last() == p);
        },
    }
}

/// No instruction form starts at a position whose first non-blank character
/// is `-`, nor at the end of the text.
proof fn lemma_no_instruction_before_mark(s: Seq<char>, p: int)
    requires
        0 <= p <= s.len(),
        p == s.len() || s[p] == '-',
    ensures
        instruction_at(s, p) is None,
{
    reveal(instruction_at);
    lemma_span_end_bounds(s, p, CharClass::White);
    assert(skip_white(s, p) == p);
    let w = s.subrange(p, p + 4);
    assert(!word_at(s, p, seq!['j', 'u', 'm', 'p']) || w[0] == 'j');
    assert(!word_at(s, p, seq!['j', 'u', 'm', 'p', '_', 'i', 'f']) || s.subrange(p, p + 7)[0] == 'j');
    assert(!word_at(s, p, seq!['t', 'a', 'l', 'k']) || w[0] == 't');
    assert(!word_at(s, p, seq!['g', 's', 'e', 't']) || w[0] == 'g');
    assert(!word_at(s, p, seq!['r', 'e', 'c', 'e', 'i', 'v', 'e', '_', 'm', 'o', 'n', 'e', 'y'])
        || s.subrange(p, p + 13)[0] == 'r');
    assert(!word_at(s, p, seq!['r', 'e', 'm', 'o', 'v', 'e', '_', 'i', 't', 'e', 'm'])
        || s.subrange(p, p + 11)[0] == 'r');
    assert(!word_at(s, p, seq!['s', 'p', 'e', 'c', 'i', 'a', 'l']) || s.subrange(p, p + 7)[0] == 's');
}

/// A section header followed at once by another header, or by the end of
/// the text, is a section with no instructions.
pub proof fn law_empty_section(s: Seq<char>, p: int)
    requires
        0 <= p <= s.len(),
        section_start_at(s, p) matches Some((_, q)) && (q == s.len() || word_at(s, q, section_mark())),
    ensures
        section_at(s, p) matches Some((sec, q)) && sec.0 == section_start_at(s, p).unwrap().0
            && sec.1 == Seq::<InstructionModel>::empty() && q == section_start_at(s, p).unwrap().1,
{
    let q = section_start_at(s, p).unwrap().1;
    if q < s.len() {
        assert(s.subrange(q, q + 3)[0] == s[q]);
    }
    lemma_no_instruction_before_mark(s, q);
}

/// Text left over after the last section that can be read makes the whole
/// compilation fail.
pub proof fn law_unread_text_fails(s: Seq<char>)
    requires
        sections_from(s, 0).1 < s.len(),
    ensures
        compile_text(s) is None,
{
}

/// `special(...)` with a symbol that names no behaviour is no instruction:
/// the section's instructions, and the reading of sections, stop before it,
/// so the text is not read to its end.
pub proof fn law_unknown_special_is_rejected(s: Seq<char>, p: int)
    requires
        0 <= p <= s.len(),
        ws_word_at(s, p, kw_special()) matches Some(a) && paren_symbol_at(s, a) matches Some((w, _))
            && special_of(w) is None,
    ensures
        instruction_at(s, p) is None,
        instructions_from(s, p).0.len() == 0,
        instructions_from(s, p).1 == p,
        sections_from(s, p).1 == p,
        p < s.len(),
{
    reveal(instruction_at);
    let a = skip_white(s, p);
    lemma_span_end_bounds(s, p, CharClass::White);
    assert(word_at(s, a, kw_special()));
    assert(s.subrange(a, a + 7)[0] == s[a]);
    assert(s[a] == 's');
    assert(!word_at(s, a, seq!['j', 'u', 'm', 'p']) || s.subrange(a, a + 4)[0] == 'j');
    assert(!word_at(s, a, seq!['j', 'u', 'm', 'p', '_', 'i', 'f']) || s.subrange(a, a + 7)[0] == 'j');
    assert(!word_at(s, a, seq!['t', 'a', 'l', 'k']) || s.subrange(a, a + 4)[0] == 't');
    assert(!word_at(s, a, seq!['g', 's', 'e', 't']) || s.subrange(a, a + 4)[0] == 'g');
    assert(!word_at(s, a, seq!['r', 'e', 'c', 'e', 'i', 'v', 'e', '_', 'm', 'o', 'n', 'e', 'y'])
        || s.subrange(a, a + 13)[0] == 'r');
    assert(!word_at(s, a, seq!['r', 'e', 'm', 'o', 'v', 'e', '_', 'i', 't', 'e', 'm'])
        || s.subrange(a, a + 11)[0] == 'r');
    assert(jump_at(s, p) is None);
    assert(jump_if_at(s, p) is None);
    assert(talk_choices_at(s, p) is None);
    assert(talk_at(s, p) is None);
    assert(gset_at(s, p) is None);
    assert(receive_money_at(s, p) is None);
    assert(remove_item_at(s, p) is None);
    assert(special_at(s, p) is None);
    assert(!word_at(s, p, section_mark()) || s.subrange(p, p + 3)[0] == '-');
    if p < s.len() && s[p] == '-' {
        assert(a == p);
    }
}

/// Two texts of the same length that differ only where both hold white
/// space (a line break against a space, say).
pub open spec fn same_but_white(s: Seq<char>, t: Seq<char>) -> bool {
    &&& s.len() == t.len()
    &&& forall|i: int|
        0 <= i < s.len() ==> #[trigger] s[i] == t[i] || (in_class(s[i], CharClass::White) && in_class(
            t[i],
            CharClass::White,
        ))
}

proof fn lemma_span_same_but_white(s: Seq<char>, t: Seq<char>, p: int, k: CharClass)
    requires
        same_but_white(s, t),
        0 <= p <= s.len(),
        !(k is Space),
    ensures
        span_end(s, p, k) == span_end(t, p, k),
    decreases s.len() - p,
{
    if p < s.len() {
        assert(s[p] == t[p] || (in_class(s[p], CharClass::White) && in_class(t[p], CharClass::White)));
        lemma_span_same_but_white(s, t, p + 1, k);
    }
}

proof fn lemma_token_same_but_white(s: Seq<char>, t: Seq<char>, p: int, k: CharClass)
    requires
        same_but_white(s, t),
        0 <= p <= s.len(),
        k is Ident || k is Symbol || k is Digit,
    ensures
        token_at(s, p, k) == token_at(t, p, k),
        skip_white(s, p) == skip_white(t, p),
{
    lemma_span_same_but_white(s, t, p, k);
    lemma_span_same_but_white(s, t, p, CharClass::White);
    lemma_span_end_bounds(s, p, k);
    let q = span_end(s, p, k);
    assert forall|i: int| p <= i < q implies s[i] == t[i] by {
        assert(in_class(s[i], k));
    }
    assert(s.subrange(p, q) =~= t.subrange(p, q));
}

/// Reading `c` (not white space) with white space around it.
proof fn lemma_ws_char_same_but_white(s: Seq<char>, t: Seq<char>, p: int, c: char)
    requires
        same_but_white(s, t),
        0 <= p <= s.len(),
        !in_class(c, CharClass::White),
    ensures
        ws_char_at(s, p, c) == ws_char_at(t, p, c),
        ws_char_at(s, p, c) matches Some(q) ==> p < q <= s.len(),
{
    lemma_span_same_but_white(s, t, p, CharClass::White);
    lemma_span_end_bounds(s, p, CharClass::White);
    let a = skip_white(s, p);
    if a < s.len() {
        lemma_span_end_bounds(s, a + 1, CharClass::White);
        assert(s[a] == t[a] || (in_class(s[a], CharClass::White) && in_class(t[a], CharClass::White)));
        lemma_span_same_but_white(s, t, a + 1, CharClass::White);
    }
}

proof fn lemma_ws_ident_same_but_white(s: Seq<char>, t: Seq<char>, p: int)
    requires
        same_but_white(s, t),
        0 <= p <= s.len(),
    ensures
        ws_ident_at(s, p) == ws_ident_at(t, p),
        ws_ident_at(s, p) matches Some((_, q)) ==> p < q <= s.len(),
{
    lemma_token_same_but_white(s, t, p, CharClass::Ident);
    lemma_span_end_bounds(s, p, CharClass::White);
    let a = skip_white(s, p);
    lemma_token_same_but_white(s, t, a, CharClass::Ident);
    lemma_span_end_bounds(s, a, CharClass::Ident);
    let q = span_end(s, a, CharClass::Ident);
    lemma_token_same_but_white(s, t, q, CharClass::Ident);
    lemma_span_end_bounds(s, q, CharClass::White);
}

proof fn lemma_choice_same_but_white(s: Seq<char>, t: Seq<char>, p: int)
    requires
        same_but_white(s, t),
        0 <= p <= s.len(),
    ensures
        choice_at(s, p) == choice_at(t, p),
        choice_at(s, p) matches Some((_, q)) ==> p < q <= s.len(),
{
    lemma_ws_char_same_but_white(s, t, p, '(');
    lemma_span_end_bounds(s, p, CharClass::White);
    if let Some(a) = ws_char_at(s, p, '(') {
        lemma_span_end_bounds(s, a, CharClass::White);
        lemma_ws_ident_same_but_white(s, t, a);
        if let Some((_, b)) = ws_ident_at(s, a) {
            lemma_ws_char_same_but_white(s, t, b, ',');
            if let Some(c) = ws_char_at(s, b, ',') {
                lemma_span_end_bounds(s, b, CharClass::White);
                lemma_span_end_bounds(s, c, CharClass::White);
                lemma_ws_ident_same_but_white(s, t, c);
                if let Some((_, d)) = ws_ident_at(s, c) {
                    lemma_ws_char_same_but_white(s, t, d, ')');
                    lemma_span_end_bounds(s, d, CharClass::White);
                    if let Some(e) = ws_char_at(s, d, ')') {
                        lemma_span_end_bounds(s, e, CharClass::White);
                    }
                }
            }
        }
    }
}

proof fn lemma_more_choices_same_but_white(s: Seq<char>, t: Seq<char>, p: int)
    requires
        same_but_white(s, t),
        0 <= p <= s.len(),
    ensures
        more_choices(s, p) == more_choices(t, p),
    decreases s.len() - p,
{
    lemma_ws_char_same_but_white(s, t, p, ',');
    lemma_span_end_bounds(s, p, CharClass::White);
    if let Some(a) = ws_char_at(s, p, ',') {
        lemma_span_end_bounds(s, skip_white(s, p) + 1, CharClass::White);
        lemma_choice_same_but_white(s, t, a);
        if let Some((_, q)) = choice_at(s, a) {
            if p < q <= s.len() {
                lemma_more_choices_same_but_white(s, t, q);
            }
        }
    }
}

/// A list of choices reads the same whichever white space separates its
/// parts: it may be broken over several lines.
pub proof fn law_choice_list_ignores_line_breaks(s: Seq<char>, t: Seq<char>, p: int)
    requires
        same_but_white(s, t),
        0 <= p <= s.len(),
    ensures
        choice_array_at(s, p) == choice_array_at(t, p),
{
    lemma_ws_char_same_but_white(s, t, p, '[');
    lemma_span_end_bounds(s, p, CharClass::White);
    if let Some(a) = ws_char_at(s, p, '[') {
        lemma_span_end_bounds(s, skip_white(s, p) + 1, CharClass::White);
        lemma_choice_same_but_white(s, t, a);
        if let Some((_, q)) = choice_at(s, a) {
            lemma_more_choices_same_but_white(s, t, q);
            lemma_more_choices_bounds(s, q);
        }
        let l = choice_list_at(s, a);
        lemma_ws_char_same_but_white(s, t, l.1, ']');
    }
}

proof fn lemma_more_choices_bounds(s: Seq<char>, p: int)
    requires
        0 <= p <= s.len(),
    ensures
        p <= more_choices(s, p).1 <= s.len(),
    decreases s.len() - p,
{
    if let Some(a) = ws_char_at(s, p, ',') {
        if let Some((_, q)) = choice_at(s, a) {
            if p < q <= s.len() {
                lemma_more_choices_bounds(s, q);
            }
        }
    }
}

proof fn lemma_char_same_but_white(s: Seq<char>, t: Seq<char>, p: int, c: char)
    requires
        same_but_white(s, t),
        !in_class(c, CharClass::White),
    ensures
        char_at(s, p, c) == char_at(t, p, c),
{
    if 0 <= p < s.len() {
        assert(s[p] == t[p] || (in_class(s[p], CharClass::White) && in_class(t[p], CharClass::White)));
    }
}

/// A keyword reads the same in both texts.
proof fn lemma_talk_word_same_but_white(s: Seq<char>, t: Seq<char>, p: int)
    requires
        same_but_white(s, t),
        0 <= p <= s.len(),
    ensures
        ws_word_at(s, p, kw_talk()) == ws_word_at(t, p, kw_talk()),
        ws_word_at(s, p, kw_talk()) matches Some(q) ==> p < q <= s.len(),
{
    lemma_span_same_but_white(s, t, p, CharClass::White);
    lemma_span_end_bounds(s, p, CharClass::White);
    let a = skip_white(s, p);
    let w = kw_talk();
    if a + 4 <= s.len() {
        assert forall|i: int| 0 <= i < 4 implies (s[a + i] == w[i]) == (t[a + i] == w[i]) by {
            assert(s[a + i] == t[a + i] || (in_class(s[a + i], CharClass::White) && in_class(
                t[a + i],
                CharClass::White,
            )));
        }
        if word_at(s, a, w) {
            assert forall|i: int| 0 <= i < 4 implies t.subrange(a, a + 4)[i] == w[i] by {
                assert(s.subrange(a, a + 4)[i] == w[i]);
            }
            assert(t.subrange(a, a + 4) =~= w);
        }
        if word_at(t, a, w) {
            assert forall|i: int| 0 <= i < 4 implies s.subrange(a, a + 4)[i] == w[i] by {
                assert(t.subrange(a, a + 4)[i] == w[i]);
            }
            assert(s.subrange(a, a + 4) =~= w);
        }
        lemma_span_same_but_white(s, t, a + 4, CharClass::White);
        lemma_span_end_bounds(s, a + 4, CharClass::White);
    }
}

proof fn lemma_space_same_suffix(s: Seq<char>, t: Seq<char>, p: int)
    requires
        s.len() == t.len(),
        0 <= p <= s.len(),
        forall|i: int| p <= i < s.len() ==> s[i] == t[i],
    ensures
        span_end(s, p, CharClass::Space) == span_end(t, p, CharClass::Space),
        end_line_at(s, p) == end_line_at(t, p),
    decreases s.len() - p,
{
    if p < s.len() {
        lemma_space_same_suffix(s, t, p + 1);
    }
    lemma_span_end_bounds(s, p, CharClass::Space);
}

/// Two positions after a `)` from which one line end reads to the same place
/// are the same position.
proof fn lemma_line_end_start_unique(s: Seq<char>, d: int, k: int, e: int)
    requires
        1 <= d <= s.len(),
        1 <= k <= s.len(),
        s[d - 1] == ')',
        s[k - 1] == ')',
        end_line_at(s, d) == Some(e),
        end_line_at(s, k) == Some(e),
    ensures
        d == k,
{
    lemma_span_end_bounds(s, d, CharClass::Space);
    lemma_span_end_bounds(s, k, CharClass::Space);
    let qd = span_end(s, d, CharClass::Space);
    let qk = span_end(s, k, CharClass::Space);
    if d < k {
        if qd != qk {
            assert(in_class(s[k - 1], CharClass::Space) || s[k - 1] == '\r' || s[k - 1] == '\n');
        }
        assert(in_class(s[k - 1], CharClass::Space));
    } else if k < d {
        if qd != qk {
            assert(in_class(s[d - 1], CharClass::Space) || s[d - 1] == '\r' || s[d - 1] == '\n');
        }
        assert(in_class(s[d - 1], CharClass::Space));
    }
}

/// When the instructions of the first section stop at a `special(...)`
/// whose symbol names no behaviour, the script does not compile.
pub proof fn law_unknown_special_fails_compilation(s: Seq<char>, p: int)
    requires
        0 <= p <= s.len(),
        section_start_at(s, 0) matches Some((_, a)) && instructions_from(s, a).1 == p,
        ws_word_at(s, p, kw_special()) matches Some(b) && paren_symbol_at(s, b) matches Some((w, _))
            && special_of(w) is None,
    ensures
        compile_text(s) is None,
{
    law_unknown_special_is_rejected(s, p);
    let a = section_start_at(s, 0).unwrap().1;
    lemma_section_start_advances(s, 0);
    lemma_instructions_advance(s, a);
    assert(sections_from(s, 0).1 == sections_from(s, p).1);
}

proof fn lemma_section_start_advances(s: Seq<char>, p: int)
    requires
        0 <= p <= s.len(),
    ensures
        section_start_at(s, p) matches Some((_, q)) ==> p < q <= s.len(),
{
    if section_start_at(s, p) is Some {
        let a = token_at(s, p + 3, CharClass::Space).unwrap().1;
        lemma_span_end_bounds(s, p + 3, CharClass::Space);
        lemma_span_end_bounds(s, a, CharClass::Ident);
        let b = token_at(s, a, CharClass::Ident).unwrap().1;
        lemma_span_end_bounds(s, b, CharClass::Space);
    }
}

proof fn lemma_instructions_advance(s: Seq<char>, p: int)
    requires
        0 <= p <= s.len(),
    ensures
        p <= instructions_from(s, p).1 <= s.len(),
    decreases s.len() - p,
{
    if let Some((_, q)) = instruction_at(s, p) {
        if p < q <= s.len() {
            lemma_instructions_advance(s, q);
        }
    }
}

/// A `talk` instruction with choices reads the same when white space inside
/// its parentheses is swapped for other white space, a space for a line
/// break say: `k` is the position after its closing `)`, from where on the
/// two texts agree.
pub proof fn law_talk_ignores_line_breaks(s: Seq<char>, t: Seq<char>, p: int, k: int)
    requires
        same_but_white(s, t),
        0 <= p <= s.len(),
        1 <= k <= s.len(),
        s[k - 1] == ')',
        talk_choices_at(s, p) matches Some((_, e)) && end_line_at(s, k) == Some(e),
        forall|i: int| k - 1 <= i < s.len() ==> s[i] == t[i],
    ensures
        talk_choices_at(t, p) == talk_choices_at(s, p),
{
    lemma_talk_word_same_but_white(s, t, p);
    let a = ws_word_at(s, p, kw_talk()).unwrap();
    lemma_char_same_but_white(s, t, a, '(');
    lemma_ws_ident_same_but_white(s, t, a + 1);
    let (_, b0) = ws_ident_at(s, a + 1).unwrap();
    lemma_char_same_but_white(s, t, b0, ',');
    let b = b0 + 1;
    assert(open_ident_comma_at(s, a) == open_ident_comma_at(t, a));
    law_choice_list_ignores_line_breaks(s, t, b);
    let (_, c) = choice_array_at(s, b).unwrap();
    lemma_char_same_but_white(s, t, c, ')');
    let d = c + 1;
    let e = talk_choices_at(s, p).unwrap().1;
    lemma_line_end_start_unique(s, d, k, e);
    lemma_space_same_suffix(s, t, k);
}

} // verus!
