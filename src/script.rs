//! The compiled form of a script: instructions, sections and the `Script`
//! table that maps each section name to its instruction list.
use vstd::prelude::*;
use crate::expr::{Expr, ExprModel};

verus! {

/// The built-in behaviours that `special(...)` can invoke.
#[derive(Clone, Copy, Debug, PartialEq, Eq, Structural)]
pub enum SpecialInstruction {
    /// Open the shop's buying dialog.
    ShopBuy,
    /// Open the shop's selling dialog.
    ShopSell,
}

pub open spec fn shop_buy_name() -> Seq<char> {
    seq!['s', 'h', 'o', 'p', '_', 'b', 'u', 'y']
}

pub open spec fn shop_sell_name() -> Seq<char> {
    seq!['s', 'h', 'o', 'p', '_', 's', 'e', 'l', 'l']
}

/// The symbol that names each special behaviour in a script.
pub open spec fn special_name(k: SpecialInstruction) -> Seq<char> {
    match k {
        SpecialInstruction::ShopBuy => shop_buy_name(),
        SpecialInstruction::ShopSell => shop_sell_name(),
    }
}

/// The special behaviour that a symbol names, if any.
pub open spec fn special_of(w: Seq<char>) -> Option<SpecialInstruction> {
    if w == shop_buy_name() {
        Some(SpecialInstruction::ShopBuy)
    } else if w == shop_sell_name() {
        Some(SpecialInstruction::ShopSell)
    } else {
        None
    }
}

impl SpecialInstruction {
    /// The symbol of this behaviour, as written in scripts.
    pub fn name(&self) -> (r: &'static str)
        ensures
            r@ == special_name(*self),
    {
        match self {
            SpecialInstruction::ShopBuy => {
                proof {
                    reveal_strlit("shop_buy");
                }
                "shop_buy"
            },
            SpecialInstruction::ShopSell => {
                proof {
                    reveal_strlit("shop_sell");
                }
                "shop_sell"
            },
        }
    }
}

/// One step of a script.
#[derive(Clone, Debug, PartialEq, Eq)]
pub enum Instruction {
    /// Go on with the named section.
    Jump(String),
    /// Go on with the named section when the expression holds.
    JumpIf(String, Expr),
    /// Show a text, then offer the choices: (label, target section) pairs.
    Talk(String, Vec<(String, String)>),
    /// Set a global variable to the value of the expression.
    GSet(String, Expr),
    /// Give the player the amount of money that the expression gives.
    ReceiveMoney(Expr),
    /// Take the named item from the player's inventory.
    RemoveItem(String),
    /// Invoke a built-in behaviour.
    Special(SpecialInstruction),
}

/// What an `Instruction` holds, with its strings as character sequences.
pub enum InstructionModel {
    Jump(Seq<char>),
    JumpIf(Seq<char>, ExprModel),
    Talk(Seq<char>, Seq<(Seq<char>, Seq<char>)>),
    GSet(Seq<char>, ExprModel),
    ReceiveMoney(ExprModel),
    RemoveItem(Seq<char>),
    Special(SpecialInstruction),
}

pub open spec fn choices_model(c: Seq<(String, String)>) -> Seq<(Seq<char>, Seq<char>)> {
    c.map_values(|p: (String, String)| (p.0@, p.1@))
}

impl View for Instruction {
    type V = InstructionModel;

    open spec fn view(&self) -> InstructionModel {
        match self {
            Instruction::Jump(t) => InstructionModel::Jump(t@),
            Instruction::JumpIf(t, e) => InstructionModel::JumpIf(t@, e@),
            Instruction::Talk(t, c) => InstructionModel::Talk(t@, choices_model(c@)),
            Instruction::GSet(v, e) => InstructionModel::GSet(v@, e@),
            Instruction::ReceiveMoney(e) => InstructionModel::ReceiveMoney(e@),
            Instruction::RemoveItem(i) => InstructionModel::RemoveItem(i@),
            Instruction::Special(k) => InstructionModel::Special(*k),
        }
    }
}

/// A section as read from the source: its name and its instructions in order.
pub type SectionModel = (Seq<char>, Seq<InstructionModel>);

pub open spec fn instructions_model(v: Seq<Instruction>) -> Seq<InstructionModel> {
    v.map_values(|i: Instruction| i@)
}

pub open spec fn sections_model(v: Seq<(String, Vec<Instruction>)>) -> Seq<SectionModel> {
    v.map_values(|e: (String, Vec<Instruction>)| (e.0@, instructions_model(e.1@)))
}

/// The table that a sequence of sections makes: each name maps to the
/// instructions of the last section of that name.
pub open spec fn fold_sections(secs: Seq<SectionModel>) -> Map<Seq<char>, Seq<InstructionModel>>
    decreases secs.len(),
{
    if secs.len() == 0 {
        Map::empty()
    } else {
        fold_sections(secs.drop_last()).insert(secs.last().0, secs.last().1)
    }
}

/// Whether no two sections share a name.
pub open spec fn names_unique(secs: Seq<SectionModel>) -> bool {
    forall|i: int, j: int| 0 <= i < j < secs.len() ==> secs[i].0 != secs[j].0
}

/// A name is in the table exactly when some section has it.
pub proof fn lemma_fold_contains(secs: Seq<SectionModel>, n: Seq<char>)
    ensures
        fold_sections(secs).contains_key(n) <==> exists|i: int| 0 <= i < secs.len() && secs[i].0 == n,
    decreases secs.len(),
{
    if secs.len() > 0 {
        let init = secs.drop_last();
        lemma_fold_contains(init, n);
        if exists|i: int| 0 <= i < init.len() && init[i].0 == n {
            let i = choose|i: int| 0 <= i < init.len() && init[i].0 == n;
            assert(secs[i].0 == n);
        }
        if exists|i: int| 0 <= i < secs.len() && secs[i].0 == n {
            let i = choose|i: int| 0 <= i < secs.len() && secs[i].0 == n;
            if i < secs.len() - 1 {
                assert(init[i].0 == n);
            }
        }
    }
}

/// A name maps to the instructions of the last section that has it.
pub proof fn lemma_fold_last(secs: Seq<SectionModel>, j: int)
    requires
        0 <= j < secs.len(),
        forall|k: int| j < k < secs.len() ==> secs[k].0 != secs[j].0,
    ensures
        fold_sections(secs).contains_key(secs[j].0),
        fold_sections(secs)[secs[j].0] == secs[j].1,
    decreases secs.len(),
{
    if j < secs.len() - 1 {
        let init = secs.drop_last();
        lemma_fold_last(init, j);
    }
}

/// With unique names, the table has one entry per section.
proof fn lemma_fold_len(secs: Seq<SectionModel>)
    requires
        names_unique(secs),
    ensures
        fold_sections(secs).dom().finite(),
        fold_sections(secs).dom().len() == secs.len(),
    decreases secs.len(),
{
    if secs.len() > 0 {
        let init = secs.drop_last();
        lemma_fold_len(init);
        lemma_fold_contains(init, secs.last().0);
        assert(!fold_sections(init).contains_key(secs.last().0));
    }
}

/// Replacing the instructions of a section whose name no other section has
/// replaces them in the table.
proof fn lemma_fold_update(secs: Seq<SectionModel>, i: int, body: Seq<InstructionModel>)
    requires
        names_unique(secs),
        0 <= i < secs.len(),
    ensures
        fold_sections(secs.update(i, (secs[i].0, body))) == fold_sections(secs).insert(secs[i].0, body),
    decreases secs.len(),
{
    let upd = secs.update(i, (secs[i].0, body));
    let init = secs.drop_last();
    if i == secs.len() - 1 {
        assert(upd.drop_last() =~= init);
        assert(fold_sections(upd) =~= fold_sections(secs).insert(secs[i].0, body));
    } else {
        lemma_fold_update(init, i, body);
        assert(upd.drop_last() =~= init.update(i, (secs[i].0, body)));
        assert(secs[i].0 != secs.last().0);
        assert(fold_sections(upd) =~= fold_sections(secs).insert(secs[i].0, body));
    }
}

/// Whether two strings hold the same characters.
fn str_eq(a: &str, b: &str) -> (r: bool)
    ensures
        r == (a@ == b@),
{
    let n = a.unicode_len();
    if n != b.unicode_len() {
        return false;
    }
    let mut i: usize = 0;
    while i < n
        invariant
            n == a@.len(),
            n == b@.len(),
            i <= n,
            forall|j: int| 0 <= j < i ==> a@[j] == b@[j],
        decreases n - i,
    {
        if a.get_char(i) != b.get_char(i) {
            return false;
        }
        i = i + 1;
    }
    assert(a@ =~= b@);
    true
}

/// A compiled script: each section name maps to its instruction list.
pub struct Script {
    sections: Vec<(String, Vec<Instruction>)>,
}

impl View for Script {
    type V = Map<Seq<char>, Seq<InstructionModel>>;

    closed spec fn view(&self) -> Map<Seq<char>, Seq<InstructionModel>> {
        fold_sections(sections_model(self.sections@))
    }
}

impl Script {
    #[verifier::type_invariant]
    spec fn names_are_unique(&self) -> bool {
        names_unique(sections_model(self.sections@))
    }

    /// Builds the table from sections in source order; of two sections with
    /// the same name, the later one is kept.
    pub fn from_sections(secs: Vec<(String, Vec<Instruction>)>) -> (r: Script)
        ensures
            r@ == fold_sections(sections_model(secs@)),
    {
        let mut table: Vec<(String, Vec<Instruction>)> = Vec::new();
        let mut rest = secs;
        let ghost all = sections_model(secs@);
        let ghost n = all.len();
        let ghost mut k: int = 0;
        proof {
            assert(all.subrange(0, 0) =~= Seq::<SectionModel>::empty());
            assert(sections_model(rest@) =~= all.subrange(0, n as int));
        }
        while rest.len() > 0
            invariant
                n == all.len(),
                0 <= k <= n,
                sections_model(rest@) =~= all.subrange(k, n as int),
                names_unique(sections_model(table@)),
                fold_sections(sections_model(table@)) == fold_sections(all.subrange(0, k)),
            decreases rest@.len(),
        {
            let ghost old_rest = rest@;
            let (name, body) = rest.remove(0);
            proof {
                assert(old_rest.len() > 0);
                assert(sections_model(old_rest).len() == old_rest.len());
                assert(k < n);
                assert(old_rest[0] == (name, body));
                assert(sections_model(old_rest)[0] == all.subrange(k, n as int)[0]);
                assert(sections_model(rest@) =~= sections_model(old_rest).subrange(1, old_rest.len() as int));
                assert(sections_model(rest@) =~= all.subrange(k + 1, n as int));
            }
            let ghost entry = (name@, instructions_model(body@));
            assert(entry == all[k]);
            let mut i: usize = 0;
            let mut found = false;
            while i < table.len() && !found
                invariant
                    i <= table@.len(),
                    found ==> i < table@.len() && sections_model(table@)[i as int].0 == name@,
                    forall|j: int| 0 <= j < i ==> sections_model(table@)[j].0 != name@,
                decreases table@.len() - i + (if found { 0int } else { 1int }),
            {
                if table[i].0 == name {
                    found = true;
                } else {
                    i = i + 1;
                }
            }
            let ghost before = sections_model(table@);
            if found {
                table.set(i, (name, body));
                proof {
                    lemma_fold_update(before, i as int, entry.1);
                    assert(sections_model(table@) =~= before.update(i as int, entry));
                }
            } else {
                table.push((name, body));
                proof {
                    assert(sections_model(table@) =~= before.push(entry));
                    assert(sections_model(table@).drop_last() =~= before);
                }
            }
            proof {
                assert(all.subrange(0, k + 1).drop_last() =~= all.subrange(0, k));
                if !found {
                    assert forall|a: int, b: int| 0 <= a < b < sections_model(table@).len()
                        implies sections_model(table@)[a].0 != sections_model(table@)[b].0 by {
                        if b == sections_model(table@).len() - 1 {
                            assert(sections_model(table@)[a] == before[a]);
                        } else {
                            assert(sections_model(table@)[a] == before[a]);
                            assert(sections_model(table@)[b] == before[b]);
                        }
                    }
                }
                k = k + 1;
            }
        }
        proof {
            assert(all.subrange(0, k) =~= all);
        }
        Script { sections: table }
    }

    /// The instructions of the named section, if the script has one.
    pub fn get(&self, name: &str) -> (r: Option<&Vec<Instruction>>)
        ensures
            match r {
                Some(v) => self@.contains_key(name@) && self@[name@] == instructions_model(v@),
                None => !self@.contains_key(name@),
            },
    {
        proof {
            use_type_invariant(self);
        }
        let ghost secs = sections_model(self.sections@);
        let mut i: usize = 0;
        while i < self.sections.len()
            invariant
                i <= self.sections@.len(),
                secs == sections_model(self.sections@),
                names_unique(secs),
                forall|j: int| 0 <= j < i ==> secs[j].0 != name@,
            decreases self.sections@.len() - i,
        {
            if str_eq(self.sections[i].0.as_str(), name) {
                proof {
                    lemma_fold_last(secs, i as int);
                }
                return Some(&self.sections[i].1);
            }
            i = i + 1;
        }
        proof {
            lemma_fold_contains(secs, name@);
        }
        None
    }

    /// The number of sections.
    pub fn len(&self) -> (r: usize)
        ensures
            r == self@.dom().len(),
    {
        proof {
            use_type_invariant(self);
            lemma_fold_len(sections_model(self.sections@));
        }
        self.sections.len()
    }
}

} // verus!
