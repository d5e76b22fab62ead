use makepak::{
    end_line, instruction, jump_if_instruction, jump_instruction, parse, section_start,
    special_instruction, talk_instruction, talk_instruction_with_choices, Expr, Instruction,
    PakCompileError, SpecialInstruction,
};

fn s(x: &str) -> String {
    x.to_owned()
}

#[test]
fn end_line_test() {
    assert_eq!(end_line("   \naabb"), Some("aabb"));
}

#[test]
fn section_start_test() {
    assert_eq!(section_start("---  section_name \n"), Some(("", "section_name".to_string())));
}

#[test]
fn jump_instruction_test() {
    assert_eq!(
        jump_instruction(" jump ( other_section ) \n"),
        Some(("", Instruction::Jump("other_section".to_owned())))
    );
    assert_eq!(
        jump_if_instruction("jump_if(has-key, has_item(key))\n"),
        Some(("", Instruction::JumpIf("has-key".to_owned(), Expr::HasItem("key".to_owned()))))
    );
}

#[test]
fn special_instruction_test() {
    assert_eq!(
        special_instruction("special(shop_buy)\n"),
        Some(("", Instruction::Special(SpecialInstruction::ShopBuy)))
    );
    assert_eq!(
        special_instruction("special(shop_sell)\n"),
        Some(("", Instruction::Special(SpecialInstruction::ShopSell)))
    );
}

#[test]
fn talk_instruction_test() {
    let result = Instruction::Talk(
        "text-id".to_owned(),
        vec![("a".to_owned(), "b".to_owned()), ("c".to_owned(), "d".to_owned())],
    );
    assert_eq!(talk_instruction_with_choices("talk(text-id, [(a, b), (c, d)])\n"), Some(("", result)));
}

#[test]
fn parse_test() {
    let script = r#"--- test_section0
talk(textid0)
special(shop_buy)
jump(test_section1)
--- test_section1
talk(textid1,
     [(aaa, bbb), (ccc, ddd)])
"#;
    let compiled = parse(script).unwrap();
    assert_eq!(compiled.len(), 2);
    assert_eq!(
        compiled.get("test_section0"),
        Some(&vec![
            Instruction::Talk("textid0".to_owned(), vec![]),
            Instruction::Special(SpecialInstruction::ShopBuy),
            Instruction::Jump("test_section1".to_owned()),
        ])
    );
    assert_eq!(
        compiled.get("test_section1"),
        Some(&vec![Instruction::Talk(
            "textid1".to_owned(),
            vec![("aaa".to_owned(), "bbb".to_owned()), ("ccc".to_owned(), "ddd".to_owned())]
        )])
    );
}

#[test]
fn each_form_reads_its_fields() {
    assert_eq!(instruction("jump(next)\n"), Some(("", Instruction::Jump(s("next")))));
    assert_eq!(
        instruction("jump_if(door, true)\n"),
        Some(("", Instruction::JumpIf(s("door"), Expr::Bool(true))))
    );
    assert_eq!(
        instruction("talk(hello, [(yes, a)])\n"),
        Some(("", Instruction::Talk(s("hello"), vec![(s("yes"), s("a"))])))
    );
    assert_eq!(instruction("talk(hello)\n"), Some(("", Instruction::Talk(s("hello"), vec![]))));
    assert_eq!(
        instruction("gset(flag, false)\n"),
        Some(("", Instruction::GSet(s("flag"), Expr::Bool(false))))
    );
    assert_eq!(
        instruction("receive_money(250)\n"),
        Some(("", Instruction::ReceiveMoney(Expr::Int(250))))
    );
    assert_eq!(instruction("remove_item(key)\n"), Some(("", Instruction::RemoveItem(s("key")))));
    assert_eq!(
        instruction("special(shop_sell)\n"),
        Some(("", Instruction::Special(SpecialInstruction::ShopSell)))
    );
}

#[test]
fn instruction_leaves_following_text() {
    assert_eq!(
        instruction("talk(a)\njump(b)\n"),
        Some(("jump(b)\n", Instruction::Talk(s("a"), vec![])))
    );
    assert_eq!(talk_instruction("talk(a)\r\nrest"), Some(("rest", Instruction::Talk(s("a"), vec![]))));
}

#[test]
fn talk_without_choices_is_not_the_choice_form() {
    assert_eq!(talk_instruction_with_choices("talk(a)\n"), None);
    assert_eq!(talk_instruction("talk(a, [(b, c)])\n"), None);
}

#[test]
fn empty_choice_list() {
    assert_eq!(instruction("talk(a, [])\n"), Some(("", Instruction::Talk(s("a"), vec![]))));
}

#[test]
fn multi_line_talk_reads_as_single_line() {
    let one = instruction("talk(text-id, [(a, b), (c, d)])\n");
    let two = instruction("talk(text-id,\n     [(a, b), (c, d)])\n");
    let expected = Instruction::Talk(s("text-id"), vec![(s("a"), s("b")), (s("c"), s("d"))]);
    let three = instruction("talk(text-id,\n[(a, b),\n(c, d)])\n");
    assert_eq!(one, Some(("", expected.clone())));
    assert_eq!(two, Some(("", expected.clone())));
    assert_eq!(three, Some(("", expected)));
}

#[test]
fn line_end_after_arguments_is_required() {
    assert_eq!(instruction("talk(a, [(b, c)]) jump(d)\n"), None);
    assert_eq!(instruction("jump(x) \t \r\n"), Some(("", Instruction::Jump(s("x")))));
}

#[test]
fn blank_lines_between_instructions_are_skipped() {
    let compiled = parse("--- a\ntalk(x)\n\n   jump(b)\n--- b\n").unwrap();
    assert_eq!(
        compiled.get("a"),
        Some(&vec![Instruction::Talk(s("x"), vec![]), Instruction::Jump(s("b"))])
    );
}

#[test]
fn later_section_replaces_earlier() {
    let compiled = parse("--- a\ntalk(first)\njump(b)\n--- b\ntalk(x)\n--- a\ntalk(second)\n").unwrap();
    assert_eq!(compiled.len(), 2);
    assert_eq!(compiled.get("a"), Some(&vec![Instruction::Talk(s("second"), vec![])]));
    assert_eq!(compiled.get("b"), Some(&vec![Instruction::Talk(s("x"), vec![])]));
    assert_eq!(compiled.get("c"), None);
}

#[test]
fn instructions_keep_source_order() {
    let compiled = parse("--- a\nremove_item(z)\ngset(v, 1)\njump(a)\ntalk(m)\n").unwrap();
    assert_eq!(
        compiled.get("a"),
        Some(&vec![
            Instruction::RemoveItem(s("z")),
            Instruction::GSet(s("v"), Expr::Int(1)),
            Instruction::Jump(s("a")),
            Instruction::Talk(s("m"), vec![]),
        ])
    );
}

#[test]
fn empty_sections_compile() {
    let compiled = parse("--- a\n--- b\ntalk(x)\n--- c\n").unwrap();
    assert_eq!(compiled.len(), 3);
    assert_eq!(compiled.get("a"), Some(&vec![]));
    assert_eq!(compiled.get("c"), Some(&vec![]));
    let empty = parse("").unwrap();
    assert_eq!(empty.len(), 0);
}

#[test]
fn trailing_garbage_fails() {
    match parse("--- a\ntalk(x)\nfoo bar\n") {
        Err(PakCompileError::ScriptParseError { position, .. }) => assert_eq!(position, 14),
        Ok(_) => panic!("compiled a script with trailing text"),
    }
    assert!(parse("--- a\ntalk(x)").is_err());
    assert!(parse("--- a\ntalk(x)\n\n").is_err());
}

#[test]
fn unknown_special_fails() {
    assert_eq!(special_instruction("special(shop_steal)\n"), None);
    assert!(parse("--- a\nspecial(shop_steal)\n").is_err());
    assert!(parse("--- a\nspecial(shop_buy)\n").is_ok());
}

#[test]
fn special_names_round_trip() {
    for k in [SpecialInstruction::ShopBuy, SpecialInstruction::ShopSell] {
        assert_eq!(SpecialInstruction::from_name(k.name()), Some(k));
    }
    assert_eq!(SpecialInstruction::ShopBuy.name(), "shop_buy");
    assert_eq!(SpecialInstruction::from_name("shop"), None);
}

#[test]
fn integer_expressions_fit_in_32_bits() {
    assert_eq!(
        instruction("receive_money(4294967295)\n"),
        Some(("", Instruction::ReceiveMoney(Expr::Int(4294967295))))
    );
    assert_eq!(instruction("receive_money(4294967296)\n"), None);
}

#[test]
fn section_header_needs_space_and_line_end() {
    assert_eq!(section_start("---name\n"), None);
    assert_eq!(section_start("--- name"), None);
    assert_eq!(section_start("--- a\r\nx"), Some(("x", s("a"))));
}

#[test]
fn end_line_needs_a_line_break() {
    assert_eq!(end_line("  x"), None);
    assert_eq!(end_line("\r\n"), Some(""));
}
