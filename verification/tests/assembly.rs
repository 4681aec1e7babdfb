use tinyasm::parse_code;
use tinyasm::scan_labels;
use tinyasm::assemble;
use tinyasm::CmpKind;
use tinyasm::DiagKind;
use tinyasm::Instruction;
use tinyasm::Register;

fn text_of(chars: &Vec<char>) -> String {
    chars.iter().collect()
}

#[test]
fn integer_address_bypasses_labels() {
    let out = parse_code("gto 3\nhlt");
    assert_eq!(out.instrs, vec![Instruction::Gto(3), Instruction::Hlt]);
    assert!(out.diags.is_empty());
    assert_eq!(out.labels.lookup("3"), None);
}

#[test]
fn label_reference_resolves_to_declaration_line_successor() {
    let out = parse_code(":loopstart\ndmp\ngto loopstart\nhlt");
    assert_eq!(out.labels.lookup("loopstart"), Some(2));
    assert_eq!(
        out.instrs,
        vec![Instruction::Dmp, Instruction::Gto(2), Instruction::Hlt]
    );
    assert!(out.diags.is_empty());
}

#[test]
fn duplicate_label_last_declaration_wins() {
    let out = parse_code(":loop\ndmp\n:loop\ngto loop\nhlt");
    assert_eq!(out.labels.lookup("loop"), Some(4));
    assert_eq!(
        out.instrs,
        vec![Instruction::Dmp, Instruction::Gto(4), Instruction::Hlt]
    );
}

#[test]
fn missing_operand_is_syntax_error_and_assembly_continues() {
    let out = parse_code("mov a\ndmp\nhlt");
    assert!(out.had_error());
    assert_eq!(out.diags.len(), 1);
    assert_eq!(out.diags[0].line, 1);
    assert_eq!(text_of(&out.diags[0].text), "mov a");
    assert_eq!(out.diags[0].kind, DiagKind::SyntaxError);
    assert_eq!(out.instrs, vec![Instruction::Dmp, Instruction::Hlt]);
}

#[test]
fn unknown_mnemonic_is_skipped_with_diagnostic() {
    let out = parse_code("foo 1 2\ndmp\nhlt");
    assert_eq!(out.diags.len(), 1);
    assert_eq!(out.diags[0].line, 1);
    assert_eq!(out.diags[0].kind, DiagKind::UnexpectedToken);
    assert_eq!(text_of(&out.diags[0].text), "foo 1 2");
    assert_eq!(out.instrs, vec![Instruction::Dmp, Instruction::Hlt]);
}

#[test]
fn clean_program_ends_with_exactly_one_hlt() {
    let out = parse_code("psh 5\npop\nhlt");
    assert!(!out.had_error());
    let hlts = out
        .instrs
        .iter()
        .filter(|i| **i == Instruction::Hlt)
        .count();
    assert_eq!(hlts, 1);
    assert_eq!(out.instrs.last(), Some(&Instruction::Hlt));
}

#[test]
fn missing_hlt_is_synthesized() {
    let out = parse_code("dmp");
    assert_eq!(out.instrs, vec![Instruction::Dmp, Instruction::Hlt]);
}

#[test]
fn hlt_stops_assembly_and_later_lines_are_never_checked() {
    let out = parse_code("hlt\nmov\nfoo bar");
    assert_eq!(out.instrs, vec![Instruction::Hlt]);
    assert!(out.diags.is_empty());
    assert!(!out.had_error());
}

#[test]
fn parsing_twice_gives_identical_results() {
    let src = ":top\npsh 1\ngto top\nhlt";
    let a = parse_code(src);
    let b = parse_code(src);
    assert_eq!(a.instrs, b.instrs);
    assert_eq!(a.labels.lookup("top"), b.labels.lookup("top"));
    assert_eq!(a.diags.len(), b.diags.len());
}

#[test]
fn tee_round_trips_through_the_renderer() {
    let out = parse_code("tee a b\nhlt");
    assert_eq!(
        out.instrs,
        vec![
            Instruction::Tst(CmpKind::Equal, Register::A, Register::B),
            Instruction::Hlt
        ]
    );
    let rendered = tinyasm::render::render_instruction(&out.instrs[0]);
    assert_eq!(text_of(&rendered), "tee a b");
    let again = parse_code(&format!("{}\nhlt", text_of(&rendered)));
    assert_eq!(again.instrs[0], out.instrs[0]);
}

#[test]
fn register_tokens_e_and_d_are_an_inverted_pair() {
    let out = parse_code("mov e d\nhlt");
    assert_eq!(
        out.instrs,
        vec![
            Instruction::Mov(Register::D, Register::E),
            Instruction::Hlt
        ]
    );
    let back = parse_code("mov d e\nhlt");
    assert_eq!(
        back.instrs,
        vec![
            Instruction::Mov(Register::E, Register::D),
            Instruction::Hlt
        ]
    );
}

#[test]
fn flag_register_is_for_drg_alone() {
    let out = parse_code("drg eq\nhlt");
    assert_eq!(
        out.instrs,
        vec![Instruction::Drg(Register::Eq), Instruction::Hlt]
    );
    let bad = parse_code("prt eq\nhlt");
    assert_eq!(bad.diags.len(), 1);
    assert_eq!(bad.diags[0].kind, DiagKind::TypeError);
    assert_eq!(bad.instrs, vec![Instruction::Hlt]);
}

#[test]
fn push_accepts_the_full_i32_range_and_nothing_more() {
    let out = parse_code("psh 2147483647\npsh -2147483648\npsh +7\nhlt");
    assert_eq!(
        out.instrs,
        vec![
            Instruction::Psh(2147483647),
            Instruction::Psh(-2147483648),
            Instruction::Psh(7),
            Instruction::Hlt
        ]
    );
    let over = parse_code("psh 2147483648\nhlt");
    assert_eq!(over.diags.len(), 1);
    assert_eq!(over.diags[0].kind, DiagKind::TypeError);
    assert_eq!(over.instrs, vec![Instruction::Hlt]);
}

#[test]
fn numeric_token_wins_over_a_label_of_the_same_spelling() {
    let out = parse_code(":3\ngto 3\nhlt");
    assert_eq!(out.labels.lookup("3"), Some(2));
    assert_eq!(out.instrs, vec![Instruction::Gto(3), Instruction::Hlt]);
}

#[test]
fn doubled_spaces_leave_an_empty_operand_token() {
    let out = parse_code("gto  3\nhlt");
    assert_eq!(out.diags.len(), 1);
    assert_eq!(out.diags[0].kind, DiagKind::TypeError);
    assert_eq!(out.instrs, vec![Instruction::Hlt]);
}

#[test]
fn comments_and_blank_lines_contribute_nothing() {
    let out = parse_code("; a comment\n\ndmp\nhlt");
    assert_eq!(out.instrs, vec![Instruction::Dmp, Instruction::Hlt]);
    assert!(out.diags.is_empty());
}

#[test]
fn diagnostic_lines_are_one_based() {
    let out = parse_code("; fine\nfoo\nhlt");
    assert_eq!(out.diags.len(), 1);
    assert_eq!(out.diags[0].line, 2);
    assert_eq!(text_of(&out.diags[0].text), "foo");
}

#[test]
fn whitespace_only_line_is_an_unexpected_token() {
    let out = parse_code("  \nhlt");
    assert_eq!(out.diags.len(), 1);
    assert_eq!(out.diags[0].kind, DiagKind::UnexpectedToken);
}

#[test]
fn unknown_register_is_a_type_error() {
    let out = parse_code("mov a q\nhlt");
    assert_eq!(out.diags.len(), 1);
    assert_eq!(out.diags[0].kind, DiagKind::TypeError);
}

#[test]
fn unresolvable_jump_target_is_a_type_error() {
    let out = parse_code("jmp nowhere\nhlt");
    assert_eq!(out.diags.len(), 1);
    assert_eq!(out.diags[0].kind, DiagKind::TypeError);
    assert_eq!(out.instrs, vec![Instruction::Hlt]);
}

#[test]
fn every_test_mnemonic_decodes_to_its_comparison() {
    let out = parse_code("tee a b\ntne b c\ntll sp st\ntmm ip f\ntel c a\ntem f b\nhlt");
    assert_eq!(
        out.instrs,
        vec![
            Instruction::Tst(CmpKind::Equal, Register::A, Register::B),
            Instruction::Tst(CmpKind::NotEqual, Register::B, Register::C),
            Instruction::Tst(CmpKind::Less, Register::Sp, Register::St),
            Instruction::Tst(CmpKind::Greater, Register::Ip, Register::F),
            Instruction::Tst(CmpKind::LessOrEqual, Register::C, Register::A),
            Instruction::Tst(CmpKind::GreaterOrEqual, Register::F, Register::B),
            Instruction::Hlt
        ]
    );
}

#[test]
fn arithmetic_and_stack_mnemonics_decode() {
    let out = parse_code("add a b\nsub c f\nmul a a\ndiv b c\npop\nprt a\ndmp\nhlt");
    assert_eq!(
        out.instrs,
        vec![
            Instruction::Add(Register::A, Register::B),
            Instruction::Sub(Register::C, Register::F),
            Instruction::Mul(Register::A, Register::A),
            Instruction::Div(Register::B, Register::C),
            Instruction::Pop,
            Instruction::Prt(Register::A),
            Instruction::Dmp,
            Instruction::Hlt
        ]
    );
}

#[test]
fn empty_source_assembles_to_a_lone_hlt() {
    let out = parse_code("");
    assert_eq!(out.instrs, vec![Instruction::Hlt]);
    assert!(out.diags.is_empty());
    assert_eq!(out.labels.lookup(""), None);
}

#[test]
fn scanner_and_assembler_compose_like_parse_code() {
    let src = ":here\njmp here\nhlt";
    let table = scan_labels(src);
    assert_eq!(table.lookup("here"), Some(2));
    let (instrs, diags) = assemble(src, &table);
    assert_eq!(instrs, vec![Instruction::Jmp(2), Instruction::Hlt]);
    assert!(diags.is_empty());
}

#[test]
fn label_line_with_operands_records_its_first_token() {
    let out = parse_code(":mark extra words\ngto mark\nhlt");
    assert_eq!(out.labels.lookup("mark"), Some(2));
    assert_eq!(out.instrs, vec![Instruction::Gto(2), Instruction::Hlt]);
}

#[test]
fn renderer_writes_canonical_lines() {
    let r = tinyasm::render::render_instruction(&Instruction::Gto(-5));
    assert_eq!(text_of(&r), "gto -5");
    let r = tinyasm::render::render_instruction(&Instruction::Psh(0));
    assert_eq!(text_of(&r), "psh 0");
    let r = tinyasm::render::render_instruction(&Instruction::Mov(Register::D, Register::E));
    assert_eq!(text_of(&r), "mov e d");
    let r = tinyasm::render::render_instruction(&Instruction::Hlt);
    assert_eq!(text_of(&r), "hlt");
}

#[test]
fn rendered_instructions_reassemble_unchanged() {
    let program = vec![
        Instruction::Dmp,
        Instruction::Gto(7),
        Instruction::Prt(Register::St),
        Instruction::Tst(CmpKind::Greater, Register::A, Register::F),
        Instruction::Jmp(-2),
        Instruction::Psh(2147483647),
        Instruction::Mov(Register::Ip, Register::Sp),
        Instruction::Add(Register::B, Register::C),
        Instruction::Sub(Register::D, Register::E),
        Instruction::Mul(Register::F, Register::A),
        Instruction::Div(Register::C, Register::B),
        Instruction::Pop,
        Instruction::Drg(Register::Eq),
    ];
    for ins in &program {
        let line = text_of(&tinyasm::render::render_instruction(ins));
        let out = parse_code(&format!("{}\nhlt", line));
        assert!(out.diags.is_empty(), "line {:?}", line);
        assert_eq!(out.instrs[0], *ins, "line {:?}", line);
    }
}
