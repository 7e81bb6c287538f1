use hack_toolchain::assembler::assemble;
use hack_toolchain::code::{comp_to_bin, dest_to_bin, instruction_to_bin, jump_to_bin};
use hack_toolchain::errors::AsmError;
use hack_toolchain::parser::{classify_line, find_label, parse_lines, Instruction};
use hack_toolchain::symbol_table::SymbolTable;

#[test]
fn predefined_symbols_resolve_to_fixed_addresses() {
    let t = SymbolTable::new();
    for i in 0..16u16 {
        let name = format!("R{}", i);
        assert_eq!(t.get_address(&name), Some(i));
    }
    assert_eq!(t.get_address("SCREEN"), Some(16384));
    assert_eq!(t.get_address("KBD"), Some(24576));
    assert_eq!(t.get_address("SP"), Some(0));
    assert_eq!(t.get_address("LCL"), Some(1));
    assert_eq!(t.get_address("ARG"), Some(2));
    assert_eq!(t.get_address("THIS"), Some(3));
    assert_eq!(t.get_address("THAT"), Some(4));
    assert!(!t.contains("LOOP"));
    assert_eq!(t.get_address("nowhere"), None);
}

#[test]
fn labels_bind_to_instruction_index() {
    let mut t = SymbolTable::new();
    let src = "@1\n(LOOP)\n@2\nD=A\n(END)\n@3\n";
    assert!(find_label(src, &mut t).is_ok());
    assert_eq!(t.get_address("LOOP"), Some(1));
    assert_eq!(t.get_address("END"), Some(3));
}

#[test]
fn label_at_start_binds_to_zero() {
    let mut t = SymbolTable::new();
    assert!(find_label("(BEGIN)\n@7\n", &mut t).is_ok());
    assert_eq!(t.get_address("BEGIN"), Some(0));
}

#[test]
fn duplicate_label_is_fatal() {
    let mut t = SymbolTable::new();
    let r = find_label("(A)\n@1\n(A)\n", &mut t);
    assert_eq!(r, Err(AsmError::DuplicateLabel("A".to_string())));
}

#[test]
fn label_clashing_with_predefined_symbol_is_fatal() {
    let mut t = SymbolTable::new();
    let r = find_label("(R0)\n@1\n", &mut t);
    assert_eq!(r, Err(AsmError::DuplicateLabel("R0".to_string())));
}

#[test]
fn variables_allocate_from_sixteen_upward() {
    let mut t = SymbolTable::new();
    assert_eq!(t.add_variable("x".to_string()), 16);
    assert_eq!(t.add_variable("y".to_string()), 17);
    assert_eq!(t.add_variable("z".to_string()), 18);
    assert_eq!(t.add_variable("x".to_string()), 16);
    assert_eq!(t.add_variable("y".to_string()), 17);
    assert_eq!(t.add_variable("w".to_string()), 19);
}

#[test]
fn add_entry_binds_and_contains_sees_it() {
    let mut t = SymbolTable::new();
    assert!(!t.contains("counter"));
    assert_eq!(t.add_entry("counter".to_string(), 300), Ok(()));
    assert!(t.contains("counter"));
    assert_eq!(t.get_address("counter"), Some(300));
}

#[test]
fn rebinding_a_name_never_changes_its_address() {
    let mut t = SymbolTable::new();
    assert_eq!(t.add_entry("counter".to_string(), 300), Ok(()));
    // Binding the same name to the same address is a no-op.
    assert_eq!(t.add_entry("counter".to_string(), 300), Ok(()));
    assert_eq!(t.get_address("counter"), Some(300));
    // Binding it to a different address is a reported redeclaration.
    assert_eq!(
        t.add_entry("counter".to_string(), 301),
        Err(AsmError::DuplicateLabel("counter".to_string()))
    );
    assert_eq!(t.get_address("counter"), Some(300));
    // A predefined symbol is protected the same way.
    assert_eq!(
        t.add_entry("R0".to_string(), 9),
        Err(AsmError::DuplicateLabel("R0".to_string()))
    );
    assert_eq!(t.get_address("R0"), Some(0));
}

#[test]
fn dest_bits_cover_the_eight_combinations() {
    assert_eq!(dest_to_bin(None), "000");
    assert_eq!(dest_to_bin(Some("M")), "001");
    assert_eq!(dest_to_bin(Some("D")), "010");
    assert_eq!(dest_to_bin(Some("MD")), "011");
    assert_eq!(dest_to_bin(Some("A")), "100");
    assert_eq!(dest_to_bin(Some("AM")), "101");
    assert_eq!(dest_to_bin(Some("AD")), "110");
    assert_eq!(dest_to_bin(Some("AMD")), "111");
    assert_eq!(dest_to_bin(Some("X")), "000");
}

#[test]
fn jump_bits_cover_the_seven_conditions() {
    assert_eq!(jump_to_bin(None), "000");
    assert_eq!(jump_to_bin(Some("JGT")), "001");
    assert_eq!(jump_to_bin(Some("JEQ")), "010");
    assert_eq!(jump_to_bin(Some("JGE")), "011");
    assert_eq!(jump_to_bin(Some("JLT")), "100");
    assert_eq!(jump_to_bin(Some("JNE")), "101");
    assert_eq!(jump_to_bin(Some("JLE")), "110");
    assert_eq!(jump_to_bin(Some("JMP")), "111");
}

#[test]
fn comp_bits_match_the_fixed_table() {
    assert_eq!(comp_to_bin("0"), Some("0101010"));
    assert_eq!(comp_to_bin("1"), Some("0111111"));
    assert_eq!(comp_to_bin("-1"), Some("0111010"));
    assert_eq!(comp_to_bin("D+A"), Some("0000010"));
    assert_eq!(comp_to_bin("D-M"), Some("1010011"));
    assert_eq!(comp_to_bin("D|M"), Some("1010101"));
    assert_eq!(comp_to_bin(" M+1 "), Some("1110111"));
    assert_eq!(comp_to_bin("W"), None);
}

#[test]
fn classify_recognizes_the_four_shapes() {
    assert_eq!(
        classify_line("@42"),
        Ok(Some(Instruction::AInstruction(42)))
    );
    assert_eq!(
        classify_line("@loop_start"),
        Ok(Some(Instruction::Variable("loop_start".to_string())))
    );
    assert_eq!(
        classify_line("(HERE)"),
        Ok(Some(Instruction::Label("HERE".to_string())))
    );
    assert_eq!(
        classify_line("D=M;JGT"),
        Ok(Some(Instruction::CInstruction {
            dest: Some("D".to_string()),
            comp: "M".to_string(),
            jump: Some("JGT".to_string()),
        }))
    );
    assert_eq!(
        classify_line("0;JMP"),
        Ok(Some(Instruction::CInstruction {
            dest: None,
            comp: "0".to_string(),
            jump: Some("JMP".to_string()),
        }))
    );
    assert_eq!(classify_line("garbage"), Ok(None));
}

#[test]
fn numeric_operand_past_fifteen_bits_is_fatal() {
    assert_eq!(
        classify_line("@32768"),
        Err(AsmError::AddressOverflow("32768".to_string()))
    );
    assert_eq!(
        classify_line("@32767"),
        Ok(Some(Instruction::AInstruction(32767)))
    );
    let mut t = SymbolTable::new();
    let r = assemble("@99999\n", &mut t);
    assert_eq!(r, Err(AsmError::AddressOverflow("99999".to_string())));
}

#[test]
fn parse_skips_blanks_and_comments() {
    let src = "// header\n\n   \n@1 // trailing\n  D=A  \n";
    let instrs = parse_lines(src).unwrap();
    assert_eq!(instrs.len(), 2);
    assert_eq!(instrs[0], Instruction::AInstruction(1));
}

#[test]
fn six_line_example_assembles_to_known_words() {
    let mut t = SymbolTable::new();
    let out = assemble("@2\nD=A\n@3\nD=D+A\n@0\nM=D\n", &mut t).unwrap();
    assert_eq!(
        out,
        vec![
            "0000000000000010".to_string(),
            "1110110000010000".to_string(),
            "0000000000000011".to_string(),
            "1110000010010000".to_string(),
            "0000000000000000".to_string(),
            "1110001100001000".to_string(),
        ]
    );
}

#[test]
fn every_word_is_sixteen_binary_characters() {
    let mut t = SymbolTable::new();
    let out = assemble("@5\nD=A\n@sum\nM=D\n(END)\n@END\n0;JMP\n", &mut t).unwrap();
    assert_eq!(out.len(), 6);
    for w in &out {
        assert_eq!(w.len(), 16);
        assert!(w.chars().all(|c| c == '0' || c == '1'));
    }
}

#[test]
fn symbols_resolve_and_variables_allocate_during_assembly() {
    let mut t = SymbolTable::new();
    let src = "@i\nM=1\n(LOOP)\n@i\nD=M\n@LOOP\n0;JMP\n";
    let out = assemble(src, &mut t).unwrap();
    // The variable i is allocated address 16; LOOP is bound to 2.
    assert_eq!(out[0], "0000000000010000");
    assert_eq!(out[2], "0000000000010000");
    assert_eq!(out[4], "0000000000000010");
    assert_eq!(t.get_address("i"), Some(16));
    assert_eq!(t.get_address("LOOP"), Some(2));
}

#[test]
fn unknown_comp_mnemonic_aborts_assembly() {
    let mut t = SymbolTable::new();
    let r = assemble("@1\nD=Q\n", &mut t);
    assert_eq!(r, Err(AsmError::MalformedInstruction("Q".to_string())));
}

#[test]
fn labels_emit_no_words() {
    let mut t = SymbolTable::new();
    let out = assemble("(A)\n(B)\n@1\n(C)\n", &mut t).unwrap();
    assert_eq!(out.len(), 1);
}

#[test]
fn oversized_address_record_is_rejected_not_truncated() {
    let mut t = SymbolTable::new();
    let r = instruction_to_bin(&Instruction::AInstruction(40000), &mut t);
    assert_eq!(r, Err(AsmError::AddressOverflow("40000".to_string())));
}

#[test]
fn instruction_to_bin_allocates_unseen_variable() {
    let mut t = SymbolTable::new();
    let r = instruction_to_bin(&Instruction::Variable("fresh".to_string()), &mut t);
    assert_eq!(r, Ok("0000000000010000".to_string()));
    let again = instruction_to_bin(&Instruction::Variable("fresh".to_string()), &mut t);
    assert_eq!(again, Ok("0000000000010000".to_string()));
}

#[test]
fn empty_source_assembles_to_nothing() {
    let mut t = SymbolTable::new();
    assert_eq!(assemble("", &mut t), Ok(vec![]));
    assert_eq!(assemble("// only a comment\n", &mut t), Ok(vec![]));
}

#[test]
fn error_messages_name_the_offender() {
    let e = AsmError::MalformedInstruction("Q".to_string());
    assert_eq!(e.message(), "unknown computation mnemonic: Q");
    let e = AsmError::AddressOverflow("70000".to_string());
    assert_eq!(e.message(), "address does not fit in 15 bits: 70000");
    let e = AsmError::DuplicateLabel("A".to_string());
    assert_eq!(e.message(), "label declared twice: A");
}
