//! End-to-end checks: stack-machine source is translated to assembly,
//! assembled to binary words, and the words are executed on a small
//! simulator of the 16-bit target machine.

use hack_toolchain::assembler::assemble;
use hack_toolchain::code_writer::generate_machine_code;
use hack_toolchain::symbol_table::SymbolTable;
use hack_toolchain::vm_parser::{check_branch_targets, parse_lines};

/// Executes assembled words on the target machine: one data register,
/// one address register, RAM, and the standard jump conditions.
fn run(words: &[String], ram: &mut [i16], max_steps: usize) {
    let mut a: i16 = 0;
    let mut d: i16 = 0;
    let mut pc: usize = 0;
    let mut steps = 0usize;
    while pc < words.len() && steps < max_steps {
        steps += 1;
        let w = words[pc].as_bytes();
        assert_eq!(w.len(), 16, "word is not 16 bits: {}", words[pc]);
        if w[0] == b'0' {
            let mut v: u16 = 0;
            for &b in &w[1..16] {
                v = v * 2 + if b == b'1' { 1 } else { 0 };
            }
            a = v as i16;
            pc += 1;
            continue;
        }
        let y = if w[3] == b'1' {
            ram[(a as u16 & 0x7fff) as usize]
        } else {
            a
        };
        let c = &words[pc][4..10];
        let val: i16 = match c {
            "101010" => 0,
            "111111" => 1,
            "111010" => -1,
            "001100" => d,
            "110000" => y,
            "001101" => !d,
            "110001" => !y,
            "001111" => d.wrapping_neg(),
            "110011" => y.wrapping_neg(),
            "011111" => d.wrapping_add(1),
            "110111" => y.wrapping_add(1),
            "001110" => d.wrapping_sub(1),
            "110010" => y.wrapping_sub(1),
            "000010" => d.wrapping_add(y),
            "010011" => d.wrapping_sub(y),
            "000111" => y.wrapping_sub(d),
            "000000" => d & y,
            "010101" => d | y,
            _ => panic!("unknown computation bits: {}", c),
        };
        let addr = (a as u16 & 0x7fff) as usize;
        if w[10] == b'1' {
            a = val;
        }
        if w[11] == b'1' {
            d = val;
        }
        if w[12] == b'1' {
            ram[addr] = val;
        }
        let jump = (w[13] == b'1' && val < 0) || (w[14] == b'1' && val == 0)
            || (w[15] == b'1' && val > 0);
        if jump {
            pc = (a as u16 & 0x7fff) as usize;
        } else {
            pc += 1;
        }
    }
}

/// Translates stack-machine source, assembles the result, and runs it.
fn translate_assemble_run(src: &str, unit: &str, ram: &mut [i16], max_steps: usize) {
    let cmds = parse_lines(src.to_string()).unwrap();
    check_branch_targets(&cmds).unwrap();
    let (chunks, _) = generate_machine_code(cmds, unit.to_string(), unit.to_string(), false, 0);
    let symbolic = chunks.join("\n");
    let mut table = SymbolTable::new();
    let words = assemble(&symbolic, &mut table).unwrap();
    run(&words, ram, max_steps);
}

#[test]
fn two_constant_pushes_and_add_leave_the_sum_on_top() {
    let mut ram = vec![0i16; 32768];
    ram[0] = 256;
    translate_assemble_run("push constant 7\npush constant 8\nadd\n", "T", &mut ram, 1000);
    assert_eq!(ram[256], 15);
    assert_eq!(ram[0], 257);
}

#[test]
fn constant_pushes_with_add_and_sub_round_trip() {
    let mut ram = vec![0i16; 32768];
    ram[0] = 256;
    let src = "push constant 3\npush constant 4\nadd\npush constant 10\nsub\n";
    translate_assemble_run(src, "T", &mut ram, 1000);
    assert_eq!(ram[256], -3);
    assert_eq!(ram[0], 257);
}

#[test]
fn logical_operations_compute_on_the_stack() {
    let mut ram = vec![0i16; 32768];
    ram[0] = 256;
    let src = "push constant 12\npush constant 10\nand\npush constant 1\nor\nneg\n";
    translate_assemble_run(src, "T", &mut ram, 1000);
    assert_eq!(ram[256], -9);
    assert_eq!(ram[0], 257);
}

#[test]
fn comparison_leaves_true_or_false_on_the_stack() {
    let mut ram = vec![0i16; 32768];
    ram[0] = 256;
    let src = "push constant 5\npush constant 5\neq\n";
    translate_assemble_run(src, "T", &mut ram, 1000);
    // True is all ones, false is zero.
    assert_eq!(ram[256], -1);
    let mut ram = vec![0i16; 32768];
    ram[0] = 256;
    let src = "push constant 5\npush constant 6\neq\n";
    translate_assemble_run(src, "T", &mut ram, 1000);
    assert_eq!(ram[256], 0);
}

#[test]
fn call_and_return_restore_the_callers_frame() {
    let mut ram = vec![0i16; 32768];
    ram[0] = 256; // stack pointer
    ram[1] = 300; // local base
    ram[2] = 400; // argument base
    ram[3] = 3000; // object base
    ram[4] = 3010; // array base
    let src = "push constant 11\npush constant 22\ncall f 2\npop temp 0\nlabel DONE\ngoto DONE\n\
               function f 2\npush constant 99\nreturn\n";
    translate_assemble_run(src, "T", &mut ram, 10000);
    // The return value reached the slot the pop after the call names,
    // so execution resumed right after the call expansion.
    assert_eq!(ram[5], 99);
    // The saved bases came back intact and the stack is rewound.
    assert_eq!(ram[1], 300);
    assert_eq!(ram[2], 400);
    assert_eq!(ram[3], 3000);
    assert_eq!(ram[4], 3010);
    assert_eq!(ram[0], 256);
}

#[test]
fn if_goto_branches_on_a_nonzero_top() {
    let mut ram = vec![0i16; 32768];
    ram[0] = 256;
    let src = "push constant 1\nif-goto SKIP\npush constant 7\nlabel SKIP\npush constant 9\n\
               label DONE\ngoto DONE\n";
    translate_assemble_run(src, "T", &mut ram, 10000);
    // The push of 7 was skipped; 9 sits at the stack bottom.
    assert_eq!(ram[256], 9);
    assert_eq!(ram[0], 257);
}
