use hack_toolchain::code_writer::{
    call_sys_init, categorize_commands, generate_machine_code, ArithOp, BranchKind, FunctionCmd,
    Segment, VmCommand,
};
use hack_toolchain::errors::VmError;
use hack_toolchain::vm_parser::{check_branch_targets, parse_lines};

fn translate(src: &str, unit: &str, bootstrap: bool) -> Vec<String> {
    let cmds = parse_lines(src.to_string()).unwrap();
    generate_machine_code(cmds, unit.to_string(), unit.to_string(), bootstrap, 0).0
}

#[test]
fn categorize_covers_the_four_shapes() {
    assert_eq!(
        categorize_commands("push constant 7"),
        Ok(VmCommand::PushPop {
            is_push: true,
            segment: Segment::Constant,
            index: 7,
        })
    );
    assert_eq!(
        categorize_commands("pop local 2"),
        Ok(VmCommand::PushPop {
            is_push: false,
            segment: Segment::Local,
            index: 2,
        })
    );
    assert_eq!(categorize_commands("add"), Ok(VmCommand::Arithmetic(ArithOp::Add)));
    assert_eq!(categorize_commands("not"), Ok(VmCommand::Arithmetic(ArithOp::Not)));
    assert_eq!(
        categorize_commands("if-goto TOP"),
        Ok(VmCommand::Branching {
            kind: BranchKind::IfGoto,
            target: "TOP".to_string(),
        })
    );
    assert_eq!(
        categorize_commands("function mult 2"),
        Ok(VmCommand::Function(FunctionCmd::Define {
            name: "mult".to_string(),
            n_vars: 2,
        }))
    );
    assert_eq!(
        categorize_commands("call mult 2"),
        Ok(VmCommand::Function(FunctionCmd::Call {
            name: "mult".to_string(),
            n_args: 2,
        }))
    );
    assert_eq!(
        categorize_commands("return"),
        Ok(VmCommand::Function(FunctionCmd::Return))
    );
}

#[test]
fn commands_outside_the_closed_sets_are_fatal() {
    assert_eq!(
        categorize_commands("flip 1"),
        Err(VmError::UnsupportedCommand("flip 1".to_string()))
    );
    assert_eq!(
        categorize_commands("push weird 0"),
        Err(VmError::UnsupportedCommand("push weird 0".to_string()))
    );
    assert_eq!(
        categorize_commands("push constant"),
        Err(VmError::UnsupportedCommand("push constant".to_string()))
    );
    assert_eq!(
        categorize_commands("push pointer 2"),
        Err(VmError::UnsupportedCommand("push pointer 2".to_string()))
    );
    assert_eq!(
        categorize_commands("pop temp 8"),
        Err(VmError::UnsupportedCommand("pop temp 8".to_string()))
    );
    assert_eq!(
        categorize_commands("push constant 32768"),
        Err(VmError::UnsupportedCommand("push constant 32768".to_string()))
    );
    assert_eq!(
        categorize_commands("call f x"),
        Err(VmError::UnsupportedCommand("call f x".to_string()))
    );
}

#[test]
fn pointer_and_temp_respect_their_bounds() {
    assert!(categorize_commands("push pointer 0").is_ok());
    assert!(categorize_commands("push pointer 1").is_ok());
    assert!(categorize_commands("pop temp 7").is_ok());
}

#[test]
fn parse_strips_comments_and_blank_lines() {
    let src = "// file header\npush constant 1\n\n  add // sum\n";
    let cmds = parse_lines(src.to_string()).unwrap();
    assert_eq!(cmds.len(), 2);
    assert_eq!(cmds[1], VmCommand::Arithmetic(ArithOp::Add));
}

#[test]
fn push_constant_expands_to_the_fixed_template() {
    let out = translate("push constant 7", "T", false);
    assert_eq!(out, vec!["@7\nD=A\n@SP\nA=M\nM=D\n@SP\nM=M+1".to_string()]);
}

#[test]
fn segment_pushes_use_their_base_registers() {
    let out = translate(
        "push argument 3\npush local 1\npush this 0\npush that 2\npush temp 4\npush pointer 1",
        "T",
        false,
    );
    assert_eq!(out[0], "@3\nD=A\n@2\nA=D+M\nD=M\n@SP\nA=M\nM=D\n@SP\nM=M+1");
    assert_eq!(out[1], "@1\nD=A\n@1\nA=D+M\nD=M\n@SP\nA=M\nM=D\n@SP\nM=M+1");
    assert_eq!(out[2], "@0\nD=A\n@3\nA=D+M\nD=M\n@SP\nA=M\nM=D\n@SP\nM=M+1");
    assert_eq!(out[3], "@2\nD=A\n@4\nA=D+M\nD=M\n@SP\nA=M\nM=D\n@SP\nM=M+1");
    assert_eq!(out[4], "@5\nD=A\n@4\nD=D+A\nA=D\nD=M\n@SP\nA=M\nM=D\n@SP\nM=M+1");
    assert_eq!(out[5], "@4\nD=M\n@SP\nA=M\nM=D\n@SP\nM=M+1");
}

#[test]
fn static_accesses_are_namespaced_by_the_source_file() {
    let out = translate("push static 3\npop static 3", "Unit", false);
    assert_eq!(out[0], "@Unit.3\nD=M\n@SP\nA=M\nM=D\n@SP\nM=M+1");
    assert_eq!(out[1], "@SP\nM=M-1\nA=M\nD=M\n@Unit.3\nM=D");
}

#[test]
fn pop_constant_emits_nothing() {
    let out = translate("pop constant 5\npush constant 1", "T", false);
    assert_eq!(out.len(), 1);
    assert!(out[0].starts_with("@1\n"));
}

#[test]
fn branching_commands_expand_to_their_templates() {
    let out = translate("label TOP\ngoto TOP\nif-goto TOP", "T", false);
    assert_eq!(out[0], "(TOP)");
    assert_eq!(out[1], "@TOP\n0;JMP");
    assert_eq!(out[2], "@SP\nM=M-1\nA=M\nD=M\n@TOP\nD;JNE");
}

#[test]
fn function_declaration_zeroes_its_locals() {
    let out = translate("function f 2", "Out", false);
    assert_eq!(out.len(), 3);
    assert_eq!(out[0], "(Out.f)");
    assert_eq!(out[1], "@0\nD=A\n@SP\nA=M\nM=D\n@SP\nM=M+1");
    assert_eq!(out[2], out[1]);
}

#[test]
fn call_expansion_saves_the_frame_in_fixed_order() {
    let out = translate("call f 2", "Out", false);
    assert_eq!(out.len(), 9);
    assert_eq!(out[0], "@RET_Out.f.0\nD=A\n@SP\nA=M\nM=D\n@SP\nM=M+1");
    assert_eq!(out[1], "@LCL\nD=M\n@SP\nA=M\nM=D\n@SP\nM=M+1");
    assert_eq!(out[2], "@ARG\nD=M\n@SP\nA=M\nM=D\n@SP\nM=M+1");
    assert_eq!(out[3], "@THIS\nD=M\n@SP\nA=M\nM=D\n@SP\nM=M+1");
    assert_eq!(out[4], "@THAT\nD=M\n@SP\nA=M\nM=D\n@SP\nM=M+1");
    assert_eq!(out[5], "@2\nD=A\n@SP\nD=M-D\n@5\nD=D-A\n@ARG\nM=D");
    assert_eq!(out[6], "@SP\nD=M\n@LCL\nM=D");
    assert_eq!(out[7], "@Out.f\n0;JMP");
    assert_eq!(out[8], "(RET_Out.f.0)");
}

#[test]
fn comparison_labels_carry_the_command_index() {
    let out = translate("eq\neq", "T", false);
    assert_eq!(out.len(), 2);
    assert!(out[0].contains("@EQ_RETURN.0\n"));
    assert!(out[0].contains("(EQ_RETURN.0)"));
    assert!(out[0].contains("(END_EQ.0)"));
    assert!(out[1].contains("@EQ_RETURN.1\n"));
    assert!(out[1].contains("(EQ_RETURN.1)"));
    assert!(out[1].contains("(END_EQ.1)"));
    assert_ne!(out[0], out[1]);
}

#[test]
fn comparison_kinds_brand_their_own_labels() {
    let out = translate("gt\nlt", "T", false);
    assert!(out[0].contains("@POSITIVE_GT.0\n"));
    assert!(out[1].contains("@POSITIVE_LT.1\n"));
}

#[test]
fn two_independent_runs_yield_identical_output() {
    let src = "push constant 1\npush constant 2\nadd\neq\ncall f 1\nfunction f 1\nreturn\n";
    let first = translate(src, "Same", false);
    let second = translate(src, "Same", false);
    assert_eq!(first, second);
}

#[test]
fn bootstrap_sets_the_stack_pointer_and_calls_sys_init() {
    let out = translate("", "Prog", true);
    assert_eq!(out.len(), 10);
    assert_eq!(out[0], "@256\nD=A\n@SP\nM=D");
    assert_eq!(out[1], "@RET_Prog.Sys.init\nD=A\n@SP\nA=M\nM=D\n@SP\nM=M+1");
    assert_eq!(out[8], "@Prog.Sys.init\n0;JMP");
    assert_eq!(out[9], "(RET_Prog.Sys.init)");
}

#[test]
fn label_counter_carries_across_files() {
    // Two files of one run: the second starts its label brands where
    // the first stopped, so equal commands in both never collide.
    let first = parse_lines("eq\n".to_string()).unwrap();
    let (out1, next) =
        generate_machine_code(first, "Prog".to_string(), "FileA".to_string(), false, 0);
    assert_eq!(next, 1);
    let second = parse_lines("eq\ncall f 0\n".to_string()).unwrap();
    let (out2, next) =
        generate_machine_code(second, "Prog".to_string(), "FileB".to_string(), false, next);
    assert_eq!(next, 3);
    assert!(out1[0].contains("(EQ_RETURN.0)"));
    assert!(out2[0].contains("(EQ_RETURN.1)"));
    assert!(out2[1].contains("@RET_Prog.f.2\n"));
    assert_eq!(out2[9], "(RET_Prog.f.2)");
    // The combined program holds no duplicate label declaration.
    let mut declared: Vec<String> = Vec::new();
    for chunk in out1.iter().chain(out2.iter()) {
        for line in chunk.split('\n') {
            if line.starts_with('(') {
                assert!(!declared.contains(&line.to_string()), "duplicate label {}", line);
                declared.push(line.to_string());
            }
        }
    }
}

#[test]
fn call_sys_init_passes_its_arity_through() {
    let out = call_sys_init(3, "P".to_string());
    assert_eq!(out[5], "@3\nD=A\n@SP\nD=M-D\n@5\nD=D-A\n@ARG\nM=D");
}

#[test]
fn branch_targets_must_be_declared() {
    let cmds = parse_lines("label HERE\ngoto HERE\nif-goto HERE\n".to_string()).unwrap();
    assert!(check_branch_targets(&cmds).is_ok());
    let cmds = parse_lines("goto NOWHERE\n".to_string()).unwrap();
    assert_eq!(
        check_branch_targets(&cmds),
        Err(VmError::MissingTarget("NOWHERE".to_string()))
    );
    // A branch may jump forward to a label declared later.
    let cmds = parse_lines("goto LATER\nlabel LATER\n".to_string()).unwrap();
    assert!(check_branch_targets(&cmds).is_ok());
}

#[test]
fn vm_error_messages_name_the_offender() {
    let e = VmError::UnsupportedCommand("flip 1".to_string());
    assert_eq!(e.message(), "unsupported command or segment: flip 1");
    let e = VmError::MissingTarget("NOWHERE".to_string());
    assert_eq!(e.message(), "branch target never declared: NOWHERE");
}
