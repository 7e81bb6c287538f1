//! The stack-machine command set and its classifier, and the code
//! generator that lowers each command into the symbolic assembly the
//! assembler consumes.

use vstd::prelude::*;
use vstd::string::StrSliceExecFns;
use vstd::string::StringExecFns;
use crate::errors::VmError;
use crate::errors::VmErrorModel;
use crate::errors::vm_result_matches;
use crate::text::is_number_seq;
use crate::text::number_val;
use crate::text::parse_capped_number;
use crate::text::spec_tokens;
use crate::text::str_eq;
use crate::text::tokens;
use crate::text::dec_rep;
use crate::text::lemma_dec_rep_value;
use crate::text::u64_to_dec;

verus! {

/// The eight memory segments a push or pop may address.
#[derive(Debug, Clone, Copy, PartialEq, Eq, Structural)]
pub enum Segment {
    Argument,
    Local,
    This,
    That,
    Constant,
    Static,
    Pointer,
    Temp,
}

/// The nine arithmetic and logical stack operations.
#[derive(Debug, Clone, Copy, PartialEq, Eq, Structural)]
pub enum ArithOp {
    Add,
    Sub,
    Neg,
    Eq,
    Gt,
    Lt,
    And,
    Or,
    Not,
}

/// The three branching command forms.
#[derive(Debug, Clone, Copy, PartialEq, Eq, Structural)]
pub enum BranchKind {
    Label,
    Goto,
    IfGoto,
}

/// The three procedure command forms.
#[derive(Debug, Clone, PartialEq, Eq)]
pub enum FunctionCmd {
    /// `function name nVars`
    Define { name: String, n_vars: u16 },
    /// `call name nArgs`
    Call { name: String, n_args: u16 },
    /// `return`
    Return,
}

/// Mathematical image of `FunctionCmd`.
pub enum FunctionCmdModel {
    Define { name: Seq<char>, n_vars: u16 },
    Call { name: Seq<char>, n_args: u16 },
    Return,
}

impl View for FunctionCmd {
    type V = FunctionCmdModel;

    open spec fn view(&self) -> FunctionCmdModel {
        match self {
            FunctionCmd::Define { name, n_vars } => FunctionCmdModel::Define {
                name: name@,
                n_vars: *n_vars,
            },
            FunctionCmd::Call { name, n_args } => FunctionCmdModel::Call {
                name: name@,
                n_args: *n_args,
            },
            FunctionCmd::Return => FunctionCmdModel::Return,
        }
    }
}

/// One classified stack-machine command.
#[derive(Debug, Clone, PartialEq, Eq)]
pub enum VmCommand {
    /// `push segment index` or `pop segment index`.
    PushPop { is_push: bool, segment: Segment, index: u16 },
    /// One of the nine arithmetic and logical operations.
    Arithmetic(ArithOp),
    /// `label`, `goto` or `if-goto` with its target.
    Branching { kind: BranchKind, target: String },
    /// `function`, `call` or `return`.
    Function(FunctionCmd),
}

/// Mathematical image of `VmCommand`.
pub enum VmCommandModel {
    PushPop { is_push: bool, segment: Segment, index: u16 },
    Arithmetic(ArithOp),
    Branching { kind: BranchKind, target: Seq<char> },
    Function(FunctionCmdModel),
}

impl View for VmCommand {
    type V = VmCommandModel;

    open spec fn view(&self) -> VmCommandModel {
        match self {
            VmCommand::PushPop { is_push, segment, index } => VmCommandModel::PushPop {
                is_push: *is_push,
                segment: *segment,
                index: *index,
            },
            VmCommand::Arithmetic(op) => VmCommandModel::Arithmetic(*op),
            VmCommand::Branching { kind, target } => VmCommandModel::Branching {
                kind: *kind,
                target: target@,
            },
            VmCommand::Function(f) => VmCommandModel::Function(f@),
        }
    }
}

impl DeepView for VmCommand {
    type V = VmCommandModel;

    open spec fn deep_view(&self) -> VmCommandModel {
        self.view()
    }
}

/// The segment a token names, if any.
pub open spec fn spec_segment_of(t: Seq<char>) -> Option<Segment> {
    if t == "argument"@ {
        Some(Segment::Argument)
    } else if t == "local"@ {
        Some(Segment::Local)
    } else if t == "this"@ {
        Some(Segment::This)
    } else if t == "that"@ {
        Some(Segment::That)
    } else if t == "constant"@ {
        Some(Segment::Constant)
    } else if t == "static"@ {
        Some(Segment::Static)
    } else if t == "pointer"@ {
        Some(Segment::Pointer)
    } else if t == "temp"@ {
        Some(Segment::Temp)
    } else {
        None
    }
}

fn segment_of(t: &str) -> (r: Option<Segment>)
    ensures
        r == spec_segment_of(t@),
{
    if str_eq(t, "argument") {
        Some(Segment::Argument)
    } else if str_eq(t, "local") {
        Some(Segment::Local)
    } else if str_eq(t, "this") {
        Some(Segment::This)
    } else if str_eq(t, "that") {
        Some(Segment::That)
    } else if str_eq(t, "constant") {
        Some(Segment::Constant)
    } else if str_eq(t, "static") {
        Some(Segment::Static)
    } else if str_eq(t, "pointer") {
        Some(Segment::Pointer)
    } else if str_eq(t, "temp") {
        Some(Segment::Temp)
    } else {
        None
    }
}

/// The arithmetic or logical operation a token names, if any.
pub open spec fn spec_arith_of(t: Seq<char>) -> Option<ArithOp> {
    if t == "add"@ {
        Some(ArithOp::Add)
    } else if t == "sub"@ {
        Some(ArithOp::Sub)
    } else if t == "neg"@ {
        Some(ArithOp::Neg)
    } else if t == "eq"@ {
        Some(ArithOp::Eq)
    } else if t == "gt"@ {
        Some(ArithOp::Gt)
    } else if t == "lt"@ {
        Some(ArithOp::Lt)
    } else if t == "and"@ {
        Some(ArithOp::And)
    } else if t == "or"@ {
        Some(ArithOp::Or)
    } else if t == "not"@ {
        Some(ArithOp::Not)
    } else {
        None
    }
}

fn arith_of(t: &str) -> (r: Option<ArithOp>)
    ensures
        r == spec_arith_of(t@),
{
    if str_eq(t, "add") {
        Some(ArithOp::Add)
    } else if str_eq(t, "sub") {
        Some(ArithOp::Sub)
    } else if str_eq(t, "neg") {
        Some(ArithOp::Neg)
    } else if str_eq(t, "eq") {
        Some(ArithOp::Eq)
    } else if str_eq(t, "gt") {
        Some(ArithOp::Gt)
    } else if str_eq(t, "lt") {
        Some(ArithOp::Lt)
    } else if str_eq(t, "and") {
        Some(ArithOp::And)
    } else if str_eq(t, "or") {
        Some(ArithOp::Or)
    } else if str_eq(t, "not") {
        Some(ArithOp::Not)
    } else {
        None
    }
}

/// A numeric command argument: a digit string whose value fits in the
/// 15-bit address space.
pub open spec fn spec_arg_val(t: Seq<char>) -> Option<u16> {
    if is_number_seq(t) && number_val(t) < 32768 {
        Some(number_val(t) as u16)
    } else {
        None
    }
}

/// The largest index a segment accepts: 1 for `pointer`, 7 for `temp`,
/// the whole 15-bit space for the rest.
pub open spec fn segment_index_bound(s: Segment) -> u16 {
    match s {
        Segment::Pointer => 1,
        Segment::Temp => 7,
        _ => 32767,
    }
}

/// Classifying one normalized command line against the four closed
/// keyword sets; anything outside them, and any index or arity outside
/// its closed range, is fatal.
pub open spec fn spec_categorize(l: Seq<char>) -> Result<VmCommandModel, VmErrorModel> {
    let toks = spec_tokens(l);
    if toks.len() == 0 {
        Err(VmErrorModel::UnsupportedCommand(l))
    } else if toks[0] == "push"@ || toks[0] == "pop"@ {
        if toks.len() != 3 {
            Err(VmErrorModel::UnsupportedCommand(l))
        } else {
            match (spec_segment_of(toks[1]), spec_arg_val(toks[2])) {
                (Some(seg), Some(idx)) => if idx <= segment_index_bound(seg) {
                    Ok(
                        VmCommandModel::PushPop {
                            is_push: toks[0] == "push"@,
                            segment: seg,
                            index: idx,
                        },
                    )
                } else {
                    Err(VmErrorModel::UnsupportedCommand(l))
                },
                _ => Err(VmErrorModel::UnsupportedCommand(l)),
            }
        }
    } else if spec_arith_of(toks[0]) is Some {
        if toks.len() == 1 {
            Ok(VmCommandModel::Arithmetic(spec_arith_of(toks[0]).unwrap()))
        } else {
            Err(VmErrorModel::UnsupportedCommand(l))
        }
    } else if toks[0] == "label"@ || toks[0] == "goto"@ || toks[0] == "if-goto"@ {
        if toks.len() == 2 {
            Ok(
                VmCommandModel::Branching {
                    kind: if toks[0] == "label"@ {
                        BranchKind::Label
                    } else if toks[0] == "goto"@ {
                        BranchKind::Goto
                    } else {
                        BranchKind::IfGoto
                    },
                    target: toks[1],
                },
            )
        } else {
            Err(VmErrorModel::UnsupportedCommand(l))
        }
    } else if toks[0] == "function"@ || toks[0] == "call"@ {
        if toks.len() != 3 {
            Err(VmErrorModel::UnsupportedCommand(l))
        } else {
            match spec_arg_val(toks[2]) {
                Some(n) => Ok(
                    VmCommandModel::Function(
                        if toks[0] == "function"@ {
                            FunctionCmdModel::Define { name: toks[1], n_vars: n }
                        } else {
                            FunctionCmdModel::Call { name: toks[1], n_args: n }
                        },
                    ),
                ),
                None => Err(VmErrorModel::UnsupportedCommand(l)),
            }
        }
    } else if toks[0] == "return"@ {
        if toks.len() == 1 {
            Ok(VmCommandModel::Function(FunctionCmdModel::Return))
        } else {
            Err(VmErrorModel::UnsupportedCommand(l))
        }
    } else {
        Err(VmErrorModel::UnsupportedCommand(l))
    }
}

/// Classifies one normalized command line into its typed record.
pub fn categorize_commands(command: &str) -> (r: Result<VmCommand, VmError>)
    ensures
        vm_result_matches(r, spec_categorize(command@)),
{
    let toks = tokens(command);
    proof {
        assert(toks.deep_view() == spec_tokens(command@));
    }
    if toks.len() == 0 {
        return Err(VmError::UnsupportedCommand(String::from_str(command)));
    }
    let head = toks[0].as_str();
    proof {
        assert(toks[0]@ == toks.deep_view()[0]);
    }
    let is_push = str_eq(head, "push");
    if is_push || str_eq(head, "pop") {
        if toks.len() != 3 {
            return Err(VmError::UnsupportedCommand(String::from_str(command)));
        }
        proof {
            assert(toks[1]@ == toks.deep_view()[1]);
            assert(toks[2]@ == toks.deep_view()[2]);
        }
        let seg = match segment_of(toks[1].as_str()) {
            Some(s) => s,
            None => {
                return Err(VmError::UnsupportedCommand(String::from_str(command)));
            },
        };
        let idx = match parse_capped_number(toks[2].as_str()) {
            Some(v) => {
                if v < 32768 {
                    v as u16
                } else {
                    return Err(VmError::UnsupportedCommand(String::from_str(command)));
                }
            },
            None => {
                return Err(VmError::UnsupportedCommand(String::from_str(command)));
            },
        };
        let bound: u16 = match seg {
            Segment::Pointer => 1,
            Segment::Temp => 7,
            _ => 32767,
        };
        if idx <= bound {
            Ok(VmCommand::PushPop { is_push, segment: seg, index: idx })
        } else {
            Err(VmError::UnsupportedCommand(String::from_str(command)))
        }
    } else if let Some(op) = arith_of(head) {
        if toks.len() == 1 {
            Ok(VmCommand::Arithmetic(op))
        } else {
            Err(VmError::UnsupportedCommand(String::from_str(command)))
        }
    } else if str_eq(head, "label") || str_eq(head, "goto") || str_eq(head, "if-goto") {
        if toks.len() == 2 {
            proof {
                assert(toks[1]@ == toks.deep_view()[1]);
            }
            let kind = if str_eq(head, "label") {
                BranchKind::Label
            } else if str_eq(head, "goto") {
                BranchKind::Goto
            } else {
                BranchKind::IfGoto
            };
            Ok(VmCommand::Branching { kind, target: toks[1].clone() })
        } else {
            Err(VmError::UnsupportedCommand(String::from_str(command)))
        }
    } else if str_eq(head, "function") || str_eq(head, "call") {
        if toks.len() != 3 {
            return Err(VmError::UnsupportedCommand(String::from_str(command)));
        }
        proof {
            assert(toks[1]@ == toks.deep_view()[1]);
            assert(toks[2]@ == toks.deep_view()[2]);
        }
        let n = match parse_capped_number(toks[2].as_str()) {
            Some(v) => {
                if v < 32768 {
                    v as u16
                } else {
                    return Err(VmError::UnsupportedCommand(String::from_str(command)));
                }
            },
            None => {
                return Err(VmError::UnsupportedCommand(String::from_str(command)));
            },
        };
        if str_eq(head, "function") {
            Ok(VmCommand::Function(FunctionCmd::Define { name: toks[1].clone(), n_vars: n }))
        } else {
            Ok(VmCommand::Function(FunctionCmd::Call { name: toks[1].clone(), n_args: n }))
        }
    } else if str_eq(head, "return") {
        if toks.len() == 1 {
            Ok(VmCommand::Function(FunctionCmd::Return))
        } else {
            Err(VmError::UnsupportedCommand(String::from_str(command)))
        }
    } else {
        Err(VmError::UnsupportedCommand(String::from_str(command)))
    }
}

/// The symbolic code for one push command.
pub open spec fn spec_push_chunk(segment: Segment, index: u16, file: Seq<char>) -> Seq<char> {
    match segment {
        Segment::Argument => "@"@ + dec_rep(index as nat) + "\nD=A\n@2\nA=D+M\nD=M\n@SP\nA=M\nM=D\n@SP\nM=M+1"@,
        Segment::Local => "@"@ + dec_rep(index as nat) + "\nD=A\n@1\nA=D+M\nD=M\n@SP\nA=M\nM=D\n@SP\nM=M+1"@,
        Segment::This => "@"@ + dec_rep(index as nat) + "\nD=A\n@3\nA=D+M\nD=M\n@SP\nA=M\nM=D\n@SP\nM=M+1"@,
        Segment::That => "@"@ + dec_rep(index as nat) + "\nD=A\n@4\nA=D+M\nD=M\n@SP\nA=M\nM=D\n@SP\nM=M+1"@,
        Segment::Constant => "@"@ + dec_rep(index as nat) + "\nD=A\n@SP\nA=M\nM=D\n@SP\nM=M+1"@,
        Segment::Static => "@"@ + file + "."@ + dec_rep(index as nat) + "\nD=M\n@SP\nA=M\nM=D\n@SP\nM=M+1"@,
        Segment::Temp => "@5\nD=A\n@"@ + dec_rep(index as nat) + "\nD=D+A\nA=D\nD=M\n@SP\nA=M\nM=D\n@SP\nM=M+1"@,
        Segment::Pointer => if index == 0 {
            "@3\nD=M\n@SP\nA=M\nM=D\n@SP\nM=M+1"@
        } else {
            "@4\nD=M\n@SP\nA=M\nM=D\n@SP\nM=M+1"@
        },
    }
}

fn gen_push(segment: Segment, index: u16, file: &str) -> (r: String)
    ensures
        r@ == spec_push_chunk(segment, index, file@),
{
    let idx = u64_to_dec(index as u64);
    match segment {
        Segment::Argument => String::from_str("@").concat(idx.as_str()).concat("\nD=A\n@2\nA=D+M\nD=M\n@SP\nA=M\nM=D\n@SP\nM=M+1"),
        Segment::Local => String::from_str("@").concat(idx.as_str()).concat("\nD=A\n@1\nA=D+M\nD=M\n@SP\nA=M\nM=D\n@SP\nM=M+1"),
        Segment::This => String::from_str("@").concat(idx.as_str()).concat("\nD=A\n@3\nA=D+M\nD=M\n@SP\nA=M\nM=D\n@SP\nM=M+1"),
        Segment::That => String::from_str("@").concat(idx.as_str()).concat("\nD=A\n@4\nA=D+M\nD=M\n@SP\nA=M\nM=D\n@SP\nM=M+1"),
        Segment::Constant => String::from_str("@").concat(idx.as_str()).concat("\nD=A\n@SP\nA=M\nM=D\n@SP\nM=M+1"),
        Segment::Static => String::from_str("@").concat(file).concat(".").concat(idx.as_str()).concat("\nD=M\n@SP\nA=M\nM=D\n@SP\nM=M+1"),
        Segment::Temp => String::from_str("@5\nD=A\n@").concat(idx.as_str()).concat("\nD=D+A\nA=D\nD=M\n@SP\nA=M\nM=D\n@SP\nM=M+1"),
        Segment::Pointer => if index == 0 {
            String::from_str("@3\nD=M\n@SP\nA=M\nM=D\n@SP\nM=M+1")
        } else {
            String::from_str("@4\nD=M\n@SP\nA=M\nM=D\n@SP\nM=M+1")
        },
    }
}

/// The symbolic code for one pop command; `constant` cannot be popped
/// and has no chunk.
pub open spec fn spec_pop_chunk(segment: Segment, index: u16, file: Seq<char>) -> Seq<char> {
    match segment {
        Segment::Argument => "@SP\nM=M-1\nA=M\nD=M\n@13\nM=D\n@"@ + dec_rep(index as nat) + "\nD=A\n@2\nD=D+M\n@14\nM=D\n@13\nD=M\n@14\nA=M\nM=D"@,
        Segment::Local => "@SP\nM=M-1\nA=M\nD=M\n@13\nM=D\n@"@ + dec_rep(index as nat) + "\nD=A\n@1\nD=D+M\n@14\nM=D\n@13\nD=M\n@14\nA=M\nM=D"@,
        Segment::This => "@SP\nM=M-1\nA=M\nD=M\n@13\nM=D\n@"@ + dec_rep(index as nat) + "\nD=A\n@3\nD=D+M\n@14\nM=D\n@13\nD=M\n@14\nA=M\nM=D"@,
        Segment::That => "@SP\nM=M-1\nA=M\nD=M\n@13\nM=D\n@"@ + dec_rep(index as nat) + "\nD=A\n@4\nD=D+M\n@14\nM=D\n@13\nD=M\n@14\nA=M\nM=D"@,
        Segment::Static => "@SP\nM=M-1\nA=M\nD=M\n@"@ + file + "."@ + dec_rep(index as nat) + "\nM=D"@,
        Segment::Temp => "@SP\nM=M-1\nA=M\nD=M\n@13\nM=D\n@5\nD=A\n@"@ + dec_rep(index as nat) + "\nD=D+A\n@14\nM=D\n@13\nD=M\n@14\nA=M\nM=D"@,
        Segment::Pointer => if index == 0 {
            "@SP\nM=M-1\nA=M\nD=M\n@3\nM=D"@
        } else {
            "@SP\nM=M-1\nA=M\nD=M\n@4\nM=D"@
        },
        Segment::Constant => Seq::empty(),
    }
}

fn gen_pop(segment: Segment, index: u16, file: &str) -> (r: String)
    requires
        segment != Segment::Constant,
    ensures
        r@ == spec_pop_chunk(segment, index, file@),
{
    let idx = u64_to_dec(index as u64);
    match segment {
        Segment::Argument => String::from_str("@SP\nM=M-1\nA=M\nD=M\n@13\nM=D\n@").concat(idx.as_str()).concat("\nD=A\n@2\nD=D+M\n@14\nM=D\n@13\nD=M\n@14\nA=M\nM=D"),
        Segment::Local => String::from_str("@SP\nM=M-1\nA=M\nD=M\n@13\nM=D\n@").concat(idx.as_str()).concat("\nD=A\n@1\nD=D+M\n@14\nM=D\n@13\nD=M\n@14\nA=M\nM=D"),
        Segment::This => String::from_str("@SP\nM=M-1\nA=M\nD=M\n@13\nM=D\n@").concat(idx.as_str()).concat("\nD=A\n@3\nD=D+M\n@14\nM=D\n@13\nD=M\n@14\nA=M\nM=D"),
        Segment::That => String::from_str("@SP\nM=M-1\nA=M\nD=M\n@13\nM=D\n@").concat(idx.as_str()).concat("\nD=A\n@4\nD=D+M\n@14\nM=D\n@13\nD=M\n@14\nA=M\nM=D"),
        Segment::Static => String::from_str("@SP\nM=M-1\nA=M\nD=M\n@").concat(file).concat(".").concat(idx.as_str()).concat("\nM=D"),
        Segment::Temp => String::from_str("@SP\nM=M-1\nA=M\nD=M\n@13\nM=D\n@5\nD=A\n@").concat(idx.as_str()).concat("\nD=D+A\n@14\nM=D\n@13\nD=M\n@14\nA=M\nM=D"),
        Segment::Pointer => if index == 0 {
            String::from_str("@SP\nM=M-1\nA=M\nD=M\n@3\nM=D")
        } else {
            String::from_str("@SP\nM=M-1\nA=M\nD=M\n@4\nM=D")
        },
        Segment::Constant => String::new(),
    }
}

/// The symbolic code for one arithmetic or logical operation; the
/// comparison operations brand their branch labels with the command's
/// index `i`, which keeps generated labels collision-free.
pub open spec fn spec_arith_chunk(op: ArithOp, i: nat) -> Seq<char> {
    match op {
        ArithOp::Add => "@SP\nM=M-1\nA=M\nD=M\n@SP\nM=M-1\nA=M\nD=D+M\n@SP\nA=M\nM=D\n@SP\nM=M+1"@,
        ArithOp::Sub => "@SP\nM=M-1\nA=M\nD=M\n@SP\nM=M-1\nA=M\nD=M-D\n@SP\nA=M\nM=D\n@SP\nM=M+1"@,
        ArithOp::Neg => "@SP\nM=M-1\nA=M\nA=M\nD=A\nD=-D\n@SP\nA=M\nM=D\n@SP\nM=M+1"@,
        ArithOp::Eq => "@SP\nM=M-1\nA=M\nD=M\n@SP\nM=M-1\nA=M\nA=M\nD=D-A\n@EQ_RETURN."@ + dec_rep(i) + "\nD;JEQ\n@SP\nA=M\nM=0\n@SP\nM=M+1\n@END_EQ."@ + dec_rep(i) + "\n0;JMP\n(EQ_RETURN."@ + dec_rep(i) + ")\n@SP\nA=M\nM=-1\n@SP\nM=M+1\n@END_EQ."@ + dec_rep(i) + "\n0;JMP\n(END_EQ."@ + dec_rep(i) + ")\n@SP"@,
        ArithOp::Gt => "@SP\nM=M-1\nA=M\nD=M\n@SP\nM=M-1\nA=M\nA=M\nD=A-D\n@POSITIVE_GT."@ + dec_rep(i) + "\nD;JGT\n@SP\nA=M\nM=0\n@SP\nM=M+1\n@END_GT."@ + dec_rep(i) + "\n0;JMP\n(POSITIVE_GT."@ + dec_rep(i) + ")\n@SP\nA=M\nM=-1\n@SP\nM=M+1\n@END_GT."@ + dec_rep(i) + "\n0;JMP\n(END_GT."@ + dec_rep(i) + ")\n@SP"@,
        ArithOp::Lt => "@SP\nM=M-1\nA=M\nD=M\n@SP\nM=M-1\nA=M\nA=M\nD=D-A\n@POSITIVE_LT."@ + dec_rep(i) + "\nD;JGT\n@SP\nA=M\nM=0\n@SP\nM=M+1\n@END_LT."@ + dec_rep(i) + "\n0;JMP\n(POSITIVE_LT."@ + dec_rep(i) + ")\n@SP\nA=M\nM=-1\n@SP\nM=M+1\n@END_LT."@ + dec_rep(i) + "\n0;JMP\n(END_LT."@ + dec_rep(i) + ")\n@SP"@,
        ArithOp::And => "@SP\nM=M-1\nA=M\nD=M\n@SP\nM=M-1\nA=M\nA=M\nD=D&A\n@SP\nA=M\nM=D\n@SP\nM=M+1"@,
        ArithOp::Or => "@SP\nM=M-1\nA=M\nD=M\n@SP\nM=M-1\nA=M\nA=M\nD=D|A\n@SP\nA=M\nM=D\n@SP\nM=M+1"@,
        ArithOp::Not => "@SP\nM=M-1\nA=M\nD=M\nD=!D\n@SP\nA=M\nM=D\n@SP\nM=M+1"@,
    }
}

fn gen_arith(op: ArithOp, i: usize) -> (r: String)
    ensures
        r@ == spec_arith_chunk(op, i as nat),
{
    let istr = u64_to_dec(i as u64);
    match op {
        ArithOp::Add => String::from_str("@SP\nM=M-1\nA=M\nD=M\n@SP\nM=M-1\nA=M\nD=D+M\n@SP\nA=M\nM=D\n@SP\nM=M+1"),
        ArithOp::Sub => String::from_str("@SP\nM=M-1\nA=M\nD=M\n@SP\nM=M-1\nA=M\nD=M-D\n@SP\nA=M\nM=D\n@SP\nM=M+1"),
        ArithOp::Neg => String::from_str("@SP\nM=M-1\nA=M\nA=M\nD=A\nD=-D\n@SP\nA=M\nM=D\n@SP\nM=M+1"),
        ArithOp::Eq => String::from_str("@SP\nM=M-1\nA=M\nD=M\n@SP\nM=M-1\nA=M\nA=M\nD=D-A\n@EQ_RETURN.").concat(istr.as_str()).concat("\nD;JEQ\n@SP\nA=M\nM=0\n@SP\nM=M+1\n@END_EQ.").concat(istr.as_str()).concat("\n0;JMP\n(EQ_RETURN.").concat(istr.as_str()).concat(")\n@SP\nA=M\nM=-1\n@SP\nM=M+1\n@END_EQ.").concat(istr.as_str()).concat("\n0;JMP\n(END_EQ.").concat(istr.as_str()).concat(")\n@SP"),
        ArithOp::Gt => String::from_str("@SP\nM=M-1\nA=M\nD=M\n@SP\nM=M-1\nA=M\nA=M\nD=A-D\n@POSITIVE_GT.").concat(istr.as_str()).concat("\nD;JGT\n@SP\nA=M\nM=0\n@SP\nM=M+1\n@END_GT.").concat(istr.as_str()).concat("\n0;JMP\n(POSITIVE_GT.").concat(istr.as_str()).concat(")\n@SP\nA=M\nM=-1\n@SP\nM=M+1\n@END_GT.").concat(istr.as_str()).concat("\n0;JMP\n(END_GT.").concat(istr.as_str()).concat(")\n@SP"),
        ArithOp::Lt => String::from_str("@SP\nM=M-1\nA=M\nD=M\n@SP\nM=M-1\nA=M\nA=M\nD=D-A\n@POSITIVE_LT.").concat(istr.as_str()).concat("\nD;JGT\n@SP\nA=M\nM=0\n@SP\nM=M+1\n@END_LT.").concat(istr.as_str()).concat("\n0;JMP\n(POSITIVE_LT.").concat(istr.as_str()).concat(")\n@SP\nA=M\nM=-1\n@SP\nM=M+1\n@END_LT.").concat(istr.as_str()).concat("\n0;JMP\n(END_LT.").concat(istr.as_str()).concat(")\n@SP"),
        ArithOp::And => String::from_str("@SP\nM=M-1\nA=M\nD=M\n@SP\nM=M-1\nA=M\nA=M\nD=D&A\n@SP\nA=M\nM=D\n@SP\nM=M+1"),
        ArithOp::Or => String::from_str("@SP\nM=M-1\nA=M\nD=M\n@SP\nM=M-1\nA=M\nA=M\nD=D|A\n@SP\nA=M\nM=D\n@SP\nM=M+1"),
        ArithOp::Not => String::from_str("@SP\nM=M-1\nA=M\nD=M\nD=!D\n@SP\nA=M\nM=D\n@SP\nM=M+1"),
    }
}

/// The symbolic code for one branching command.
pub open spec fn spec_branch_chunk(kind: BranchKind, target: Seq<char>) -> Seq<char> {
    match kind {
        BranchKind::Label => "("@ + target + ")"@,
        BranchKind::Goto => "@"@ + target + "\n0;JMP"@,
        BranchKind::IfGoto => "@SP\nM=M-1\nA=M\nD=M\n@"@ + target + "\nD;JNE"@,
    }
}

fn gen_branch(kind: BranchKind, target: &str) -> (r: String)
    ensures
        r@ == spec_branch_chunk(kind, target@),
{
    match kind {
        BranchKind::Label => String::from_str("(").concat(target).concat(")"),
        BranchKind::Goto => String::from_str("@").concat(target).concat("\n0;JMP"),
        BranchKind::IfGoto => String::from_str("@SP\nM=M-1\nA=M\nD=M\n@").concat(target).concat("\nD;JNE"),
    }
}

/// `n` copies of one chunk.
pub open spec fn spec_repeat(c: Seq<char>, n: nat) -> Seq<Seq<char>>
    decreases n,
{
    if n == 0 {
        Seq::empty()
    } else {
        spec_repeat(c, (n - 1) as nat) + seq![c]
    }
}

/// The label declaration a `function` command emits.
pub open spec fn spec_function_label(name: Seq<char>, out: Seq<char>) -> Seq<char> {
    "("@ + out + "."@ + name + ")"@
}

/// The chunk that pushes literal zero, used to clear local slots.
pub open spec fn spec_zero_push() -> Seq<char> {
    "@0\nD=A\n@SP\nA=M\nM=D\n@SP\nM=M+1"@
}

/// The nine chunks of a `call` command: push the branded return
/// address and the four saved bases, reposition the argument and local
/// bases, jump to the callee, and declare the return label.
pub open spec fn spec_call_chunks(name: Seq<char>, n: u16, i: nat, out: Seq<char>) -> Seq<
    Seq<char>,
> {
    seq![
        "@RET_"@ + out + "."@ + name + "."@ + dec_rep(i) + "\nD=A\n@SP\nA=M\nM=D\n@SP\nM=M+1"@,
        "@LCL\nD=M\n@SP\nA=M\nM=D\n@SP\nM=M+1"@,
        "@ARG\nD=M\n@SP\nA=M\nM=D\n@SP\nM=M+1"@,
        "@THIS\nD=M\n@SP\nA=M\nM=D\n@SP\nM=M+1"@,
        "@THAT\nD=M\n@SP\nA=M\nM=D\n@SP\nM=M+1"@,
        "@"@ + dec_rep(n as nat) + "\nD=A\n@SP\nD=M-D\n@5\nD=D-A\n@ARG\nM=D"@,
        "@SP\nD=M\n@LCL\nM=D"@,
        "@"@ + out + "."@ + name + "\n0;JMP"@,
        "(RET_"@ + out + "."@ + name + "."@ + dec_rep(i) + ")"@,
    ]
}

/// The nine chunks of a `return` command: stash the frame base and
/// return address, deposit the result at the caller's argument base,
/// rewind the stack, restore the four saved bases, and jump back.
pub open spec fn spec_return_chunks() -> Seq<Seq<char>> {
    seq![
        "@LCL\nD=M\n@13\nM=D"@,
        "@13\nD=M\n@5\nD=D-A\nA=D\nD=M\n@14\nM=D"@,
        "@SP\nM=M-1\nA=M\nD=M\n@ARG\nA=M\nM=D"@,
        "@ARG\nD=M\n@SP\nM=D+1"@,
        "@13\nD=M\n@1\nD=D-A\nA=D\nD=M\n@THAT\nM=D"@,
        "@13\nD=M\n@2\nD=D-A\nA=D\nD=M\n@THIS\nM=D"@,
        "@13\nD=M\n@3\nD=D-A\nA=D\nD=M\n@ARG\nM=D"@,
        "@13\nD=M\n@4\nD=D-A\nA=D\nD=M\n@LCL\nM=D"@,
        "@14\nA=M\n0;JMP"@,
    ]
}

/// The chunks of the bootstrap's `call Sys.init`, whose return label
/// carries no command index.
pub open spec fn spec_sys_init_chunks(n: u16, file: Seq<char>) -> Seq<Seq<char>> {
    seq![
        "@RET_"@ + file + ".Sys.init\nD=A\n@SP\nA=M\nM=D\n@SP\nM=M+1"@,
        "@LCL\nD=M\n@SP\nA=M\nM=D\n@SP\nM=M+1"@,
        "@ARG\nD=M\n@SP\nA=M\nM=D\n@SP\nM=M+1"@,
        "@THIS\nD=M\n@SP\nA=M\nM=D\n@SP\nM=M+1"@,
        "@THAT\nD=M\n@SP\nA=M\nM=D\n@SP\nM=M+1"@,
        "@"@ + dec_rep(n as nat) + "\nD=A\n@SP\nD=M-D\n@5\nD=D-A\n@ARG\nM=D"@,
        "@SP\nD=M\n@LCL\nM=D"@,
        "@"@ + file + ".Sys.init\n0;JMP"@,
        "(RET_"@ + file + ".Sys.init)"@,
    ]
}

/// Emits the bootstrap's procedure call: push a fixed return label and
/// the saved bases, reposition the bases for `n_args` arguments, and
/// jump to `Sys.init` in the named output unit.
pub fn call_sys_init(n_args: u32, file_name: String) -> (r: Vec<String>)
    requires
        n_args < 32768,
    ensures
        r.deep_view() == spec_sys_init_chunks(n_args as u16, file_name@),
{
    let nstr = u64_to_dec(n_args as u64);
    let file = file_name.as_str();
    let mut r: Vec<String> = Vec::new();
    r.push(String::from_str("@RET_").concat(file).concat(".Sys.init\nD=A\n@SP\nA=M\nM=D\n@SP\nM=M+1"));
    r.push(String::from_str("@LCL\nD=M\n@SP\nA=M\nM=D\n@SP\nM=M+1"));
    r.push(String::from_str("@ARG\nD=M\n@SP\nA=M\nM=D\n@SP\nM=M+1"));
    r.push(String::from_str("@THIS\nD=M\n@SP\nA=M\nM=D\n@SP\nM=M+1"));
    r.push(String::from_str("@THAT\nD=M\n@SP\nA=M\nM=D\n@SP\nM=M+1"));
    r.push(String::from_str("@").concat(nstr.as_str()).concat("\nD=A\n@SP\nD=M-D\n@5\nD=D-A\n@ARG\nM=D"));
    r.push(String::from_str("@SP\nD=M\n@LCL\nM=D"));
    r.push(String::from_str("@").concat(file).concat(".Sys.init\n0;JMP"));
    r.push(String::from_str("(RET_").concat(file).concat(".Sys.init)"));
    proof {
        assert(r.deep_view() =~= spec_sys_init_chunks(n_args as u16, file_name@));
    }
    r
}

/// The chunks one classified command contributes, in order.
pub open spec fn spec_command_code(
    cmd: VmCommandModel,
    i: nat,
    out: Seq<char>,
    file: Seq<char>,
) -> Seq<Seq<char>> {
    match cmd {
        VmCommandModel::Arithmetic(op) => seq![spec_arith_chunk(op, i)],
        VmCommandModel::PushPop { is_push, segment, index } => if is_push {
            seq![spec_push_chunk(segment, index, file)]
        } else if segment == Segment::Constant {
            Seq::empty()
        } else {
            seq![spec_pop_chunk(segment, index, file)]
        },
        VmCommandModel::Branching { kind, target } => seq![spec_branch_chunk(kind, target)],
        VmCommandModel::Function(f) => match f {
            FunctionCmdModel::Define { name, n_vars } => seq![spec_function_label(name, out)]
                + spec_repeat(spec_zero_push(), n_vars as nat),
            FunctionCmdModel::Call { name, n_args } => spec_call_chunks(name, n_args, i, out),
            FunctionCmdModel::Return => spec_return_chunks(),
        },
    }
}

fn gen_command(cmd: &VmCommand, i: usize, out: &str, file: &str) -> (r: Vec<String>)
    ensures
        r.deep_view() == spec_command_code(cmd@, i as nat, out@, file@),
{
    let mut r: Vec<String> = Vec::new();
    match cmd {
        VmCommand::Arithmetic(op) => {
            r.push(gen_arith(*op, i));
        },
        VmCommand::PushPop { is_push, segment, index } => {
            if *is_push {
                r.push(gen_push(*segment, *index, file));
            } else if !matches!(segment, Segment::Constant) {
                r.push(gen_pop(*segment, *index, file));
            }
        },
        VmCommand::Branching { kind, target } => {
            r.push(gen_branch(*kind, target.as_str()));
        },
        VmCommand::Function(f) => match f {
            FunctionCmd::Define { name, n_vars } => {
                r.push(String::from_str("(").concat(out).concat(".").concat(name).concat(")"));
                let mut k: u16 = 0;
                while k < *n_vars
                    invariant
                        0 <= k <= *n_vars,
                        r.deep_view() =~= seq![spec_function_label(name@, out@)] + spec_repeat(
                            spec_zero_push(),
                            k as nat,
                        ),
                    decreases *n_vars - k,
                {
                    let ghost pre = r.deep_view();
                    r.push(String::from_str("@0\nD=A\n@SP\nA=M\nM=D\n@SP\nM=M+1"));
                    proof {
                        assert(r.deep_view() =~= pre + seq![spec_zero_push()]);
                    }
                    k = k + 1;
                }
            },
            FunctionCmd::Call { name, n_args } => {
                let istr = u64_to_dec(i as u64);
                let nstr = u64_to_dec(*n_args as u64);
                let name = name.as_str();
                r.push(String::from_str("@RET_").concat(out).concat(".").concat(name).concat(".").concat(istr.as_str()).concat("\nD=A\n@SP\nA=M\nM=D\n@SP\nM=M+1"));
                r.push(String::from_str("@LCL\nD=M\n@SP\nA=M\nM=D\n@SP\nM=M+1"));
                r.push(String::from_str("@ARG\nD=M\n@SP\nA=M\nM=D\n@SP\nM=M+1"));
                r.push(String::from_str("@THIS\nD=M\n@SP\nA=M\nM=D\n@SP\nM=M+1"));
                r.push(String::from_str("@THAT\nD=M\n@SP\nA=M\nM=D\n@SP\nM=M+1"));
                r.push(String::from_str("@").concat(nstr.as_str()).concat("\nD=A\n@SP\nD=M-D\n@5\nD=D-A\n@ARG\nM=D"));
                r.push(String::from_str("@SP\nD=M\n@LCL\nM=D"));
                r.push(String::from_str("@").concat(out).concat(".").concat(name).concat("\n0;JMP"));
                r.push(String::from_str("(RET_").concat(out).concat(".").concat(name).concat(".").concat(istr.as_str()).concat(")"));
            },
            FunctionCmd::Return => {
                r.push(String::from_str("@LCL\nD=M\n@13\nM=D"));
                r.push(String::from_str("@13\nD=M\n@5\nD=D-A\nA=D\nD=M\n@14\nM=D"));
                r.push(String::from_str("@SP\nM=M-1\nA=M\nD=M\n@ARG\nA=M\nM=D"));
                r.push(String::from_str("@ARG\nD=M\n@SP\nM=D+1"));
                r.push(String::from_str("@13\nD=M\n@1\nD=D-A\nA=D\nD=M\n@THAT\nM=D"));
                r.push(String::from_str("@13\nD=M\n@2\nD=D-A\nA=D\nD=M\n@THIS\nM=D"));
                r.push(String::from_str("@13\nD=M\n@3\nD=D-A\nA=D\nD=M\n@ARG\nM=D"));
                r.push(String::from_str("@13\nD=M\n@4\nD=D-A\nA=D\nD=M\n@LCL\nM=D"));
                r.push(String::from_str("@14\nA=M\n0;JMP"));
            },
        },
    }
    proof {
        assert(r.deep_view() =~= spec_command_code(cmd@, i as nat, out@, file@));
    }
    r
}

/// Generation folded over the command sequence from index `i` on,
/// appending each command's chunks to the lines already emitted.
pub open spec fn spec_gen_acc(
    cmds: Seq<VmCommandModel>,
    i: nat,
    out: Seq<char>,
    file: Seq<char>,
    acc: Seq<Seq<char>>,
) -> Seq<Seq<char>>
    decreases cmds.len(),
{
    if cmds.len() == 0 {
        acc
    } else {
        spec_gen_acc(cmds.skip(1), i + 1, out, file, acc + spec_command_code(cmds[0], i, out, file))
    }
}

/// The chunk that points the stack pointer at address 256.
pub open spec fn spec_bootstrap_chunk() -> Seq<char> {
    "@256\nD=A\n@SP\nM=D"@
}

/// What translating a whole command sequence yields: the bootstrap
/// preamble if asked for, then each command's chunks in order, every
/// comparison and call branded with `start` plus its position. The
/// brand counter belongs to the whole translation run, not to one
/// file: the caller threads it across files so generated labels never
/// collide anywhere in the combined program.
pub open spec fn spec_generate(
    cmds: Seq<VmCommandModel>,
    out: Seq<char>,
    file: Seq<char>,
    bootstrap: bool,
    start: nat,
) -> Seq<Seq<char>> {
    spec_gen_acc(
        cmds,
        start,
        out,
        file,
        if bootstrap {
            seq![spec_bootstrap_chunk()] + spec_sys_init_chunks(0, out)
        } else {
            Seq::empty()
        },
    )
}

/// Lowers classified commands to symbolic assembly, one multi-line
/// chunk per emitted construct, in command order. With
/// `include_bootstrap_code` the output opens by setting the stack
/// pointer to 256 and calling `Sys.init`. `start_index` is the running
/// command count of the translation run so far; the second result is
/// that count after this file, to be passed to the next one, which
/// keeps every generated comparison and call-return label unique
/// across all the files of one program.
pub fn generate_machine_code(
    vm_command: Vec<VmCommand>,
    output_file_name: String,
    input_file_name: String,
    include_bootstrap_code: bool,
    start_index: usize,
) -> (r: (Vec<String>, usize))
    requires
        start_index + vm_command@.len() <= usize::MAX,
    ensures
        r.0.deep_view() == spec_generate(
            vm_command.deep_view(),
            output_file_name@,
            input_file_name@,
            include_bootstrap_code,
            start_index as nat,
        ),
        r.1 == start_index + vm_command@.len(),
{
    let mut machine_code: Vec<String> = Vec::new();
    if include_bootstrap_code {
        machine_code.push(String::from_str("@256\nD=A\n@SP\nM=D"));
        let mut boot = call_sys_init(0, output_file_name.clone());
        let ghost pre = machine_code.deep_view();
        machine_code.append(&mut boot);
        proof {
            assert(machine_code.deep_view() =~= seq![spec_bootstrap_chunk()]
                + spec_sys_init_chunks(0, output_file_name@));
        }
    }
    let mut i: usize = 0;
    proof {
        assert(vm_command.deep_view().skip(0) =~= vm_command.deep_view());
    }
    while i < vm_command.len()
        invariant
            0 <= i <= vm_command.len(),
            start_index + vm_command@.len() <= usize::MAX,
            spec_generate(
                vm_command.deep_view(),
                output_file_name@,
                input_file_name@,
                include_bootstrap_code,
                start_index as nat,
            ) == spec_gen_acc(
                vm_command.deep_view().skip(i as int),
                (start_index + i) as nat,
                output_file_name@,
                input_file_name@,
                machine_code.deep_view(),
            ),
        decreases vm_command.len() - i,
    {
        let ghost rem = vm_command.deep_view().skip(i as int);
        proof {
            assert(rem[0] == vm_command.deep_view()[i as int]);
            assert(rem.skip(1) =~= vm_command.deep_view().skip(i + 1));
        }
        let ghost pre = machine_code.deep_view();
        let mut chunk = gen_command(
            &vm_command[i],
            start_index + i,
            output_file_name.as_str(),
            input_file_name.as_str(),
        );
        let ghost chunk_view = chunk.deep_view();
        machine_code.append(&mut chunk);
        proof {
            assert(machine_code.deep_view() =~= pre + chunk_view);
        }
        i = i + 1;
    }
    proof {
        assert(vm_command.deep_view().skip(vm_command.len() as int) =~= Seq::<
            VmCommandModel,
        >::empty());
    }
    let next_index = start_index + vm_command.len();
    (machine_code, next_index)
}

/// Translation is a pure function of the command sequence, the output
/// unit, the file name, the bootstrap flag and the starting command
/// count: two independent runs over the same source yield
/// byte-identical output, because generated labels derive only from
/// command position, never from hidden state.
pub proof fn lemma_translation_deterministic(
    cmds: Seq<VmCommandModel>,
    out: Seq<char>,
    file: Seq<char>,
    bootstrap: bool,
    start: nat,
    r1: Seq<Seq<char>>,
    r2: Seq<Seq<char>>,
)
    requires
        r1 == spec_generate(cmds, out, file, bootstrap, start),
        r2 == spec_generate(cmds, out, file, bootstrap, start),
    ensures
        r1 == r2,
{
}

/// Labels branded with different command indices never collide: the
/// decimal suffix pins the index down, so the comparison and
/// call-return labels of two distinct commands always differ — also
/// across files, since the brand counter is threaded through a whole
/// translation run.
pub proof fn lemma_generated_labels_unique(prefix: Seq<char>, i: nat, j: nat)
    requires
        i != j,
    ensures
        prefix + dec_rep(i) != prefix + dec_rep(j),
{
    lemma_dec_rep_value(i);
    lemma_dec_rep_value(j);
    if prefix + dec_rep(i) == prefix + dec_rep(j) {
        let a = prefix + dec_rep(i);
        let b = prefix + dec_rep(j);
        assert(a.len() == b.len());
        assert(dec_rep(i) =~= a.subrange(prefix.len() as int, a.len() as int));
        assert(dec_rep(j) =~= b.subrange(prefix.len() as int, b.len() as int));
        assert(number_val(dec_rep(i)) == number_val(dec_rep(j)));
        assert(false);
    }
}

/// The concrete branch labels of two comparison commands at different
/// positions all differ, for every one of the six label families the
/// generator emits.
pub proof fn lemma_comparison_labels_distinct(i: nat, j: nat)
    requires
        i != j,
    ensures
        "EQ_RETURN."@ + dec_rep(i) != "EQ_RETURN."@ + dec_rep(j),
        "END_EQ."@ + dec_rep(i) != "END_EQ."@ + dec_rep(j),
        "POSITIVE_GT."@ + dec_rep(i) != "POSITIVE_GT."@ + dec_rep(j),
        "END_GT."@ + dec_rep(i) != "END_GT."@ + dec_rep(j),
        "POSITIVE_LT."@ + dec_rep(i) != "POSITIVE_LT."@ + dec_rep(j),
        "END_LT."@ + dec_rep(i) != "END_LT."@ + dec_rep(j),
{
    lemma_generated_labels_unique("EQ_RETURN."@, i, j);
    lemma_generated_labels_unique("END_EQ."@, i, j);
    lemma_generated_labels_unique("POSITIVE_GT."@, i, j);
    lemma_generated_labels_unique("END_GT."@, i, j);
    lemma_generated_labels_unique("POSITIVE_LT."@, i, j);
    lemma_generated_labels_unique("END_LT."@, i, j);
}

} // verus!
