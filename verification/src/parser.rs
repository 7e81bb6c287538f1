//! The assembly parser: classifies each normalized source line as an
//! address instruction, a compute instruction, a label declaration or a
//! variable reference, and runs the label-discovery pass.

use vstd::prelude::*;
use vstd::string::StrSliceExecFns;
use vstd::string::StringExecFns;
use crate::errors::AsmError;
use crate::errors::AsmErrorModel;
use crate::errors::asm_result_matches;
use crate::symbol_table::SymbolTable;
use crate::text::find_char;
use crate::text::find_char_at;
use crate::text::is_number_seq;
use crate::text::number_val;
use crate::text::parse_capped_number;
use crate::text::rfind_char;
use crate::text::rfind_char_at;
use crate::text::spec_source_lines;
use crate::text::spec_trim;
use crate::text::source_lines;
use crate::text::trim;

verus! {

/// One parsed assembly line.
#[derive(Debug, Clone, PartialEq, Eq)]
pub enum Instruction {
    /// `@n` with a decimal literal below 32768.
    AInstruction(u16),
    /// `dest=comp;jump`, with `dest` and `jump` optional.
    CInstruction { dest: Option<String>, comp: String, jump: Option<String> },
    /// `(name)`: binds `name` to the next instruction's index.
    Label(String),
    /// `@name` with a symbolic operand, resolved or allocated later.
    Variable(String),
}

/// Mathematical image of `Instruction`.
pub enum InstructionModel {
    Address(u16),
    Compute { dest: Option<Seq<char>>, comp: Seq<char>, jump: Option<Seq<char>> },
    Label(Seq<char>),
    Variable(Seq<char>),
}

impl View for Instruction {
    type V = InstructionModel;

    open spec fn view(&self) -> InstructionModel {
        match self {
            Instruction::AInstruction(v) => InstructionModel::Address(*v),
            Instruction::CInstruction { dest, comp, jump } => InstructionModel::Compute {
                dest: dest.deep_view(),
                comp: comp@,
                jump: jump.deep_view(),
            },
            Instruction::Label(s) => InstructionModel::Label(s@),
            Instruction::Variable(s) => InstructionModel::Variable(s@),
        }
    }
}

impl DeepView for Instruction {
    type V = InstructionModel;

    open spec fn deep_view(&self) -> InstructionModel {
        self.view()
    }
}

/// A `(name)` label declaration.
pub open spec fn is_label_line(l: Seq<char>) -> bool {
    l.len() >= 2 && l[0] == '(' && l[l.len() - 1] == ')'
}

/// The name inside a label declaration.
pub open spec fn label_name(l: Seq<char>) -> Seq<char> {
    l.subrange(1, l.len() - 1)
}

/// The part of a compute line before any `;`.
pub open spec fn pre_jump(l: Seq<char>) -> Seq<char> {
    match find_char(l, ';') {
        None => l,
        Some(k) => l.take(k),
    }
}

/// The destination field: what stands before the first `=`, if any.
pub open spec fn spec_dest_of(l: Seq<char>) -> Option<Seq<char>> {
    match find_char(pre_jump(l), '=') {
        None => None,
        Some(k) => Some(pre_jump(l).take(k)),
    }
}

/// The computation field: what stands after the last `=` and before
/// any `;`, trimmed.
pub open spec fn spec_comp_of(l: Seq<char>) -> Seq<char> {
    match rfind_char(pre_jump(l), '=') {
        None => spec_trim(pre_jump(l)),
        Some(k) => spec_trim(pre_jump(l).skip(k + 1)),
    }
}

/// The jump field: what stands after the first `;`, trimmed, if any.
pub open spec fn spec_jump_of(l: Seq<char>) -> Option<Seq<char>> {
    match find_char(l, ';') {
        None => None,
        Some(k) => Some(spec_trim(l.skip(k + 1))),
    }
}

/// Classifies one normalized line. `Ok(None)` is a line that carries no
/// instruction; a numeric address operand of 32768 or more is rejected.
pub open spec fn spec_classify_line(l: Seq<char>) -> Result<
    Option<InstructionModel>,
    AsmErrorModel,
> {
    if is_label_line(l) {
        Ok(Some(InstructionModel::Label(label_name(l))))
    } else if l.len() > 0 && l[0] == '@' {
        let op = spec_trim(l.skip(1));
        if is_number_seq(op) {
            if number_val(op) < 32768 {
                Ok(Some(InstructionModel::Address(number_val(op) as u16)))
            } else {
                Err(AsmErrorModel::AddressOverflow(op))
            }
        } else {
            Ok(Some(InstructionModel::Variable(op)))
        }
    } else if find_char(l, '=') is Some || find_char(l, ';') is Some {
        Ok(
            Some(
                InstructionModel::Compute {
                    dest: spec_dest_of(l),
                    comp: spec_comp_of(l),
                    jump: spec_jump_of(l),
                },
            ),
        )
    } else {
        Ok(None)
    }
}

/// Classifies one normalized source line.
pub fn classify_line(line: &str) -> (r: Result<Option<Instruction>, AsmError>)
    ensures
        asm_result_matches(r, spec_classify_line(line@)),
{
    let n = line.unicode_len();
    if n >= 2 && line.get_char(0) == '(' && line.get_char(n - 1) == ')' {
        let name = line.substring_char(1, n - 1);
        return Ok(Some(Instruction::Label(String::from_str(name))));
    }
    if n > 0 && line.get_char(0) == '@' {
        let op = trim(line.substring_char(1, n));
        proof {
            assert(op@ == spec_trim(line@.skip(1)));
        }
        match parse_capped_number(op) {
            Some(v) => {
                if v < 32768 {
                    Ok(Some(Instruction::AInstruction(v as u16)))
                } else {
                    Err(AsmError::AddressOverflow(String::from_str(op)))
                }
            },
            None => Ok(Some(Instruction::Variable(String::from_str(op)))),
        }
    } else {
        let semi = find_char_at(line, ';');
        let pre = match semi {
            Some(k) => line.substring_char(0, k),
            None => line,
        };
        proof {
            assert(pre@ == pre_jump(line@));
        }
        let eq_first = find_char_at(pre, '=');
        if eq_first.is_none() && semi.is_none() {
            return Ok(None);
        }
        let dest = match eq_first {
            Some(k) => Some(String::from_str(pre.substring_char(0, k))),
            None => None,
        };
        let pn = pre.unicode_len();
        let comp = match rfind_char_at(pre, '=') {
            Some(k) => String::from_str(trim(pre.substring_char(k + 1, pn))),
            None => String::from_str(trim(pre)),
        };
        let jump = match semi {
            Some(k) => Some(String::from_str(trim(line.substring_char(k + 1, n)))),
            None => None,
        };
        let r = Instruction::CInstruction { dest, comp, jump };
        proof {
            assert(r@ matches InstructionModel::Compute { dest: d, comp: c, jump: j }
                ==> d == spec_dest_of(line@) && c == spec_comp_of(line@) && j == spec_jump_of(
                line@,
            ));
        }
        Ok(Some(r))
    }
}

/// Parsing a sequence of normalized lines, accumulating the
/// instructions seen so far; the first fatal line wins.
pub open spec fn spec_parse_acc(lines: Seq<Seq<char>>, acc: Seq<InstructionModel>) -> Result<
    Seq<InstructionModel>,
    AsmErrorModel,
>
    decreases lines.len(),
{
    if lines.len() == 0 {
        Ok(acc)
    } else {
        match spec_classify_line(lines[0]) {
            Err(e) => Err(e),
            Ok(None) => spec_parse_acc(lines.skip(1), acc),
            Ok(Some(i)) => spec_parse_acc(lines.skip(1), acc + seq![i]),
        }
    }
}

/// What parsing a whole source text yields: its instruction records in
/// source order, or the first fatal condition.
pub open spec fn spec_parse_lines(src: Seq<char>) -> Result<Seq<InstructionModel>, AsmErrorModel> {
    spec_parse_acc(spec_source_lines(src), Seq::empty())
}

/// Parses source text into instruction records, skipping blank lines,
/// comments and label declarations' surroundings as the grammar asks.
pub fn parse_lines(source: &str) -> (r: Result<Vec<Instruction>, AsmError>)
    ensures
        asm_result_matches(r, spec_parse_lines(source@)),
{
    let lines = source_lines(source);
    let mut out: Vec<Instruction> = Vec::new();
    let mut k: usize = 0;
    proof {
        assert(lines.deep_view().skip(0) =~= lines.deep_view());
        assert(out.deep_view() =~= Seq::<InstructionModel>::empty());
    }
    while k < lines.len()
        invariant
            0 <= k <= lines.len(),
            lines.deep_view() == spec_source_lines(source@),
            spec_parse_lines(source@) == spec_parse_acc(
                lines.deep_view().skip(k as int),
                out.deep_view(),
            ),
        decreases lines.len() - k,
    {
        let ghost rem = lines.deep_view().skip(k as int);
        proof {
            assert(rem[0] == lines.deep_view()[k as int]);
            assert(rem.skip(1) =~= lines.deep_view().skip(k + 1));
        }
        match classify_line(lines[k].as_str()) {
            Err(e) => {
                return Err(e);
            },
            Ok(Some(inst)) => {
                let ghost pre = out.deep_view();
                out.push(inst);
                proof {
                    assert(out.deep_view() =~= pre + seq![inst@]);
                }
            },
            Ok(None) => {},
        }
        k = k + 1;
    }
    proof {
        assert(lines.deep_view().skip(lines.len() as int) =~= Seq::<Seq<char>>::empty());
    }
    Ok(out)
}

/// The label-discovery pass over normalized lines: binds each label to
/// the running count of executable lines, leaves the count unchanged
/// for labels, and stops at a duplicate label or an address past the
/// 15-bit space. Returns the outcome together with the table contents
/// reached.
pub open spec fn spec_pass1(lines: Seq<Seq<char>>, m: Map<Seq<char>, u16>, counter: nat) -> (Result<
    (),
    AsmErrorModel,
>, Map<Seq<char>, u16>)
    decreases lines.len(),
{
    if lines.len() == 0 {
        (Ok(()), m)
    } else {
        let l = lines[0];
        if is_label_line(l) {
            let name = label_name(l);
            if m.contains_key(name) {
                (Err(AsmErrorModel::DuplicateLabel(name)), m)
            } else if counter >= 32768 {
                (Err(AsmErrorModel::AddressOverflow(name)), m)
            } else {
                spec_pass1(lines.skip(1), m.insert(name, counter as u16), counter)
            }
        } else {
            spec_pass1(lines.skip(1), m, counter + 1)
        }
    }
}

/// Pass one of assembling: walks the normalized lines and binds every
/// label declaration `(name)` to the index the next executable
/// instruction will have. A name already bound — a redeclared label, or
/// a clash with a predefined symbol — is a fatal duplicate.
pub fn find_label(source: &str, symbol_table: &mut SymbolTable) -> (r: Result<(), AsmError>)
    requires
        old(symbol_table).wf(),
    ensures
        final(symbol_table).wf(),
        final(symbol_table).next_var() == old(symbol_table).next_var(),
        final(symbol_table)@ == spec_pass1(spec_source_lines(source@), old(symbol_table)@, 0).1,
        match (r, spec_pass1(spec_source_lines(source@), old(symbol_table)@, 0).0) {
            (Ok(u), Ok(v)) => true,
            (Err(e), Err(f)) => e@ == f,
            _ => false,
        },
{
    let lines = source_lines(source);
    let mut k: usize = 0;
    let mut counter: usize = 0;
    proof {
        assert(lines.deep_view().skip(0) =~= lines.deep_view());
    }
    while k < lines.len()
        invariant
            0 <= k <= lines.len(),
            counter <= k,
            symbol_table.wf(),
            symbol_table.next_var() == old(symbol_table).next_var(),
            lines.deep_view() == spec_source_lines(source@),
            spec_pass1(spec_source_lines(source@), old(symbol_table)@, 0) == spec_pass1(
                lines.deep_view().skip(k as int),
                symbol_table@,
                counter as nat,
            ),
        decreases lines.len() - k,
    {
        let ghost rem = lines.deep_view().skip(k as int);
        proof {
            assert(rem[0] == lines.deep_view()[k as int]);
            assert(rem.skip(1) =~= lines.deep_view().skip(k + 1));
        }
        let line = lines[k].as_str();
        let n = line.unicode_len();
        if n >= 2 && line.get_char(0) == '(' && line.get_char(n - 1) == ')' {
            let name = line.substring_char(1, n - 1);
            proof {
                assert(name@ == label_name(rem[0]));
            }
            if symbol_table.contains(name) {
                return Err(AsmError::DuplicateLabel(String::from_str(name)));
            }
            if counter >= 32768 {
                return Err(AsmError::AddressOverflow(String::from_str(name)));
            }
            match symbol_table.add_entry(String::from_str(name), counter as u16) {
                Ok(_) => {},
                Err(_) => {
                    proof {
                        assert(false);
                    }
                },
            }
        } else {
            counter = counter + 1;
        }
        k = k + 1;
    }
    proof {
        assert(lines.deep_view().skip(lines.len() as int) =~= Seq::<Seq<char>>::empty());
    }
    Ok(())
}

/// How many of these lines are executable: every normalized line that
/// is not a label declaration.
pub open spec fn exec_count(lines: Seq<Seq<char>>) -> nat
    decreases lines.len(),
{
    if lines.len() == 0 {
        0
    } else {
        (if is_label_line(lines[0]) {
            0nat
        } else {
            1nat
        }) + exec_count(lines.skip(1))
    }
}

proof fn lemma_pass1_preserves(lines: Seq<Seq<char>>, m: Map<Seq<char>, u16>, c: nat, k: Seq<char>)
    requires
        m.contains_key(k),
        spec_pass1(lines, m, c).0 is Ok,
    ensures
        spec_pass1(lines, m, c).1.contains_key(k),
        spec_pass1(lines, m, c).1[k] == m[k],
    decreases lines.len(),
{
    if lines.len() == 0 {
    } else {
        let l = lines[0];
        if is_label_line(l) {
            let name = label_name(l);
            assert(!m.contains_key(name));
            lemma_pass1_preserves(lines.skip(1), m.insert(name, c as u16), c, k);
        } else {
            lemma_pass1_preserves(lines.skip(1), m, c + 1, k);
        }
    }
}

/// A label declared after `n` executable lines is bound to address
/// `n`: when the label pass succeeds, the declaration at position `p`
/// is bound to the starting count plus the number of executable lines
/// before `p`, and labels themselves contribute nothing to the count.
pub proof fn lemma_label_binds_instruction_index(
    lines: Seq<Seq<char>>,
    m: Map<Seq<char>, u16>,
    c: nat,
    p: int,
)
    requires
        0 <= p < lines.len(),
        is_label_line(lines[p]),
        spec_pass1(lines, m, c).0 is Ok,
    ensures
        spec_pass1(lines, m, c).1.contains_key(label_name(lines[p])),
        spec_pass1(lines, m, c).1[label_name(lines[p])] == c + exec_count(lines.take(p)),
    decreases p,
{
    let l = lines[0];
    if p == 0 {
        let name = label_name(l);
        assert(!m.contains_key(name));
        assert(c < 32768);
        lemma_pass1_preserves(lines.skip(1), m.insert(name, c as u16), c, name);
        assert(lines.take(0) =~= Seq::<Seq<char>>::empty());
    } else {
        assert(lines.take(p).skip(1) =~= lines.skip(1).take(p - 1));
        assert(lines.skip(1)[p - 1] == lines[p]);
        if is_label_line(l) {
            let name = label_name(l);
            assert(!m.contains_key(name));
            assert(c < 32768);
            lemma_label_binds_instruction_index(lines.skip(1), m.insert(name, c as u16), c, p - 1);
            assert(exec_count(lines.take(p)) == exec_count(lines.skip(1).take(p - 1)));
        } else {
            lemma_label_binds_instruction_index(lines.skip(1), m, c + 1, p - 1);
            assert(exec_count(lines.take(p)) == 1 + exec_count(lines.skip(1).take(p - 1)));
        }
    }
}

} // verus!
