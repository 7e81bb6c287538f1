//! The two-pass assembler: label discovery, parsing, and word-by-word
//! code generation over the symbol table.

use vstd::prelude::*;
use vstd::string::StrSliceExecFns;
use crate::code::instruction_to_bin;
use crate::code::spec_instruction_bits;
use crate::errors::AsmError;
use crate::errors::AsmErrorModel;
use crate::parser::InstructionModel;
use crate::parser::find_label;
use crate::parser::parse_lines;
use crate::parser::spec_parse_acc;
use crate::parser::spec_pass1;
use crate::symbol_table::SymbolTable;
use crate::text::spec_source_lines;

verus! {

/// Folding code generation over parsed instructions: each record
/// emits its word (labels emit nothing) and may grow the table; the
/// first fatal instruction stops the fold with the state reached.
pub open spec fn spec_emit_acc(
    instrs: Seq<InstructionModel>,
    m: Map<Seq<char>, u16>,
    next: u16,
    acc: Seq<Seq<char>>,
) -> (Result<Seq<Seq<char>>, AsmErrorModel>, Map<Seq<char>, u16>, u16)
    decreases instrs.len(),
{
    if instrs.len() == 0 {
        (Ok(acc), m, next)
    } else {
        match spec_instruction_bits(instrs[0], m, next) {
            Err(e) => (Err(e), m, next),
            Ok(t) => spec_emit_acc(
                instrs.skip(1),
                t.1,
                t.2,
                if t.0.len() == 0 {
                    acc
                } else {
                    acc + seq![t.0]
                },
            ),
        }
    }
}

/// What assembling a whole source text yields: the 16-character binary
/// words in source order, or the first fatal condition; in either case
/// the table contents and next free variable address reached.
pub open spec fn spec_assemble(src: Seq<char>, m: Map<Seq<char>, u16>, next: u16) -> (Result<
    Seq<Seq<char>>,
    AsmErrorModel,
>, Map<Seq<char>, u16>, u16) {
    let lines = spec_source_lines(src);
    let p1 = spec_pass1(lines, m, 0);
    match p1.0 {
        Err(e) => (Err(e), p1.1, next),
        Ok(u) => match spec_parse_acc(lines, Seq::empty()) {
            Err(e) => (Err(e), p1.1, next),
            Ok(instrs) => spec_emit_acc(instrs, p1.1, next, Seq::empty()),
        },
    }
}

/// Assembles a source text: pass one binds the labels, pass two emits
/// one 16-character binary word per executable instruction, in source
/// order, resolving symbols and allocating unseen variables from 16 up.
/// On a fatal condition no output is returned.
pub fn assemble(source: &str, symbol_table: &mut SymbolTable) -> (r: Result<Vec<String>, AsmError>)
    requires
        old(symbol_table).wf(),
    ensures
        final(symbol_table).wf(),
        ({
            let s = spec_assemble(source@, old(symbol_table)@, old(symbol_table).next_var());
            final(symbol_table)@ == s.1 && final(symbol_table).next_var() == s.2 && match (
                r,
                s.0,
            ) {
                (Ok(v), Ok(sv)) => v.deep_view() == sv,
                (Err(e), Err(f)) => e@ == f,
                _ => false,
            }
        }),
{
    match find_label(source, symbol_table) {
        Err(e) => {
            return Err(e);
        },
        Ok(_) => {},
    }
    let instructions = match parse_lines(source) {
        Err(e) => {
            return Err(e);
        },
        Ok(v) => v,
    };
    let ghost m1 = symbol_table@;
    let ghost next1 = symbol_table.next_var();
    proof {
        assert(spec_assemble(source@, old(symbol_table)@, old(symbol_table).next_var())
            == spec_emit_acc(instructions.deep_view(), m1, next1, Seq::empty()));
    }
    let mut machine_code: Vec<String> = Vec::new();
    let mut i: usize = 0;
    proof {
        assert(instructions.deep_view().skip(0) =~= instructions.deep_view());
        assert(machine_code.deep_view() =~= Seq::<Seq<char>>::empty());
    }
    while i < instructions.len()
        invariant
            0 <= i <= instructions.len(),
            symbol_table.wf(),
            spec_assemble(source@, old(symbol_table)@, old(symbol_table).next_var())
                == spec_emit_acc(
                instructions.deep_view().skip(i as int),
                symbol_table@,
                symbol_table.next_var(),
                machine_code.deep_view(),
            ),
        decreases instructions.len() - i,
    {
        let ghost rem = instructions.deep_view().skip(i as int);
        proof {
            assert(rem[0] == instructions.deep_view()[i as int]);
            assert(rem.skip(1) =~= instructions.deep_view().skip(i + 1));
        }
        let ghost table_pre = symbol_table@;
        let ghost next_pre = symbol_table.next_var();
        match instruction_to_bin(&instructions[i], symbol_table) {
            Err(e) => {
                proof {
                    assert(spec_emit_acc(rem, table_pre, next_pre, machine_code.deep_view()) == (
                        Err::<Seq<Seq<char>>, AsmErrorModel>(e@),
                        table_pre,
                        next_pre,
                    ));
                }
                return Err(e);
            },
            Ok(line) => {
                if line.as_str().unicode_len() > 0 {
                    let ghost pre = machine_code.deep_view();
                    machine_code.push(line);
                    proof {
                        assert(machine_code.deep_view() =~= pre + seq![line@]);
                    }
                }
            },
        }
        i = i + 1;
    }
    proof {
        assert(instructions.deep_view().skip(instructions.len() as int) =~= Seq::<
            InstructionModel,
        >::empty());
    }
    Ok(machine_code)
}

} // verus!
