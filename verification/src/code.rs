//! The fixed code tables of the machine: destination, computation and
//! jump mnemonics to their bit fields, and the translation of one
//! parsed instruction into a 16-bit binary word.

use vstd::prelude::*;
use vstd::string::StrSliceExecFns;
use vstd::string::StringExecFns;
use crate::errors::AsmError;
use crate::errors::AsmErrorModel;
use crate::parser::Instruction;
use crate::parser::InstructionModel;
use crate::symbol_table::SymbolTable;
use crate::text::bin_rep;
use crate::text::dec_rep;
use crate::text::u64_to_dec;
use crate::text::spec_trim;
use crate::text::str_eq;
use crate::text::trim;
use crate::text::u32_to_bin;

verus! {

/// The three destination bits: one for each of A, D and M, `000` when
/// no destination (or an unknown combination) is given.
pub open spec fn spec_dest_bits(d: Option<Seq<char>>) -> Seq<char> {
    match d {
        Some(s) =>
            if s == "M"@ {
                "001"@
            } else if s == "D"@ {
                "010"@
            } else if s == "MD"@ {
                "011"@
            } else if s == "A"@ {
                "100"@
            } else if s == "AM"@ {
                "101"@
            } else if s == "AD"@ {
                "110"@
            } else if s == "AMD"@ {
                "111"@
            } else {
                "000"@
            },
        None => "000"@,
    }
}

/// Destination mnemonic to its three bits.
pub fn dest_to_bin(dest: Option<&str>) -> (r: &'static str)
    ensures
        r@ == spec_dest_bits(dest.deep_view()),
{
    match dest {
        Some(d) =>
            if str_eq(d, "M") {
                "001"
            } else if str_eq(d, "D") {
                "010"
            } else if str_eq(d, "MD") {
                "011"
            } else if str_eq(d, "A") {
                "100"
            } else if str_eq(d, "AM") {
                "101"
            } else if str_eq(d, "AD") {
                "110"
            } else if str_eq(d, "AMD") {
                "111"
            } else {
                "000"
            },
        None => "000",
    }
}

/// The three jump-condition bits, `000` when no jump (or an unknown
/// condition) is given.
pub open spec fn spec_jump_bits(d: Option<Seq<char>>) -> Seq<char> {
    match d {
        Some(s) =>
            if s == "JGT"@ {
                "001"@
            } else if s == "JEQ"@ {
                "010"@
            } else if s == "JGE"@ {
                "011"@
            } else if s == "JLT"@ {
                "100"@
            } else if s == "JNE"@ {
                "101"@
            } else if s == "JLE"@ {
                "110"@
            } else if s == "JMP"@ {
                "111"@
            } else {
                "000"@
            },
        None => "000"@,
    }
}

/// Jump mnemonic to its three bits.
pub fn jump_to_bin(jump: Option<&str>) -> (r: &'static str)
    ensures
        r@ == spec_jump_bits(jump.deep_view()),
{
    match jump {
        Some(d) =>
            if str_eq(d, "JGT") {
                "001"
            } else if str_eq(d, "JEQ") {
                "010"
            } else if str_eq(d, "JGE") {
                "011"
            } else if str_eq(d, "JLT") {
                "100"
            } else if str_eq(d, "JNE") {
                "101"
            } else if str_eq(d, "JLE") {
                "110"
            } else if str_eq(d, "JMP") {
                "111"
            } else {
                "000"
            },
        None => "000",
    }
}

/// The seven computation bits of the closed 28-entry table, or nothing
/// for a mnemonic outside it.
pub open spec fn spec_comp_bits(c0: Seq<char>) -> Option<Seq<char>> {
    let c = spec_trim(c0);
    if c == "0"@ {
        Some("0101010"@)
    } else if c == "1"@ {
        Some("0111111"@)
    } else if c == "-1"@ {
        Some("0111010"@)
    } else if c == "D"@ {
        Some("0001100"@)
    } else if c == "A"@ {
        Some("0110000"@)
    } else if c == "M"@ {
        Some("1110000"@)
    } else if c == "!D"@ {
        Some("0001101"@)
    } else if c == "!A"@ {
        Some("0110001"@)
    } else if c == "!M"@ {
        Some("1110001"@)
    } else if c == "-D"@ {
        Some("0001111"@)
    } else if c == "-A"@ {
        Some("0110011"@)
    } else if c == "-M"@ {
        Some("1110011"@)
    } else if c == "D+1"@ {
        Some("0011111"@)
    } else if c == "A+1"@ {
        Some("0110111"@)
    } else if c == "M+1"@ {
        Some("1110111"@)
    } else if c == "D-1"@ {
        Some("0001110"@)
    } else if c == "A-1"@ {
        Some("0110010"@)
    } else if c == "M-1"@ {
        Some("1110010"@)
    } else if c == "D+A"@ {
        Some("0000010"@)
    } else if c == "D+M"@ {
        Some("1000010"@)
    } else if c == "D-A"@ {
        Some("0010011"@)
    } else if c == "D-M"@ {
        Some("1010011"@)
    } else if c == "A-D"@ {
        Some("0000111"@)
    } else if c == "M-D"@ {
        Some("1000111"@)
    } else if c == "D&A"@ {
        Some("0000000"@)
    } else if c == "D&M"@ {
        Some("1000000"@)
    } else if c == "D|A"@ {
        Some("0010101"@)
    } else if c == "D|M"@ {
        Some("1010101"@)
    } else {
        None
    }
}

/// Computation mnemonic (trimmed first) to its seven bits; an unknown
/// mnemonic yields nothing and is fatal to the caller.
pub fn comp_to_bin(comp: &str) -> (r: Option<&'static str>)
    ensures
        match (r, spec_comp_bits(comp@)) {
            (Some(a), Some(b)) => a@ == b,
            (None, None) => true,
            _ => false,
        },
{
    let c = trim(comp);
    if str_eq(c, "0") {
        Some("0101010")
    } else if str_eq(c, "1") {
        Some("0111111")
    } else if str_eq(c, "-1") {
        Some("0111010")
    } else if str_eq(c, "D") {
        Some("0001100")
    } else if str_eq(c, "A") {
        Some("0110000")
    } else if str_eq(c, "M") {
        Some("1110000")
    } else if str_eq(c, "!D") {
        Some("0001101")
    } else if str_eq(c, "!A") {
        Some("0110001")
    } else if str_eq(c, "!M") {
        Some("1110001")
    } else if str_eq(c, "-D") {
        Some("0001111")
    } else if str_eq(c, "-A") {
        Some("0110011")
    } else if str_eq(c, "-M") {
        Some("1110011")
    } else if str_eq(c, "D+1") {
        Some("0011111")
    } else if str_eq(c, "A+1") {
        Some("0110111")
    } else if str_eq(c, "M+1") {
        Some("1110111")
    } else if str_eq(c, "D-1") {
        Some("0001110")
    } else if str_eq(c, "A-1") {
        Some("0110010")
    } else if str_eq(c, "M-1") {
        Some("1110010")
    } else if str_eq(c, "D+A") {
        Some("0000010")
    } else if str_eq(c, "D+M") {
        Some("1000010")
    } else if str_eq(c, "D-A") {
        Some("0010011")
    } else if str_eq(c, "D-M") {
        Some("1010011")
    } else if str_eq(c, "A-D") {
        Some("0000111")
    } else if str_eq(c, "M-D") {
        Some("1000111")
    } else if str_eq(c, "D&A") {
        Some("0000000")
    } else if str_eq(c, "D&M") {
        Some("1000000")
    } else if str_eq(c, "D|A") {
        Some("0010101")
    } else if str_eq(c, "D|M") {
        Some("1010101")
    } else {
        None
    }
}

/// What translating one instruction record yields: the emitted
/// characters (empty for a label), the table contents after it, and
/// the next free variable address after it — or the fatal condition.
/// An address value outside the 15-bit space is rejected, never
/// truncated.
pub open spec fn spec_instruction_bits(
    i: InstructionModel,
    m: Map<Seq<char>, u16>,
    next: u16,
) -> Result<(Seq<char>, Map<Seq<char>, u16>, u16), AsmErrorModel> {
    match i {
        InstructionModel::Address(v) => if v < 32768 {
            Ok(("0"@ + bin_rep(v as nat, 15), m, next))
        } else {
            Err(AsmErrorModel::AddressOverflow(dec_rep(v as nat)))
        },
        InstructionModel::Compute { dest, comp, jump } => match spec_comp_bits(comp) {
            None => Err(AsmErrorModel::MalformedInstruction(comp)),
            Some(cb) => Ok(
                ("111"@ + cb + spec_dest_bits(dest) + spec_jump_bits(jump), m, next),
            ),
        },
        InstructionModel::Label(name) => Ok((Seq::empty(), m, next)),
        InstructionModel::Variable(name) => if m.contains_key(name) {
            Ok(("0"@ + bin_rep(m[name] as nat, 15), m, next))
        } else if next < 32768 {
            Ok(("0"@ + bin_rep(next as nat, 15), m.insert(name, next), (next + 1) as u16))
        } else {
            Err(AsmErrorModel::AddressOverflow(name))
        },
    }
}

/// Translates one parsed instruction to its 16-bit binary word: `0`
/// plus a 15-bit address for address instructions and variables
/// (allocating unbound variables from 16 up), `111` plus the three bit
/// fields for compute instructions, and nothing for a label.
pub fn instruction_to_bin(instruction: &Instruction, symbol_table: &mut SymbolTable) -> (r: Result<
    String,
    AsmError,
>)
    requires
        old(symbol_table).wf(),
    ensures
        final(symbol_table).wf(),
        ({
            let s = spec_instruction_bits(
                instruction@,
                old(symbol_table)@,
                old(symbol_table).next_var(),
            );
            match (r, s) {
                (Ok(line), Ok(t)) => line@ == t.0 && final(symbol_table)@ == t.1
                    && final(symbol_table).next_var() == t.2,
                (Err(e), Err(f)) => e@ == f && final(symbol_table)@ == old(symbol_table)@
                    && final(symbol_table).next_var() == old(symbol_table).next_var(),
                _ => false,
            }
        }),
{
    match instruction {
        Instruction::AInstruction(v) => {
            if *v < 32768 {
                let bits = u32_to_bin(*v as u32, 15);
                Ok(String::from_str("0").concat(bits.as_str()))
            } else {
                // The parser never builds such a record, but a
                // hand-built one must be rejected, never truncated.
                Err(AsmError::AddressOverflow(u64_to_dec(*v as u64)))
            }
        },
        Instruction::CInstruction { dest, comp, jump } => {
            let comp_bits = match comp_to_bin(comp.as_str()) {
                Some(b) => b,
                None => {
                    return Err(AsmError::MalformedInstruction(comp.clone()));
                },
            };
            let dest_bits = dest_to_bin(
                match dest {
                    Some(d) => Some(d.as_str()),
                    None => None,
                },
            );
            let jump_bits = jump_to_bin(
                match jump {
                    Some(j) => Some(j.as_str()),
                    None => None,
                },
            );
            Ok(
                String::from_str("111").concat(comp_bits).concat(dest_bits).concat(jump_bits),
            )
        },
        Instruction::Label(_) => {
            let r = String::new();
            proof {
                assert(r@ =~= Seq::<char>::empty());
            }
            Ok(r)
        },
        Instruction::Variable(name) => {
            match symbol_table.get_address(name.as_str()) {
                Some(a) => {
                    let bits = u32_to_bin(a as u32, 15);
                    Ok(String::from_str("0").concat(bits.as_str()))
                },
                None => {
                    if symbol_table.next_free() < 32768 {
                        let a = symbol_table.add_variable(name.clone());
                        let bits = u32_to_bin(a as u32, 15);
                        Ok(String::from_str("0").concat(bits.as_str()))
                    } else {
                        Err(AsmError::AddressOverflow(name.clone()))
                    }
                },
            }
        },
    }
}

} // verus!
