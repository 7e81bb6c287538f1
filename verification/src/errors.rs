//! The closed error sets of the two translators. Every fatal condition
//! is one of these variants; each carries the offending name, mnemonic
//! or command so callers can report it.

use vstd::prelude::*;
use vstd::string::StringExecFns;

verus! {

/// A fatal condition met while assembling.
#[derive(Debug, Clone, PartialEq, Eq)]
pub enum AsmError {
    /// A compute instruction's computation mnemonic is not in the fixed table.
    MalformedInstruction(String),
    /// A numeric address operand, a label address or a variable
    /// allocation does not fit in fifteen bits.
    AddressOverflow(String),
    /// A label name was declared twice, collides with a bound symbol,
    /// or a bound name was redeclared with a different address.
    DuplicateLabel(String),
}

/// Mathematical image of `AsmError`.
pub enum AsmErrorModel {
    MalformedInstruction(Seq<char>),
    AddressOverflow(Seq<char>),
    DuplicateLabel(Seq<char>),
}

impl View for AsmError {
    type V = AsmErrorModel;

    open spec fn view(&self) -> AsmErrorModel {
        match self {
            AsmError::MalformedInstruction(s) => AsmErrorModel::MalformedInstruction(s@),
            AsmError::AddressOverflow(s) => AsmErrorModel::AddressOverflow(s@),
            AsmError::DuplicateLabel(s) => AsmErrorModel::DuplicateLabel(s@),
        }
    }
}

impl AsmError {
    /// A one-line description naming the offender.
    pub fn message(&self) -> (r: String)
        ensures
            r@ == self.spec_message(),
    {
        match self {
            AsmError::MalformedInstruction(s) => String::from_str(
                "unknown computation mnemonic: ",
            ).concat(s.as_str()),
            AsmError::AddressOverflow(s) => String::from_str(
                "address does not fit in 15 bits: ",
            ).concat(s.as_str()),
            AsmError::DuplicateLabel(s) => String::from_str("label declared twice: ").concat(
                s.as_str(),
            ),
        }
    }

    /// The message text, in the mathematical world.
    pub open spec fn spec_message(&self) -> Seq<char> {
        match self {
            AsmError::MalformedInstruction(s) => "unknown computation mnemonic: "@ + s@,
            AsmError::AddressOverflow(s) => "address does not fit in 15 bits: "@ + s@,
            AsmError::DuplicateLabel(s) => "label declared twice: "@ + s@,
        }
    }
}

/// A fatal condition met while translating stack-machine commands.
#[derive(Debug, Clone, PartialEq, Eq)]
pub enum VmError {
    /// A command keyword, segment name, index or arity outside the
    /// closed sets, or a command with the wrong number of tokens.
    UnsupportedCommand(String),
    /// A branch names a label that no `label` command declares.
    MissingTarget(String),
}

/// Mathematical image of `VmError`.
pub enum VmErrorModel {
    UnsupportedCommand(Seq<char>),
    MissingTarget(Seq<char>),
}

impl View for VmError {
    type V = VmErrorModel;

    open spec fn view(&self) -> VmErrorModel {
        match self {
            VmError::UnsupportedCommand(s) => VmErrorModel::UnsupportedCommand(s@),
            VmError::MissingTarget(s) => VmErrorModel::MissingTarget(s@),
        }
    }
}

impl VmError {
    /// A one-line description naming the offender.
    pub fn message(&self) -> (r: String)
        ensures
            r@ == self.spec_message(),
    {
        match self {
            VmError::UnsupportedCommand(s) => String::from_str(
                "unsupported command or segment: ",
            ).concat(s.as_str()),
            VmError::MissingTarget(s) => String::from_str("branch target never declared: ").concat(
                s.as_str(),
            ),
        }
    }

    /// The message text, in the mathematical world.
    pub open spec fn spec_message(&self) -> Seq<char> {
        match self {
            VmError::UnsupportedCommand(s) => "unsupported command or segment: "@ + s@,
            VmError::MissingTarget(s) => "branch target never declared: "@ + s@,
        }
    }
}

/// An executable result agrees with its mathematical counterpart:
/// equal payloads on success, equal errors on failure.
pub open spec fn asm_result_matches<T: DeepView>(
    r: Result<T, AsmError>,
    s: Result<T::V, AsmErrorModel>,
) -> bool {
    match (r, s) {
        (Ok(a), Ok(b)) => a.deep_view() == b,
        (Err(e), Err(f)) => e@ == f,
        _ => false,
    }
}

/// As `asm_result_matches`, for the translator's error set.
pub open spec fn vm_result_matches<T: DeepView>(
    r: Result<T, VmError>,
    s: Result<T::V, VmErrorModel>,
) -> bool {
    match (r, s) {
        (Ok(a), Ok(b)) => a.deep_view() == b,
        (Err(e), Err(f)) => e@ == f,
        _ => false,
    }
}

} // verus!
