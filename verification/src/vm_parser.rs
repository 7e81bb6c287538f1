//! The stack-machine source parser: normalizes the lines of a command
//! file, classifies each into its typed record, and checks that every
//! branch names a label the file declares.

use vstd::prelude::*;
use vstd::string::StrSliceExecFns;
use crate::code_writer::BranchKind;
use crate::code_writer::VmCommand;
use crate::code_writer::VmCommandModel;
use crate::code_writer::categorize_commands;
use crate::code_writer::spec_categorize;
use crate::errors::VmError;
use crate::errors::VmErrorModel;
use crate::errors::vm_result_matches;
use crate::text::contains_str;
use crate::text::source_lines;
use crate::text::spec_source_lines;

verus! {

/// Classifying a sequence of normalized lines in order; the first
/// fatal line wins.
pub open spec fn spec_vm_parse_acc(lines: Seq<Seq<char>>, acc: Seq<VmCommandModel>) -> Result<
    Seq<VmCommandModel>,
    VmErrorModel,
>
    decreases lines.len(),
{
    if lines.len() == 0 {
        Ok(acc)
    } else {
        match spec_categorize(lines[0]) {
            Err(e) => Err(e),
            Ok(c) => spec_vm_parse_acc(lines.skip(1), acc + seq![c]),
        }
    }
}

/// What parsing a whole command file yields: its typed commands in
/// source order, or the first fatal condition.
pub open spec fn spec_vm_parse(src: Seq<char>) -> Result<Seq<VmCommandModel>, VmErrorModel> {
    spec_vm_parse_acc(spec_source_lines(src), Seq::empty())
}

/// Parses a command file: strips comments, drops blank lines, and
/// classifies every remaining line.
pub fn parse_lines(source: String) -> (r: Result<Vec<VmCommand>, VmError>)
    ensures
        vm_result_matches(r, spec_vm_parse(source@)),
{
    let lines = source_lines(source.as_str());
    let mut out: Vec<VmCommand> = Vec::new();
    let mut k: usize = 0;
    proof {
        assert(lines.deep_view().skip(0) =~= lines.deep_view());
        assert(out.deep_view() =~= Seq::<VmCommandModel>::empty());
    }
    while k < lines.len()
        invariant
            0 <= k <= lines.len(),
            lines.deep_view() == spec_source_lines(source@),
            spec_vm_parse(source@) == spec_vm_parse_acc(
                lines.deep_view().skip(k as int),
                out.deep_view(),
            ),
        decreases lines.len() - k,
    {
        let ghost rem = lines.deep_view().skip(k as int);
        proof {
            assert(rem[0] == lines.deep_view()[k as int]);
            assert(rem.skip(1) =~= lines.deep_view().skip(k + 1));
        }
        match categorize_commands(lines[k].as_str()) {
            Err(e) => {
                return Err(e);
            },
            Ok(cmd) => {
                let ghost pre = out.deep_view();
                out.push(cmd);
                proof {
                    assert(out.deep_view() =~= pre + seq![cmd@]);
                }
            },
        }
        k = k + 1;
    }
    proof {
        assert(lines.deep_view().skip(lines.len() as int) =~= Seq::<Seq<char>>::empty());
    }
    Ok(out)
}

/// The targets that `label` commands declare, in order.
pub open spec fn declared_labels(cmds: Seq<VmCommandModel>) -> Seq<Seq<char>>
    decreases cmds.len(),
{
    if cmds.len() == 0 {
        Seq::empty()
    } else {
        declared_labels(cmds.drop_last()) + (match cmds.last() {
            VmCommandModel::Branching { kind, target } => if kind == BranchKind::Label {
                seq![target]
            } else {
                Seq::empty()
            },
            _ => Seq::empty(),
        })
    }
}

/// Walking the commands in order against the set of declared targets;
/// the first `goto` or `if-goto` whose target is undeclared wins.
pub open spec fn spec_check_acc(cmds: Seq<VmCommandModel>, all: Seq<Seq<char>>) -> Result<
    (),
    VmErrorModel,
>
    decreases cmds.len(),
{
    if cmds.len() == 0 {
        Ok(())
    } else {
        match cmds[0] {
            VmCommandModel::Branching { kind, target } => if (kind == BranchKind::Goto || kind
                == BranchKind::IfGoto) && !all.contains(target) {
                Err(VmErrorModel::MissingTarget(target))
            } else {
                spec_check_acc(cmds.skip(1), all)
            },
            _ => spec_check_acc(cmds.skip(1), all),
        }
    }
}

/// Whether every branch in the file names a declared label, and which
/// branch fails first otherwise. A branch may jump forward: the whole
/// file's declarations count.
pub open spec fn spec_check_targets(cmds: Seq<VmCommandModel>) -> Result<(), VmErrorModel> {
    spec_check_acc(cmds, declared_labels(cmds))
}

/// Checks that every `goto` and `if-goto` names a label some `label`
/// command in the same file declares; a symbolic branch target must
/// never fall through to the assembler's variable allocation.
pub fn check_branch_targets(commands: &Vec<VmCommand>) -> (r: Result<(), VmError>)
    ensures
        match (r, spec_check_targets(commands.deep_view())) {
            (Ok(u), Ok(v)) => true,
            (Err(e), Err(f)) => e@ == f,
            _ => false,
        },
{
    let n = commands.len();
    let mut labels: Vec<String> = Vec::new();
    let mut i: usize = 0;
    proof {
        assert(commands.deep_view().take(0) =~= Seq::<VmCommandModel>::empty());
        assert(labels.deep_view() =~= Seq::<Seq<char>>::empty());
    }
    while i < n
        invariant
            0 <= i <= n,
            n == commands.len(),
            labels.deep_view() == declared_labels(commands.deep_view().take(i as int)),
        decreases n - i,
    {
        proof {
            assert(commands.deep_view().take(i + 1).drop_last() =~= commands.deep_view().take(
                i as int,
            ));
            assert(commands.deep_view().take(i + 1).last() == commands.deep_view()[i as int]);
            assert(commands[i as int]@ == commands.deep_view()[i as int]);
        }
        match &commands[i] {
            VmCommand::Branching { kind, target } => {
                if matches!(kind, BranchKind::Label) {
                    let ghost pre = labels.deep_view();
                    labels.push(target.clone());
                    proof {
                        assert(labels.deep_view() =~= pre + seq![target@]);
                    }
                }
            },
            _ => {},
        }
        i = i + 1;
    }
    proof {
        assert(commands.deep_view().take(n as int) =~= commands.deep_view());
    }
    let mut j: usize = 0;
    proof {
        assert(commands.deep_view().skip(0) =~= commands.deep_view());
    }
    while j < n
        invariant
            0 <= j <= n,
            n == commands.len(),
            labels.deep_view() == declared_labels(commands.deep_view()),
            spec_check_targets(commands.deep_view()) == spec_check_acc(
                commands.deep_view().skip(j as int),
                labels.deep_view(),
            ),
        decreases n - j,
    {
        let ghost rem = commands.deep_view().skip(j as int);
        proof {
            assert(rem[0] == commands.deep_view()[j as int]);
            assert(rem.skip(1) =~= commands.deep_view().skip(j + 1));
            assert(commands[j as int]@ == commands.deep_view()[j as int]);
        }
        match &commands[j] {
            VmCommand::Branching { kind, target } => {
                if matches!(kind, BranchKind::Goto) || matches!(kind, BranchKind::IfGoto) {
                    if !contains_str(&labels, target.as_str()) {
                        return Err(VmError::MissingTarget(target.clone()));
                    }
                }
            },
            _ => {},
        }
        j = j + 1;
    }
    proof {
        assert(commands.deep_view().skip(n as int) =~= Seq::<VmCommandModel>::empty());
    }
    Ok(())
}

} // verus!
