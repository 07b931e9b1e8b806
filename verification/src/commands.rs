//! The checks on a command line that the argument parser cannot express: which
//! commands accept `--dry-run`, which settings `--unset` may name, and which lists of
//! submodule targets are acceptable.
use vstd::prelude::*;

use crate::text::{concat2, str_eq, trim, trim_seq};

verus! {

/// Optional settings that can be removed to restore inherited behavior.
#[derive(Clone, Copy, Debug, Eq, PartialEq, Structural)]
pub enum UnsetSetting {
    Branch,
    Ignore,
    Fetch,
    Update,
    Shallow,
    Active,
    UseGitDefaultSparseCheckout,
}

/// The command-line spelling of a setting.
pub open spec fn unset_name(s: UnsetSetting) -> Seq<char> {
    match s {
        UnsetSetting::Branch => "branch"@,
        UnsetSetting::Ignore => "ignore"@,
        UnsetSetting::Fetch => "fetch"@,
        UnsetSetting::Update => "update"@,
        UnsetSetting::Shallow => "shallow"@,
        UnsetSetting::Active => "active"@,
        UnsetSetting::UseGitDefaultSparseCheckout => "use-git-default-sparse-checkout"@,
    }
}

/// Whether a setting has a project-wide default that `change-global --unset` can remove.
pub open spec fn is_global_setting(s: UnsetSetting) -> bool {
    !(s is Shallow || s is Active)
}

impl UnsetSetting {
    /// The setting's command-line spelling.
    pub fn as_str(self) -> (r: &'static str)
        ensures
            r@ == unset_name(self),
    {
        match self {
            Self::Branch => "branch",
            Self::Ignore => "ignore",
            Self::Fetch => "fetch",
            Self::Update => "update",
            Self::Shallow => "shallow",
            Self::Active => "active",
            Self::UseGitDefaultSparseCheckout => "use-git-default-sparse-checkout",
        }
    }
}

/// What a command asks for, as far as the checks need to know.
pub enum Invocation {
    /// A command that changes nothing (check, list, completions).
    ReadOnly,
    /// A settings change: the settings to unset, and for each setting whether the command
    /// line also gives it a value; `global` for project-wide defaults.
    Settings { unset: Vec<UnsetSetting>, supplied: Vec<(UnsetSetting, bool)>, global: bool },
    /// A command on a list of named submodules.
    Targets { names: Vec<String> },
    /// Any other command.
    Other,
}

/// Why a command line is refused.
#[derive(Debug, Clone, PartialEq, Eq)]
pub enum CliProblem {
    /// `--dry-run` on a command that changes nothing.
    DryRunReadOnly,
    /// `change-global --unset` names a setting without a project-wide default.
    UnsupportedGlobalUnset,
    /// A blank submodule target.
    EmptyTarget,
    /// A submodule target given twice.
    DuplicateTarget(String),
    /// A setting given to `--unset` twice.
    DuplicateUnset(UnsetSetting),
    /// A setting both given a value and unset.
    SetAndUnset(UnsetSetting),
}

/// The model of a [`CliProblem`].
pub enum ProblemView {
    DryRunReadOnly,
    UnsupportedGlobalUnset,
    EmptyTarget,
    DuplicateTarget(Seq<char>),
    DuplicateUnset(UnsetSetting),
    SetAndUnset(UnsetSetting),
}

impl View for CliProblem {
    type V = ProblemView;

    open spec fn view(&self) -> ProblemView {
        match self {
            CliProblem::DryRunReadOnly => ProblemView::DryRunReadOnly,
            CliProblem::UnsupportedGlobalUnset => ProblemView::UnsupportedGlobalUnset,
            CliProblem::EmptyTarget => ProblemView::EmptyTarget,
            CliProblem::DuplicateTarget(s) => ProblemView::DuplicateTarget(s@),
            CliProblem::DuplicateUnset(u) => ProblemView::DuplicateUnset(*u),
            CliProblem::SetAndUnset(u) => ProblemView::SetAndUnset(*u),
        }
    }
}

/// Whether the setting `s` is given a value on the command line.
pub open spec fn is_supplied(supplied: Seq<(UnsetSetting, bool)>, s: UnsetSetting) -> bool {
    exists|j: int| 0 <= j < supplied.len() && supplied[j].0 == s && supplied[j].1
}

/// The problem with the `--unset` entry at `i`, if any: a repeat of an earlier entry,
/// or a setting that is also given a value.
pub open spec fn unset_problem_at(
    unset: Seq<UnsetSetting>,
    supplied: Seq<(UnsetSetting, bool)>,
    i: int,
) -> Option<ProblemView> {
    if unset.subrange(0, i).contains(unset[i]) {
        Some(ProblemView::DuplicateUnset(unset[i]))
    } else if is_supplied(supplied, unset[i]) {
        Some(ProblemView::SetAndUnset(unset[i]))
    } else {
        None
    }
}

/// The first problem among the `--unset` entries from `i` on.
pub open spec fn first_unset_problem(
    unset: Seq<UnsetSetting>,
    supplied: Seq<(UnsetSetting, bool)>,
    i: int,
) -> Option<ProblemView>
    decreases unset.len() - i,
{
    if i < 0 || i >= unset.len() {
        None
    } else {
        match unset_problem_at(unset, supplied, i) {
            Some(p) => Some(p),
            None => first_unset_problem(unset, supplied, i + 1),
        }
    }
}

/// The problem with the target at `i`, if any: a blank name, or a repeat of an
/// earlier one.
pub open spec fn target_problem_at(names: Seq<Seq<char>>, i: int) -> Option<ProblemView> {
    if trim_seq(names[i]).len() == 0 {
        Some(ProblemView::EmptyTarget)
    } else if names.subrange(0, i).contains(names[i]) {
        Some(ProblemView::DuplicateTarget(names[i]))
    } else {
        None
    }
}

/// The first problem among the targets from `i` on.
pub open spec fn first_target_problem(names: Seq<Seq<char>>, i: int) -> Option<ProblemView>
    decreases names.len() - i,
{
    if i < 0 || i >= names.len() {
        None
    } else {
        match target_problem_at(names, i) {
            Some(p) => Some(p),
            None => first_target_problem(names, i + 1),
        }
    }
}

/// The problem with a command line, if any.
pub open spec fn invocation_problem(dry_run: bool, inv: Invocation) -> Option<ProblemView> {
    match inv {
        Invocation::ReadOnly => if dry_run {
            Some(ProblemView::DryRunReadOnly)
        } else {
            None
        },
        Invocation::Settings { unset, supplied, global } => if global && exists|i: int|
            0 <= i < unset.len() && !is_global_setting(#[trigger] unset@[i]) {
            Some(ProblemView::UnsupportedGlobalUnset)
        } else {
            first_unset_problem(unset@, supplied@, 0)
        },
        Invocation::Targets { names } => first_target_problem(
            names@.map_values(|s: String| s@),
            0,
        ),
        Invocation::Other => None,
    }
}

/// Whether `s` occurs among the first `n` entries of `v`.
fn unset_occurs(v: &Vec<UnsetSetting>, n: usize, s: UnsetSetting) -> (r: bool)
    requires
        n <= v@.len(),
    ensures
        r == v@.subrange(0, n as int).contains(s),
{
    let mut i: usize = 0;
    while i < n
        invariant
            n <= v@.len(),
            i <= n,
            forall|j: int| 0 <= j < i ==> v@[j] != s,
        decreases n - i,
    {
        if v[i] == s {
            assert(v@.subrange(0, n as int)[i as int] == s);
            return true;
        }
        i = i + 1;
    }
    false
}

/// Whether the command line gives the setting `s` a value.
fn supplied_value(supplied: &Vec<(UnsetSetting, bool)>, s: UnsetSetting) -> (r: bool)
    ensures
        r == is_supplied(supplied@, s),
{
    let mut i: usize = 0;
    while i < supplied.len()
        invariant
            i <= supplied@.len(),
            forall|j: int| 0 <= j < i ==> !(supplied@[j].0 == s && supplied@[j].1),
        decreases supplied@.len() - i,
    {
        if supplied[i].0 == s && supplied[i].1 {
            return true;
        }
        i = i + 1;
    }
    false
}

/// Whether `name` occurs among the first `n` targets.
fn target_occurs(names: &Vec<String>, n: usize, name: &str) -> (r: bool)
    requires
        n <= names@.len(),
    ensures
        r == names@.map_values(|s: String| s@).subrange(0, n as int).contains(name@),
{
    let ghost views = names@.map_values(|s: String| s@);
    let mut i: usize = 0;
    while i < n
        invariant
            n <= names@.len(),
            views == names@.map_values(|s: String| s@),
            i <= n,
            forall|j: int| 0 <= j < i ==> views[j] != name@,
        decreases n - i,
    {
        if str_eq(names[i].as_str(), name) {
            assert(views.subrange(0, n as int)[i as int] == name@);
            return true;
        }
        i = i + 1;
    }
    proof {
        assert forall|j: int| 0 <= j < n implies views.subrange(0, n as int)[j] != name@ by {
            assert(views.subrange(0, n as int)[j] == views[j]);
        }
    }
    false
}

proof fn lemma_first_unset_skip(unset: Seq<UnsetSetting>, supplied: Seq<(UnsetSetting, bool)>, i: int)
    requires
        0 <= i < unset.len(),
        unset_problem_at(unset, supplied, i) is None,
    ensures
        first_unset_problem(unset, supplied, i) == first_unset_problem(unset, supplied, i + 1),
{
}

proof fn lemma_first_target_skip(names: Seq<Seq<char>>, i: int)
    requires
        0 <= i < names.len(),
        target_problem_at(names, i) is None,
    ensures
        first_target_problem(names, i) == first_target_problem(names, i + 1),
{
}

/// The problem with a settings change, if any.
fn check_settings(
    unset: &Vec<UnsetSetting>,
    supplied: &Vec<(UnsetSetting, bool)>,
    global: bool,
) -> (r: Result<(), CliProblem>)
    ensures
        match r {
            Ok(()) => invocation_problem(
                false,
                Invocation::Settings { unset: *unset, supplied: *supplied, global },
            ) is None,
            Err(p) => invocation_problem(
                false,
                Invocation::Settings { unset: *unset, supplied: *supplied, global },
            ) == Some(p@),
        },
{
    if global {
        let mut i: usize = 0;
        while i < unset.len()
            invariant
                global,
                i <= unset@.len(),
                forall|j: int| 0 <= j < i ==> is_global_setting(#[trigger] unset@[j]),
            decreases unset@.len() - i,
        {
            match unset[i] {
                UnsetSetting::Shallow | UnsetSetting::Active => {
                    assert(!is_global_setting(unset@[i as int]));
                    return Err(CliProblem::UnsupportedGlobalUnset);
                },
                _ => {},
            }
            i = i + 1;
        }
    }
    let mut i: usize = 0;
    while i < unset.len()
        invariant
            i <= unset@.len(),
            global ==> forall|j: int| 0 <= j < unset@.len() ==> is_global_setting(#[trigger] unset@[j]),
            first_unset_problem(unset@, supplied@, 0) == first_unset_problem(
                unset@,
                supplied@,
                i as int,
            ),
        decreases unset@.len() - i,
    {
        let s = unset[i];
        if unset_occurs(unset, i, s) {
            return Err(CliProblem::DuplicateUnset(s));
        }
        if supplied_value(supplied, s) {
            return Err(CliProblem::SetAndUnset(s));
        }
        proof {
            lemma_first_unset_skip(unset@, supplied@, i as int);
        }
        i = i + 1;
    }
    Ok(())
}

/// The problem with a list of targets, if any.
fn check_targets(names: &Vec<String>) -> (r: Result<(), CliProblem>)
    ensures
        match r {
            Ok(()) => first_target_problem(names@.map_values(|s: String| s@), 0) is None,
            Err(p) => first_target_problem(names@.map_values(|s: String| s@), 0) == Some(p@),
        },
{
    let ghost views = names@.map_values(|s: String| s@);
    let mut i: usize = 0;
    while i < names.len()
        invariant
            i <= names@.len(),
            views == names@.map_values(|s: String| s@),
            first_target_problem(views, 0) == first_target_problem(views, i as int),
        decreases names@.len() - i,
    {
        let name = names[i].as_str();
        proof {
            assert(views[i as int] == name@);
        }
        if trim(name).unicode_len() == 0 {
            return Err(CliProblem::EmptyTarget);
        }
        if target_occurs(names, i, name) {
            return Err(CliProblem::DuplicateTarget(names[i].clone()));
        }
        proof {
            lemma_first_target_skip(views, i as int);
        }
        i = i + 1;
    }
    Ok(())
}

/// Check a command line: `Ok` exactly when it has no problem, else the first problem
/// found, in the order the checks run.
pub fn validate_invocation(dry_run: bool, inv: &Invocation) -> (r: Result<(), CliProblem>)
    ensures
        match r {
            Ok(()) => invocation_problem(dry_run, *inv) is None,
            Err(p) => invocation_problem(dry_run, *inv) == Some(p@),
        },
{
    match inv {
        Invocation::ReadOnly => {
            if dry_run {
                Err(CliProblem::DryRunReadOnly)
            } else {
                Ok(())
            }
        },
        Invocation::Other => Ok(()),
        Invocation::Settings { unset, supplied, global } => check_settings(unset, supplied, *global),
        Invocation::Targets { names } => check_targets(names),
    }
}

impl CliProblem {
    /// Whether the problem is a conflict between arguments (rather than a bad value).
    pub fn is_conflict(&self) -> (r: bool)
        ensures
            r == (self is DryRunReadOnly || self is DuplicateTarget || self is DuplicateUnset
                || self is SetAndUnset),
    {
        match self {
            CliProblem::UnsupportedGlobalUnset | CliProblem::EmptyTarget => false,
            _ => true,
        }
    }

    /// The message that reports the problem.
    pub fn message(&self) -> (r: String)
        ensures
            r@ == match self@ {
                ProblemView::DryRunReadOnly => "--dry-run is only valid for mutating commands"@,
                ProblemView::UnsupportedGlobalUnset => "Unsupported global setting in --unset"@,
                ProblemView::EmptyTarget => "Submodule target cannot be empty"@,
                ProblemView::DuplicateTarget(n) => "Duplicate submodule target: "@ + n,
                ProblemView::DuplicateUnset(s) => "Duplicate --unset setting: "@ + unset_name(s),
                ProblemView::SetAndUnset(s) => "Cannot set and unset "@ + unset_name(s)
                    + " together"@,
            },
    {
        match self {
            CliProblem::DryRunReadOnly => String::from_str(
                "--dry-run is only valid for mutating commands",
            ),
            CliProblem::UnsupportedGlobalUnset => String::from_str(
                "Unsupported global setting in --unset",
            ),
            CliProblem::EmptyTarget => String::from_str("Submodule target cannot be empty"),
            CliProblem::DuplicateTarget(n) => concat2("Duplicate submodule target: ", n.as_str()),
            CliProblem::DuplicateUnset(s) => concat2("Duplicate --unset setting: ", s.as_str()),
            CliProblem::SetAndUnset(s) => {
                let head = concat2("Cannot set and unset ", s.as_str());
                concat2(head.as_str(), " together")
            },
        }
    }
}

} // verus!
