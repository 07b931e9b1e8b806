//! The read-only check of one submodule: from what was observed of its checkout, the
//! issues that make it drift from its declaration, the line that reports it, and the
//! verdict over all submodules.
use vstd::prelude::*;

use crate::config::{or_value, texts, EntryView, SubmoduleEntry};
use crate::errors::SubmoduleError;
use crate::options::SerializableUpdate;
use crate::plan::{decimal, join, join_texts, push_decimal};
use crate::sparse::{SparseStatus, SparseStatusView};
use crate::text::{debug_text, owned};

verus! {

/// Why a submodule's checkout is not expected to be materialized.
#[derive(Debug, Clone, Copy, PartialEq, Eq, Structural)]
pub enum SkipReason {
    /// The submodule is declared inactive.
    Disabled,
    /// The submodule's update policy is `none`.
    UpdateNone,
}

/// The word that names a skip reason.
pub open spec fn skip_word(r: SkipReason) -> Seq<char> {
    match r {
        SkipReason::Disabled => "disabled"@,
        SkipReason::UpdateNone => "update-none"@,
    }
}

impl SkipReason {
    /// The word that names this reason (`disabled` or `update-none`).
    pub fn as_str(&self) -> (r: &'static str)
        ensures
            r@ == skip_word(*self),
    {
        match self {
            SkipReason::Disabled => "disabled",
            SkipReason::UpdateNone => "update-none",
        }
    }
}

/// Why the checkout of a resolved entry is skipped: it is inactive, or its update policy
/// is `none`; otherwise it is not skipped.
pub open spec fn skip_reason_of(e: EntryView) -> Option<SkipReason> {
    if !or_value(e.active, true) {
        Some(SkipReason::Disabled)
    } else if e.update == Some(SerializableUpdate::Nothing) {
        Some(SkipReason::UpdateNone)
    } else {
        None
    }
}

/// Why the checkout of `effective` is skipped (see [`skip_reason_of`]).
pub fn skip_reason(effective: &SubmoduleEntry) -> (r: Option<SkipReason>)
    ensures
        r == skip_reason_of(effective@),
{
    let active = match effective.active {
        Some(a) => a,
        None => true,
    };
    if !active {
        Some(SkipReason::Disabled)
    } else if matches!(effective.update, Some(SerializableUpdate::Nothing)) {
        Some(SkipReason::UpdateNone)
    } else {
        None
    }
}

/// What was observed of a submodule's checkout. A fact that the check does not ask in
/// the situation at hand is ignored.
#[derive(Debug, Clone)]
pub struct CheckFacts {
    /// Whether the checkout directory exists.
    pub path_exists: bool,
    /// Whether the checkout has a `.git` entry.
    pub git_exists: bool,
    /// Whether the checkout directory is empty (asked when it exists without `.git`).
    pub checkout_empty: bool,
    /// Whether `.gitmodules` registers the path.
    pub registered: bool,
    /// Whether the superproject's index records a commit for the path.
    pub pinned: bool,
    /// Whether the managed git metadata matches the declaration.
    pub metadata_matches: bool,
    /// Whether the checkout satisfies its update strategy for the recorded commit (asked
    /// when it is pinned and not skipped).
    pub update_matches: bool,
    /// Whether the working tree is clean.
    pub clean: bool,
    /// The sparse state against the expected patterns.
    pub sparse: SparseStatus,
}

/// The model of [`CheckFacts`].
pub struct CheckFactsView {
    pub path_exists: bool,
    pub git_exists: bool,
    pub checkout_empty: bool,
    pub registered: bool,
    pub pinned: bool,
    pub metadata_matches: bool,
    pub update_matches: bool,
    pub clean: bool,
    pub sparse: SparseStatusView,
}

impl View for CheckFacts {
    type V = CheckFactsView;

    open spec fn view(&self) -> CheckFactsView {
        CheckFactsView {
            path_exists: self.path_exists,
            git_exists: self.git_exists,
            checkout_empty: self.checkout_empty,
            registered: self.registered,
            pinned: self.pinned,
            metadata_matches: self.metadata_matches,
            update_matches: self.update_matches,
            clean: self.clean,
            sparse: self.sparse@,
        }
    }
}

/// The outcome of checking one submodule.
#[derive(Debug, Clone, PartialEq, Eq)]
pub enum CheckOutcome {
    /// Skipped, and its checkout is not materialized.
    NotMaterialized(SkipReason),
    /// Skipped, with nothing found that differs.
    SkippedMatching(SkipReason),
    /// Nothing found that differs.
    Unchanged,
    /// The descriptions of what differs, in the order they were found.
    Drift(Vec<String>),
}

/// The model of [`CheckOutcome`].
pub enum CheckOutcomeView {
    NotMaterialized(SkipReason),
    SkippedMatching(SkipReason),
    Unchanged,
    Drift(Seq<Seq<char>>),
}

impl View for CheckOutcome {
    type V = CheckOutcomeView;

    open spec fn view(&self) -> CheckOutcomeView {
        match self {
            CheckOutcome::NotMaterialized(r) => CheckOutcomeView::NotMaterialized(*r),
            CheckOutcome::SkippedMatching(r) => CheckOutcomeView::SkippedMatching(*r),
            CheckOutcome::Unchanged => CheckOutcomeView::Unchanged,
            CheckOutcome::Drift(v) => CheckOutcomeView::Drift(texts(v@)),
        }
    }
}

/// The `Debug` rendering of a list of strings: `[`, the items' `Debug` renderings (see
/// [`debug_text`]) separated by `, `, and `]`.
pub open spec fn debug_list_text(items: Seq<Seq<char>>) -> Seq<char> {
    "["@ + crate::plan::join(items.map_values(|s: Seq<char>| debug_text(s)), ", "@) + "]"@
}

/// The `Debug` rendering of a list of strings, made by std's `format!("{:?}")` on a
/// `Vec<String>`. Claims what std's `Debug` for slices does: the items' own `Debug`
/// renderings (named [`debug_text`]) in brackets, separated by `, `.
#[verifier::external_body]
pub(crate) fn debug_list(items: &Vec<String>) -> (r: String)
    ensures
        r@ == debug_list_text(texts(items@)),
{
    format!("{items:?}")
}

/// The description of a sparse state that differs from the expected one, if it does.
pub open spec fn sparse_issue(s: SparseStatusView) -> Option<Seq<char>> {
    match s {
        SparseStatusView::NotConfigured => Some("sparse checkout is not configured"@),
        SparseStatusView::Mismatch { expected, actual } => Some(
            "sparse patterns differ (expected "@ + debug_list_text(expected) + ", current "@
                + debug_list_text(actual) + ")"@,
        ),
        _ => None,
    }
}

/// `s` with `t` appended when `c` holds.
pub open spec fn push_when(s: Seq<Seq<char>>, c: bool, t: Seq<char>) -> Seq<Seq<char>> {
    if c {
        s.push(t)
    } else {
        s
    }
}

/// What differs in a materialized checkout with a `.git` entry, in this order: a missing
/// registration, a missing recorded commit, differing managed metadata, an unsatisfied
/// update strategy (judged only when the commit is recorded and the module is not
/// skipped), a dirty working tree, and the sparse state.
pub open spec fn repository_issues(f: CheckFactsView, skipped: bool) -> Seq<Seq<char>> {
    let a = push_when(Seq::empty(), !f.registered, "portable Git registration is missing"@);
    let b = push_when(a, !f.pinned, "parent index gitlink is missing"@);
    let c = push_when(b, !f.metadata_matches, "managed Git metadata differs"@);
    let d = push_when(
        c,
        f.pinned && !skipped && !f.update_matches,
        "checkout does not satisfy its parent-pin strategy"@,
    );
    let e = push_when(d, !f.clean, "working tree has changes"@);
    match sparse_issue(f.sparse) {
        Some(t) => e.push(t),
        None => e,
    }
}

/// The outcome of checking a submodule with resolved entry `e`: a skipped module whose
/// checkout is missing, or exists empty without `.git`, is not materialized; otherwise
/// the issues are a missing checkout, a checkout that is no repository, or what
/// [`repository_issues`] finds, and no issue means unchanged (or skipped and matching).
pub open spec fn check_outcome(e: EntryView, f: CheckFactsView) -> CheckOutcomeView {
    let skip = skip_reason_of(e);
    let issues: Seq<Seq<char>> = if !f.path_exists {
        seq!["checkout is missing"@]
    } else if !f.git_exists {
        seq!["checkout is not a Git repository"@]
    } else {
        repository_issues(f, skip is Some)
    };
    if skip is Some && (!f.path_exists || (!f.git_exists && f.checkout_empty)) {
        CheckOutcomeView::NotMaterialized(skip->0)
    } else if issues.len() == 0 {
        match skip {
            Some(r) => CheckOutcomeView::SkippedMatching(r),
            None => CheckOutcomeView::Unchanged,
        }
    } else {
        CheckOutcomeView::Drift(issues)
    }
}

fn push_text(v: &mut Vec<String>, t: &str)
    ensures
        texts(final(v)@) == texts(old(v)@).push(t@),
{
    let ghost before = v@;
    v.push(owned(t));
    proof {
        assert(texts(v@) =~= texts(before).push(t@));
    }
}

fn append(a: &mut String, b: &str)
    ensures
        final(a)@ == old(a)@ + b@,
{
    a.append(b);
}

/// What differs in a checkout that exists with a `.git` entry (see [`repository_issues`]).
fn repository_issue_list(facts: &CheckFacts, skipped: bool) -> (r: Vec<String>)
    ensures
        texts(r@) == repository_issues(facts@, skipped),
{
    let mut issues: Vec<String> = Vec::new();
    proof {
        assert(texts(issues@) =~= Seq::<Seq<char>>::empty());
    }
    if !facts.registered {
        push_text(&mut issues, "portable Git registration is missing");
    }
    if !facts.pinned {
        push_text(&mut issues, "parent index gitlink is missing");
    }
    if !facts.metadata_matches {
        push_text(&mut issues, "managed Git metadata differs");
    }
    if facts.pinned && !skipped && !facts.update_matches {
        push_text(&mut issues, "checkout does not satisfy its parent-pin strategy");
    }
    if !facts.clean {
        push_text(&mut issues, "working tree has changes");
    }
    match &facts.sparse {
        SparseStatus::NotConfigured => {
            push_text(&mut issues, "sparse checkout is not configured");
        },
        SparseStatus::Mismatch { expected, actual } => {
            let mut t = owned("sparse patterns differ (expected ");
            let e = debug_list(expected);
            append(&mut t, e.as_str());
            append(&mut t, ", current ");
            let a = debug_list(actual);
            append(&mut t, a.as_str());
            append(&mut t, ")");
            push_text(&mut issues, t.as_str());
        },
        _ => {},
    }
    issues
}

/// Check one submodule whose resolved entry is `effective` against what was observed of
/// its checkout (see [`check_outcome`]).
pub fn check_module(effective: &SubmoduleEntry, facts: &CheckFacts) -> (r: CheckOutcome)
    ensures
        r@ == check_outcome(effective@, facts@),
{
    let skip = skip_reason(effective);
    let absent = !facts.path_exists || (!facts.git_exists && facts.checkout_empty);
    if let Some(reason) = skip {
        if absent {
            return CheckOutcome::NotMaterialized(reason);
        }
    }
    let issues: Vec<String> = if !facts.path_exists {
        let mut v: Vec<String> = Vec::new();
        proof {
            assert(texts(v@) =~= Seq::<Seq<char>>::empty());
        }
        push_text(&mut v, "checkout is missing");
        proof {
            assert(texts(v@) =~= seq!["checkout is missing"@]);
        }
        v
    } else if !facts.git_exists {
        let mut v: Vec<String> = Vec::new();
        proof {
            assert(texts(v@) =~= Seq::<Seq<char>>::empty());
        }
        push_text(&mut v, "checkout is not a Git repository");
        proof {
            assert(texts(v@) =~= seq!["checkout is not a Git repository"@]);
        }
        v
    } else {
        repository_issue_list(facts, skip.is_some())
    };
    proof {
        assert(texts(issues@).len() == issues@.len());
    }
    if issues.len() == 0 {
        match skip {
            Some(r) => CheckOutcome::SkippedMatching(r),
            None => CheckOutcome::Unchanged,
        }
    } else {
        CheckOutcome::Drift(issues)
    }
}

/// The line that reports the check of submodule `name` at `path`.
pub open spec fn check_line_text(name: Seq<char>, path: Seq<char>, o: CheckOutcomeView) -> Seq<
    char,
> {
    match o {
        CheckOutcomeView::NotMaterialized(r) => name + ": skipped-"@ + skip_word(r) + " at "@
            + path + " (not materialized)"@,
        CheckOutcomeView::SkippedMatching(r) => name + ": skipped-"@ + skip_word(r)
            + " (inspectable metadata matches)"@,
        CheckOutcomeView::Unchanged => name + ": unchanged (matches configured state)"@,
        CheckOutcomeView::Drift(issues) => name + ": drift: "@ + join(issues, "; "@),
    }
}

/// The line that reports the check of submodule `name` at `path` (see
/// [`check_line_text`]).
pub fn check_line(name: &str, path: &str, outcome: &CheckOutcome) -> (r: String)
    ensures
        r@ == check_line_text(name@, path@, outcome@),
{
    let mut line = owned(name);
    match outcome {
        CheckOutcome::NotMaterialized(reason) => {
            append(&mut line, ": skipped-");
            append(&mut line, reason.as_str());
            append(&mut line, " at ");
            append(&mut line, path);
            append(&mut line, " (not materialized)");
        },
        CheckOutcome::SkippedMatching(reason) => {
            append(&mut line, ": skipped-");
            append(&mut line, reason.as_str());
            append(&mut line, " (inspectable metadata matches)");
        },
        CheckOutcome::Unchanged => {
            append(&mut line, ": unchanged (matches configured state)");
        },
        CheckOutcome::Drift(issues) => {
            append(&mut line, ": drift: ");
            let joined = join_texts(issues, "; ");
            append(&mut line, joined.as_str());
        },
    }
    line
}

/// The verdict over all checked submodules, given the names of those that drifted: none
/// is success; otherwise a drift error that counts and names them.
pub open spec fn drift_message(drifted: Seq<Seq<char>>) -> Seq<char> {
    decimal(drifted.len()) + " managed submodule(s) have drift: "@ + join(drifted, ", "@)
}

/// The verdict over all checked submodules: `Ok` when no name is in `drifted`, else a
/// [`SubmoduleError::Drift`] whose message is [`drift_message`].
pub fn check_verdict(drifted: &Vec<String>) -> (r: Result<(), SubmoduleError>)
    ensures
        drifted@.len() == 0 <==> r is Ok,
        r matches Err(e) ==> (e matches SubmoduleError::Drift(m) && m@ == drift_message(
            texts(drifted@),
        )),
{
    if drifted.len() == 0 {
        Ok(())
    } else {
        let mut m = String::new();
        push_decimal(&mut m, drifted.len());
        append(&mut m, " managed submodule(s) have drift: ");
        let names = join_texts(drifted, ", ");
        append(&mut m, names.as_str());
        proof {
            assert(texts(drifted@).len() == drifted@.len());
            assert(m@ =~= drift_message(texts(drifted@)));
        }
        Err(SubmoduleError::Drift(m))
    }
}

/// A materialized checkout (it exists, with `.git`) whose sparse checkout is off while
/// patterns are declared has drifted, and the drift says so; and a checkout found
/// unchanged (or skipped and matching) has no sparse difference: its sparse checkout is
/// not in play or holds exactly the declared patterns.
pub proof fn lemma_sparse_state_is_checked(e: EntryView, f: CheckFactsView)
    ensures
        f.path_exists && f.git_exists && f.sparse == SparseStatusView::NotConfigured ==> (check_outcome(e, f) matches CheckOutcomeView::Drift(issues)
            && issues.contains("sparse checkout is not configured"@)),
        (check_outcome(e, f) is Unchanged || check_outcome(e, f) is SkippedMatching) ==> (f.sparse
            is NotEnabled || f.sparse is Correct),
        (check_outcome(e, f) is Unchanged || check_outcome(e, f) is SkippedMatching) ==> f.path_exists
            && f.git_exists && f.registered && f.pinned && f.metadata_matches && f.clean,
{
    if f.path_exists && f.git_exists {
        let skip = skip_reason_of(e);
        let is = repository_issues(f, skip is Some);
        if f.sparse == SparseStatusView::NotConfigured {
            assert(is.last() == "sparse checkout is not configured"@);
            assert(is.contains(is[is.len() - 1]));
        }
    }
}

/// What a checkout that exists with `.git` is found to differ in: each fact that
/// differs from the declaration is reported, and nothing is reported when every fact
/// matches.
pub proof fn lemma_each_difference_is_reported(f: CheckFactsView, skipped: bool)
    ensures
        ({
            let is = repository_issues(f, skipped);
            &&& !f.registered ==> is.contains("portable Git registration is missing"@)
            &&& !f.pinned ==> is.contains("parent index gitlink is missing"@)
            &&& !f.metadata_matches ==> is.contains("managed Git metadata differs"@)
            &&& f.pinned && !skipped && !f.update_matches ==> is.contains(
                "checkout does not satisfy its parent-pin strategy"@,
            )
            &&& !f.clean ==> is.contains("working tree has changes"@)
            &&& f.sparse is NotConfigured ==> is.contains("sparse checkout is not configured"@)
            &&& f.sparse is Mismatch ==> is.len() > 0
            &&& is.len() == 0 <==> (f.registered && f.pinned && f.metadata_matches && (f.pinned
                && !skipped ==> f.update_matches) && f.clean && (f.sparse is NotEnabled
                || f.sparse is Correct))
        }),
{
    let a = push_when(Seq::empty(), !f.registered, "portable Git registration is missing"@);
    let b = push_when(a, !f.pinned, "parent index gitlink is missing"@);
    let c = push_when(b, !f.metadata_matches, "managed Git metadata differs"@);
    let d = push_when(
        c,
        f.pinned && !skipped && !f.update_matches,
        "checkout does not satisfy its parent-pin strategy"@,
    );
    let e = push_when(d, !f.clean, "working tree has changes"@);
    let is = repository_issues(f, skipped);
    assert forall|x: Seq<char>| #[trigger] a.contains(x) implies is.contains(x) by {
        lemma_push_when_keeps(a, !f.pinned, "parent index gitlink is missing"@, x);
        lemma_push_when_keeps(b, !f.metadata_matches, "managed Git metadata differs"@, x);
        lemma_push_when_keeps(c, f.pinned && !skipped && !f.update_matches, "checkout does not satisfy its parent-pin strategy"@, x);
        lemma_push_when_keeps(d, !f.clean, "working tree has changes"@, x);
        lemma_issue_keeps(e, f.sparse, x);
    }
    assert forall|x: Seq<char>| #[trigger] b.contains(x) implies is.contains(x) by {
        lemma_push_when_keeps(b, !f.metadata_matches, "managed Git metadata differs"@, x);
        lemma_push_when_keeps(c, f.pinned && !skipped && !f.update_matches, "checkout does not satisfy its parent-pin strategy"@, x);
        lemma_push_when_keeps(d, !f.clean, "working tree has changes"@, x);
        lemma_issue_keeps(e, f.sparse, x);
    }
    assert forall|x: Seq<char>| #[trigger] c.contains(x) implies is.contains(x) by {
        lemma_push_when_keeps(c, f.pinned && !skipped && !f.update_matches, "checkout does not satisfy its parent-pin strategy"@, x);
        lemma_push_when_keeps(d, !f.clean, "working tree has changes"@, x);
        lemma_issue_keeps(e, f.sparse, x);
    }
    assert forall|x: Seq<char>| #[trigger] d.contains(x) implies is.contains(x) by {
        lemma_push_when_keeps(d, !f.clean, "working tree has changes"@, x);
        lemma_issue_keeps(e, f.sparse, x);
    }
    assert forall|x: Seq<char>| #[trigger] e.contains(x) implies is.contains(x) by {
        lemma_issue_keeps(e, f.sparse, x);
    }
    lemma_push_when_adds(Seq::empty(), !f.registered, "portable Git registration is missing"@);
    lemma_push_when_adds(a, !f.pinned, "parent index gitlink is missing"@);
    lemma_push_when_adds(b, !f.metadata_matches, "managed Git metadata differs"@);
    lemma_push_when_adds(c, f.pinned && !skipped && !f.update_matches, "checkout does not satisfy its parent-pin strategy"@);
    lemma_push_when_adds(d, !f.clean, "working tree has changes"@);
    if f.sparse is NotConfigured {
        assert(is == e.push("sparse checkout is not configured"@));
        assert(is[is.len() - 1] == "sparse checkout is not configured"@);
    }
}

/// A pushed element is there after the push.
proof fn lemma_push_when_adds(s: Seq<Seq<char>>, c: bool, t: Seq<char>)
    ensures
        c ==> push_when(s, c, t).contains(t),
        push_when(s, c, t).len() >= s.len(),
        push_when(s, c, t).len() == 0 ==> !c && s.len() == 0,
{
    if c {
        assert(push_when(s, c, t)[s.len() as int] == t);
    }
}

/// An element stays after a push.
proof fn lemma_push_when_keeps(s: Seq<Seq<char>>, c: bool, t: Seq<char>, x: Seq<char>)
    ensures
        s.contains(x) ==> push_when(s, c, t).contains(x),
{
    if s.contains(x) && c {
        let i = choose|i: int| 0 <= i < s.len() && s[i] == x;
        assert(push_when(s, c, t)[i] == x);
    }
}

/// An element stays after the sparse issue is added.
proof fn lemma_issue_keeps(s: Seq<Seq<char>>, sp: SparseStatusView, x: Seq<char>)
    ensures
        s.contains(x) ==> (match sparse_issue(sp) {
            Some(t) => s.push(t),
            None => s,
        }).contains(x),
{
    if s.contains(x) {
        if let Some(t) = sparse_issue(sp) {
            let i = choose|i: int| 0 <= i < s.len() && s[i] == x;
            assert(s.push(t)[i] == x);
        }
    }
}

/// The outcome of a check: a skipped module whose checkout is missing (or exists empty
/// without `.git`) is not materialized; a module that is not skipped and has no checkout
/// drifts with "checkout is missing"; a checkout without `.git` that is not an empty
/// skipped one drifts with "checkout is not a Git repository"; otherwise the module is
/// unchanged (or skipped and matching) exactly when no difference is found.
pub proof fn lemma_check_outcome_cases(e: EntryView, f: CheckFactsView)
    ensures
        ({
            let o = check_outcome(e, f);
            let skip = skip_reason_of(e);
            &&& skip is Some && !f.path_exists ==> o == CheckOutcomeView::NotMaterialized(skip->0)
            &&& skip is None && !f.path_exists ==> o == CheckOutcomeView::Drift(seq!["checkout is missing"@])
            &&& f.path_exists && !f.git_exists && !(skip is Some && f.checkout_empty) ==> o
                == CheckOutcomeView::Drift(seq!["checkout is not a Git repository"@])
            &&& f.path_exists && f.git_exists ==> (o is Unchanged <==> skip is None && repository_issues(f, false).len() == 0)
            &&& f.path_exists && f.git_exists ==> (o is SkippedMatching <==> skip is Some && repository_issues(f, true).len() == 0)
            &&& o is Unchanged ==> skip is None
            &&& skip is Some ==> !(o is Unchanged)
        }),
{
}

/// The report line of a check names the submodule and what was found: a drift lists its
/// differences separated by `; `, a single one as it is.
pub proof fn lemma_check_line_reports(name: Seq<char>, path: Seq<char>, issue: Seq<char>)
    ensures
        check_line_text(name, path, CheckOutcomeView::Drift(seq![issue])) == name + ": drift: "@ + issue,
        check_line_text(name, path, CheckOutcomeView::Unchanged) == name + ": unchanged (matches configured state)"@,
{
}

} // verus!
