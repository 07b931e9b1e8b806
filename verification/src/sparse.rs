//! Sparse-checkout policy: the ordered pattern list a submodule should have, and how
//! the configured list is judged against it.
use vstd::prelude::*;

use crate::config::{texts, SubmoduleEntry};
use crate::text::{owned, str_eq, trim, trim_seq};

verus! {

/// The pattern that, written first, excludes every path so that only the listed
/// include patterns are checked out.
pub open spec fn deny_all() -> Seq<char> {
    "!/*"@
}

/// Whether a pattern is kept as an include pattern: it is not blank and not the
/// deny-all pattern (both judged after trimming).
pub open spec fn keeps_pattern(p: Seq<char>) -> bool {
    trim_seq(p).len() > 0 && trim_seq(p) != deny_all()
}

/// The include patterns of a list, in order.
pub open spec fn include_patterns(ps: Seq<Seq<char>>) -> Seq<Seq<char>> {
    ps.filter(|p: Seq<char>| keeps_pattern(p))
}

/// The deny-all-by-default pattern list: the deny-all pattern followed by the include
/// patterns, or nothing when there is no include pattern.
pub open spec fn deny_all_patterns(ps: Seq<Seq<char>>) -> Seq<Seq<char>> {
    let inc = include_patterns(ps);
    if inc.len() == 0 {
        Seq::empty()
    } else {
        seq![deny_all()] + inc
    }
}

/// The patterns a submodule's checkout should have: its own patterns when it uses
/// git's default sparse-checkout behavior, else the deny-all-by-default list.
pub open spec fn expected_patterns(use_git_default: bool, sparse: Option<Seq<Seq<char>>>) -> Seq<
    Seq<char>,
> {
    let ps = match sparse {
        Some(p) => p,
        None => Seq::empty(),
    };
    if use_git_default {
        ps
    } else {
        deny_all_patterns(ps)
    }
}

/// Sparse checkout status of a submodule.
#[derive(Debug, Clone, PartialEq, Eq)]
pub enum SparseStatus {
    /// Sparse checkout is not enabled for this submodule
    NotEnabled,
    /// Sparse checkout is enabled but not configured
    NotConfigured,
    /// Sparse checkout configuration matches expected paths
    Correct,
    /// Sparse checkout configuration doesn't match expected paths
    Mismatch {
        /// Expected sparse checkout paths
        expected: Vec<String>,
        /// Actual sparse checkout paths
        actual: Vec<String>,
    },
}

/// The status of a checkout's sparse configuration against the expected patterns: not
/// enabled (and none expected), enabled without configuration, correct when it is in
/// non-cone mode with exactly the expected patterns in order, and a mismatch otherwise.
pub open spec fn sparse_status_of(
    expected: Seq<Seq<char>>,
    enabled: bool,
    cone: bool,
    configured: Seq<Seq<char>>,
) -> SparseStatusView {
    if expected.len() == 0 && !enabled {
        SparseStatusView::NotEnabled
    } else if !enabled {
        SparseStatusView::NotConfigured
    } else if !cone && expected == configured {
        SparseStatusView::Correct
    } else {
        SparseStatusView::Mismatch { expected, actual: configured }
    }
}

/// The model of a [`SparseStatus`].
pub enum SparseStatusView {
    NotEnabled,
    NotConfigured,
    Correct,
    Mismatch { expected: Seq<Seq<char>>, actual: Seq<Seq<char>> },
}

impl View for SparseStatus {
    type V = SparseStatusView;

    open spec fn view(&self) -> SparseStatusView {
        match self {
            SparseStatus::NotEnabled => SparseStatusView::NotEnabled,
            SparseStatus::NotConfigured => SparseStatusView::NotConfigured,
            SparseStatus::Correct => SparseStatusView::Correct,
            SparseStatus::Mismatch { expected, actual } => SparseStatusView::Mismatch {
                expected: texts(expected@),
                actual: texts(actual@),
            },
        }
    }
}

impl SparseStatus {
    /// Whether the checkout needs its sparse policy reconciled: anything but "not
    /// enabled" and "correct".
    pub fn needs_change(&self) -> (r: bool)
        ensures
            r == !(self is NotEnabled || self is Correct),
    {
        match self {
            SparseStatus::NotEnabled | SparseStatus::Correct => false,
            _ => true,
        }
    }
}

/// Whether two pattern lists are equal.
fn same_patterns(a: &[String], b: &Vec<String>) -> (r: bool)
    ensures
        r == (texts(a@) == texts(b@)),
{
    if a.len() != b.len() {
        proof {
            assert(texts(a@).len() != texts(b@).len());
        }
        return false;
    }
    let mut i: usize = 0;
    while i < a.len()
        invariant
            a@.len() == b@.len(),
            i <= a@.len(),
            forall|j: int| 0 <= j < i ==> a@[j]@ == b@[j]@,
        decreases a@.len() - i,
    {
        if !str_eq(a[i].as_str(), b[i].as_str()) {
            proof {
                assert(texts(a@)[i as int] != texts(b@)[i as int]);
            }
            return false;
        }
        i = i + 1;
    }
    proof {
        assert(texts(a@) =~= texts(b@));
    }
    true
}

/// A copy of a slice of strings.
fn copy_slice(v: &[String]) -> (r: Vec<String>)
    ensures
        r@ == v@,
{
    let mut r: Vec<String> = Vec::new();
    let mut i: usize = 0;
    while i < v.len()
        invariant
            i <= v@.len(),
            r@ == v@.subrange(0, i as int),
        decreases v@.len() - i,
    {
        r.push(v[i].clone());
        proof {
            assert(r@ =~= v@.subrange(0, i + 1));
        }
        i = i + 1;
    }
    proof {
        assert(v@.subrange(0, v@.len() as int) =~= v@);
    }
    r
}

/// Judge a checkout's sparse state (whether sparse checkout is enabled, whether it is in
/// cone mode, and the configured patterns) against the expected patterns.
pub fn sparse_status(
    expected: &[String],
    enabled: bool,
    cone: bool,
    configured: Vec<String>,
) -> (r: SparseStatus)
    ensures
        r@ == sparse_status_of(texts(expected@), enabled, cone, texts(configured@)),
{
    if expected.len() == 0 && !enabled {
        SparseStatus::NotEnabled
    } else if !enabled {
        SparseStatus::NotConfigured
    } else if !cone && same_patterns(expected, &configured) {
        SparseStatus::Correct
    } else {
        SparseStatus::Mismatch { expected: copy_slice(expected), actual: configured }
    }
}

/// Whether a checkout's sparse state already is the expected one: no patterns expected
/// means sparse checkout is off; otherwise it is on, in non-cone mode, with exactly the
/// expected patterns in order.
pub open spec fn sparse_matches_spec(
    expected: Seq<Seq<char>>,
    enabled: bool,
    cone: bool,
    actual: Seq<Seq<char>>,
) -> bool {
    if expected.len() == 0 {
        !enabled
    } else {
        enabled && !cone && actual == expected
    }
}

/// Whether a checkout's sparse state already is the expected one (see
/// [`sparse_matches_spec`]).
pub fn sparse_checkout_matches(expected: &[String], enabled: bool, cone: bool, actual: &Vec<String>) -> (r: bool)
    ensures
        r == sparse_matches_spec(texts(expected@), enabled, cone, texts(actual@)),
{
    if expected.len() == 0 {
        !enabled
    } else {
        enabled && !cone && same_patterns(expected, actual)
    }
}

/// Whether a pattern holds a NUL, a line break or a carriage return, which would break
/// the records git reads patterns from.
pub open spec fn breaks_records(p: Seq<char>) -> bool {
    crate::text::has_char(p, '\0') || crate::text::has_char(p, '\n') || crate::text::has_char(p, '\r')
}

/// Whether some pattern breaks the records git reads patterns from (see
/// [`breaks_records`]).
pub fn any_pattern_breaks_records(patterns: &[String]) -> (r: bool)
    ensures
        r == exists|i: int| 0 <= i < patterns@.len() && breaks_records(#[trigger] patterns@[i]@),
{
    let mut i: usize = 0;
    while i < patterns.len()
        invariant
            i <= patterns@.len(),
            forall|j: int| 0 <= j < i ==> !breaks_records(#[trigger] patterns@[j]@),
        decreases patterns@.len() - i,
    {
        let p = patterns[i].as_str();
        if crate::text::contains_char(p, '\0') || crate::text::contains_char(p, '\n')
            || crate::text::contains_char(p, '\r') {
            return true;
        }
        i = i + 1;
    }
    false
}

/// Whether a pattern is kept as an include pattern.
fn keeps(p: &str) -> (r: bool)
    ensures
        r == keeps_pattern(p@),
{
    let t = trim(p);
    t.unicode_len() > 0 && !str_eq(t, "!/*")
}

/// The deny-all-by-default pattern list for `patterns`: blank entries and copies of the
/// deny-all pattern are dropped, and the deny-all pattern is put first, unless no
/// include pattern is left (then the list is empty).
pub fn build_deny_all_sparse_patterns(patterns: &[String]) -> (r: Vec<String>)
    ensures
        texts(r@) == deny_all_patterns(texts(patterns@)),
{
    let ghost pred = |p: Seq<char>| keeps_pattern(p);
    let mut includes: Vec<String> = Vec::new();
    let mut i: usize = 0;
    assert(texts(patterns@.subrange(0, 0)) =~= Seq::<Seq<char>>::empty());
    while i < patterns.len()
        invariant
            i <= patterns@.len(),
            pred == (|p: Seq<char>| keeps_pattern(p)),
            texts(includes@) == texts(patterns@.subrange(0, i as int)).filter(pred),
        decreases patterns@.len() - i,
    {
        proof {
            assert(texts(patterns@.subrange(0, i + 1)) =~= texts(
                patterns@.subrange(0, i as int),
            ).push(patterns@[i as int]@));
            texts(patterns@.subrange(0, i as int)).lemma_filter_push(patterns@[i as int]@, pred);
        }
        if keeps(patterns[i].as_str()) {
            let ghost before = includes@;
            includes.push(patterns[i].clone());
            proof {
                assert(texts(includes@) =~= texts(before).push(patterns@[i as int]@));
            }
        }
        i = i + 1;
    }
    proof {
        assert(patterns@.subrange(0, patterns@.len() as int) =~= patterns@);
    }
    if includes.len() == 0 {
        let r: Vec<String> = Vec::new();
        proof {
            assert(texts(r@) =~= Seq::<Seq<char>>::empty());
        }
        r
    } else {
        let mut result: Vec<String> = Vec::new();
        result.push(owned("!/*"));
        let mut j: usize = 0;
        while j < includes.len()
            invariant
                j <= includes@.len(),
                result@.len() == j + 1,
                result@[0]@ == deny_all(),
                forall|k: int| 0 <= k < j ==> result@[k + 1] == includes@[k],
            decreases includes@.len() - j,
        {
            result.push(includes[j].clone());
            j = j + 1;
        }
        proof {
            assert(texts(result@) =~= seq![deny_all()] + texts(includes@));
        }
        result
    }
}

/// The patterns a resolved entry's checkout should have (see [`expected_patterns`]).
pub fn expected_sparse_patterns(effective: &SubmoduleEntry) -> (r: Vec<String>)
    ensures
        texts(r@) == expected_patterns(
            match effective.use_git_default_sparse_checkout {
                Some(b) => b,
                None => false,
            },
            effective@.sparse_paths,
        ),
{
    let use_default = match effective.use_git_default_sparse_checkout {
        Some(b) => b,
        None => false,
    };
    let empty: Vec<String> = Vec::new();
    let paths: &Vec<String> = match &effective.sparse_paths {
        Some(p) => p,
        None => &empty,
    };
    proof {
        assert(effective.sparse_paths is None ==> texts(paths@) =~= Seq::<Seq<char>>::empty());
    }
    if use_default {
        copy_slice(paths.as_slice())
    } else {
        build_deny_all_sparse_patterns(paths.as_slice())
    }
}

proof fn lemma_filter_keeps_all(s: Seq<Seq<char>>)
    requires
        forall|i: int| 0 <= i < s.len() ==> keeps_pattern(#[trigger] s[i]),
    ensures
        s.filter(|p: Seq<char>| keeps_pattern(p)) == s,
    decreases s.len(),
{
    if s.len() > 0 {
        lemma_filter_keeps_all(s.drop_last());
        assert(s.drop_last().push(s.last()) =~= s);
        s.drop_last().lemma_filter_push(s.last(), |p: Seq<char>| keeps_pattern(p));
    } else {
        reveal(Seq::filter);
    }
}

/// Building the deny-all list again from a built list gives the same list: the
/// deny-all pattern occurs once, first, and every include pattern is kept in order.
pub proof fn lemma_deny_all_idempotent(ps: Seq<Seq<char>>)
    ensures
        deny_all_patterns(deny_all_patterns(ps)) == deny_all_patterns(ps),
{
    let pred = |p: Seq<char>| keeps_pattern(p);
    let inc = include_patterns(ps);
    assert forall|i: int| 0 <= i < inc.len() implies keeps_pattern(#[trigger] inc[i]) by {
        ps.lemma_filter_pred(pred, i);
    }
    lemma_filter_keeps_all(inc);
    if inc.len() > 0 {
        reveal_strlit("!/*");
        assert(trim_seq(deny_all()) == deny_all()) by {
            reveal_with_fuel(crate::text::trim_start_seq, 2);
            reveal_with_fuel(crate::text::trim_end_seq, 2);
            assert(deny_all()[0] == '!');
            assert(deny_all().last() == '*');
        }
        assert(!keeps_pattern(deny_all()));
        let head = seq![deny_all()];
        Seq::filter_distributes_over_add(head, inc, pred);
        assert(head.filter(pred) =~= Seq::<Seq<char>>::empty()) by {
            reveal(Seq::filter);
            assert(head.drop_last() =~= Seq::<Seq<char>>::empty());
        }
        assert(Seq::<Seq<char>>::empty() + inc =~= inc);
    } else {
        assert(Seq::<Seq<char>>::empty().filter(pred) =~= Seq::<Seq<char>>::empty()) by {
            reveal(Seq::filter);
        }
    }
}

} // verus!
