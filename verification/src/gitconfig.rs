//! The submodule settings this tool manages in git's configuration files, and how
//! they are kept apart from settings it leaves alone.
use vstd::prelude::*;

use crate::config::{copy_branch, copy_text, opt_branch, opt_text, or_value, Config, SubmoduleEntry};
use crate::errors::SubmoduleError;
use crate::options::{branch_text, fetch_text, ignore_text, update_text, GitmodulesConvert};
use crate::gitout::{byte_views, find_byte, first_index, is_byte, nonempty_pieces, split_records};
use crate::options::utf8_decode;
use crate::text::{owned, push_char, starts_with};
use vstd::utf8::{decode_utf8, valid_utf8};

verus! {

/// `c` in lower case when it is an ASCII capital.
pub open spec fn ascii_lower(c: char) -> char {
    if 'A' <= c && c <= 'Z' {
        ((c as u32) + 32) as char
    } else {
        c
    }
}

/// ASCII case-insensitive equality.
pub open spec fn eq_ignore_ascii_case(a: Seq<char>, b: Seq<char>) -> bool {
    a.len() == b.len() && forall|i: int| 0 <= i < a.len() ==> ascii_lower(a[i]) == ascii_lower(b[i])
}

/// The per-module fields this tool manages.
pub open spec fn managed_fields() -> Seq<Seq<char>> {
    seq![
        "url"@,
        "branch"@,
        "ignore"@,
        "update"@,
        "fetchRecurseSubmodules"@,
        "shallow"@,
        "active"@,
    ]
}

/// Whether `key` is a managed field of module `name`: `submodule.{name}.{field}` with
/// a managed field, compared without regard to ASCII case.
pub open spec fn key_is_managed(name: Seq<char>, key: Seq<char>) -> bool {
    let prefix = "submodule."@ + name + "."@;
    prefix.is_prefix_of(key) && exists|i: int|
        0 <= i < managed_fields().len() && eq_ignore_ascii_case(
            key.subrange(prefix.len() as int, key.len() as int),
            #[trigger] managed_fields()[i],
        )
}

fn ascii_lower_exec(c: char) -> (r: char)
    ensures
        r == ascii_lower(c),
{
    if 'A' <= c && c <= 'Z' {
        ((c as u8) + 32) as char
    } else {
        c
    }
}

/// ASCII case-insensitive equality of `a[start..]` and `b`.
pub(crate) fn eq_ignore_case_from(a: &str, start: usize, b: &str) -> (r: bool)
    requires
        start <= a@.len(),
    ensures
        r == eq_ignore_ascii_case(a@.subrange(start as int, a@.len() as int), b@),
{
    let n = a.unicode_len();
    let m = b.unicode_len();
    let ghost t = a@.subrange(start as int, n as int);
    if n - start != m {
        return false;
    }
    let mut i: usize = 0;
    while i < m
        invariant
            n == a@.len(),
            m == b@.len(),
            start <= n,
            n - start == m,
            t == a@.subrange(start as int, n as int),
            i <= m,
            forall|j: int| 0 <= j < i ==> ascii_lower(t[j]) == ascii_lower(b@[j]),
        decreases m - i,
    {
        if ascii_lower_exec(a.get_char(start + i)) != ascii_lower_exec(b.get_char(i)) {
            assert(t[i as int] == a@[start + i]);
            return false;
        }
        i = i + 1;
    }
    true
}

/// Whether `key` is a managed field of module `name` (see [`key_is_managed`]).
pub fn module_config_key_is_managed(name: &str, key: &str) -> (r: bool)
    ensures
        r == key_is_managed(name@, key@),
{
    let mut prefix = owned("submodule.");
    prefix.append(name);
    prefix.append(".");
    proof {
        reveal_strlit("submodule.");
        reveal_strlit(".");
    }
    if !starts_with(key, prefix.as_str()) {
        return false;
    }
    let start = prefix.as_str().unicode_len();
    let fields = ["url", "branch", "ignore", "update", "fetchRecurseSubmodules", "shallow", "active"];
    let mut i: usize = 0;
    while i < 7
        invariant
            start == ("submodule."@ + name@ + "."@).len(),
            ("submodule."@ + name@ + "."@).is_prefix_of(key@),
            start <= key@.len(),
            fields@.len() == 7,
            forall|j: int| 0 <= j < 7 ==> (#[trigger] fields@[j])@ == managed_fields()[j],
            i <= 7,
            forall|j: int|
                0 <= j < i ==> !eq_ignore_ascii_case(
                    key@.subrange(start as int, key@.len() as int),
                    #[trigger] managed_fields()[j],
                ),
        decreases 7 - i,
    {
        if eq_ignore_case_from(key, start, fields[i]) {
            proof {
                assert(fields@[i as int]@ == managed_fields()[i as int]);
                assert(eq_ignore_ascii_case(
                    key@.subrange(start as int, key@.len() as int),
                    managed_fields()[i as int],
                ));
            }
            return true;
        }
        i = i + 1;
    }
    false
}

/// A module's settings in the local configuration and (when the worktree has its
/// own configuration) in the worktree configuration, as key-value pairs.
#[derive(Debug, Clone, PartialEq, Eq)]
pub struct ModuleConfigSnapshot {
    pub local: Vec<(String, String)>,
    pub worktree: Option<Vec<(String, String)>>,
}

/// The views of key-value pairs.
pub open spec fn pair_views(v: Seq<(String, String)>) -> Seq<(Seq<char>, Seq<char>)> {
    v.map_values(|p: (String, String)| (p.0@, p.1@))
}

/// The desired managed pairs followed by the original unmanaged pairs.
pub open spec fn merged_pairs(
    name: Seq<char>,
    desired: Seq<(Seq<char>, Seq<char>)>,
    original: Seq<(Seq<char>, Seq<char>)>,
) -> Seq<(Seq<char>, Seq<char>)> {
    desired.filter(|p: (Seq<char>, Seq<char>)| key_is_managed(name, p.0)) + original.filter(
        |p: (Seq<char>, Seq<char>)| !key_is_managed(name, p.0),
    )
}

/// The pairs of `v` whose key's management is `managed`, appended to `out`.
fn append_filtered(
    out: &mut Vec<(String, String)>,
    v: &Vec<(String, String)>,
    name: &str,
    managed: bool,
)
    ensures
        pair_views(final(out)@) == pair_views(old(out)@) + pair_views(v@).filter(
            |p: (Seq<char>, Seq<char>)| key_is_managed(name@, p.0) == managed,
        ),
{
    let ghost pred = |p: (Seq<char>, Seq<char>)| key_is_managed(name@, p.0) == managed;
    let ghost start = pair_views(out@);
    let mut i: usize = 0;
    proof {
        assert(pair_views(v@).subrange(0, 0).filter(pred) =~= Seq::<(Seq<char>, Seq<char>)>::empty())
            by {
            reveal(Seq::filter);
        }
        assert(start + Seq::<(Seq<char>, Seq<char>)>::empty() =~= start);
    }
    while i < v.len()
        invariant
            i <= v@.len(),
            pred == (|p: (Seq<char>, Seq<char>)| key_is_managed(name@, p.0) == managed),
            pair_views(out@) == start + pair_views(v@).subrange(0, i as int).filter(pred),
        decreases v@.len() - i,
    {
        let ghost pv = pair_views(v@);
        proof {
            assert(pv.subrange(0, i + 1) =~= pv.subrange(0, i as int).push(pv[i as int]));
            pv.subrange(0, i as int).lemma_filter_push(pv[i as int], pred);
        }
        if module_config_key_is_managed(name, v[i].0.as_str()) == managed {
            let ghost before = pair_views(out@);
            out.push((v[i].0.clone(), v[i].1.clone()));
            proof {
                assert(pair_views(out@) =~= before.push(pv[i as int]));
            }
        }
        i = i + 1;
    }
    proof {
        assert(pair_views(v@).subrange(0, v@.len() as int) =~= pair_views(v@));
    }
}

/// The managed pairs of `desired` followed by the unmanaged pairs of `original`.
fn merge_pairs(name: &str, desired: &Vec<(String, String)>, original: &Vec<(String, String)>) -> (r:
    Vec<(String, String)>)
    ensures
        pair_views(r@) == merged_pairs(name@, pair_views(desired@), pair_views(original@)),
{
    let mut out: Vec<(String, String)> = Vec::new();
    append_filtered(&mut out, desired, name, true);
    append_filtered(&mut out, original, name, false);
    proof {
        let pm = |p: (Seq<char>, Seq<char>)| key_is_managed(name@, p.0) == true;
        let pm2 = |p: (Seq<char>, Seq<char>)| key_is_managed(name@, p.0);
        let pu = |p: (Seq<char>, Seq<char>)| key_is_managed(name@, p.0) == false;
        let pu2 = |p: (Seq<char>, Seq<char>)| !key_is_managed(name@, p.0);
        assert(pm == pm2);
        assert(pu == pu2);
        assert(pair_views(Seq::<(String, String)>::empty()) =~= Seq::<(Seq<char>, Seq<char>)>::empty());
        assert(Seq::<(Seq<char>, Seq<char>)>::empty() + pair_views(desired@).filter(pm)
            =~= pair_views(desired@).filter(pm));
    }
    out
}

/// The snapshot to write back for module `name`: this tool's settings from `desired`,
/// every other setting from `original` (the worktree part exists when `desired` has one).
pub fn preserve_unmanaged_module_config(
    name: &str,
    desired: &ModuleConfigSnapshot,
    original: &ModuleConfigSnapshot,
) -> (r: ModuleConfigSnapshot)
    ensures
        pair_views(r.local@) == merged_pairs(name@, pair_views(desired.local@), pair_views(original.local@)),
        r.worktree is Some <==> desired.worktree is Some,
        r.worktree matches Some(w) ==> pair_views(w@) == merged_pairs(
            name@,
            pair_views(desired.worktree->0@),
            match original.worktree {
                Some(o) => pair_views(o@),
                None => Seq::empty(),
            },
        ),
{
    let local = merge_pairs(name, &desired.local, &original.local);
    let worktree = match &desired.worktree {
        Some(d) => {
            let empty: Vec<(String, String)> = Vec::new();
            let o: &Vec<(String, String)> = match &original.worktree {
                Some(o) => o,
                None => &empty,
            };
            proof {
                if original.worktree is None {
                    assert(pair_views(o@) =~= Seq::<(Seq<char>, Seq<char>)>::empty());
                }
            }
            Some(merge_pairs(name, d, o))
        },
        None => None,
    };
    ModuleConfigSnapshot { local, worktree }
}

/// Why a `key\nvalue` record of git's configuration listing could not be read.
#[derive(Debug, Clone, Copy, PartialEq, Eq, Structural)]
pub enum PairProblem {
    /// The record has no line feed between key and value.
    Malformed,
    /// The key or the value is not UTF-8.
    NotText,
}

/// The key and value of one `key\nvalue` record (split at its first line feed).
pub open spec fn pair_of(rec: Seq<u8>) -> Result<(Seq<char>, Seq<char>), PairProblem> {
    match first_index(rec, 10u8) {
        None => Err(PairProblem::Malformed),
        Some(n) => {
            let kb = rec.subrange(0, n);
            let vb = rec.subrange(n + 1, rec.len() as int);
            if !valid_utf8(kb) || !valid_utf8(vb) {
                Err(PairProblem::NotText)
            } else {
                Ok((decode_utf8(kb), decode_utf8(vb)))
            }
        },
    }
}

/// The pairs of the records, in order, or the problem of the first record that has one.
pub open spec fn pairs_of(recs: Seq<Seq<u8>>) -> Result<Seq<(Seq<char>, Seq<char>)>, PairProblem>
    decreases recs.len(),
{
    if recs.len() == 0 {
        Ok(Seq::empty())
    } else {
        match pairs_of(recs.drop_last()) {
            Err(e) => Err(e),
            Ok(found) => match pair_of(recs.last()) {
                Err(e) => Err(e),
                Ok(p) => Ok(found.push(p)),
            },
        }
    }
}

/// A problem found in a prefix of the records is the problem of all of them.
proof fn lemma_pairs_of_error(recs: Seq<Seq<u8>>, k: int)
    requires
        0 <= k <= recs.len(),
        pairs_of(recs.subrange(0, k)) is Err,
    ensures
        pairs_of(recs) == pairs_of(recs.subrange(0, k)),
    decreases recs.len() - k,
{
    if k < recs.len() {
        assert(recs.subrange(0, k + 1).drop_last() =~= recs.subrange(0, k));
        lemma_pairs_of_error(recs, k + 1);
    } else {
        assert(recs.subrange(0, k) =~= recs);
    }
}

/// The key and value of one record (see [`pair_of`]).
fn read_pair(rec: &[u8]) -> (r: Result<(String, String), PairProblem>)
    ensures
        match r {
            Ok(p) => pair_of(rec@) == Ok::<(Seq<char>, Seq<char>), PairProblem>((p.0@, p.1@)),
            Err(e) => pair_of(rec@) == Err::<(Seq<char>, Seq<char>), PairProblem>(e),
        },
{
    let n = match find_byte(rec, 10u8) {
        None => {
            return Err(PairProblem::Malformed);
        },
        Some(n) => n,
    };
    let len = rec.len();
    let kb = vstd::slice::slice_subrange(rec, 0, n);
    let vb = vstd::slice::slice_subrange(rec, n + 1, len);
    let key = match utf8_decode(kb).ok() {
        None => {
            return Err(PairProblem::NotText);
        },
        Some(k) => k,
    };
    let value = match utf8_decode(vb).ok() {
        None => {
            return Err(PairProblem::NotText);
        },
        Some(v) => v,
    };
    Ok((owned(key), owned(value)))
}

/// The key-value pairs of a NUL-separated configuration listing (`git config -z
/// --get-regexp`), in order (see [`pairs_of`]).
pub fn config_pairs(out: &[u8]) -> (r: Result<Vec<(String, String)>, PairProblem>)
    ensures
        match r {
            Ok(v) => pairs_of(nonempty_pieces(out@, is_byte(0u8))) == Ok::<
                Seq<(Seq<char>, Seq<char>)>,
                PairProblem,
            >(pair_views(v@)),
            Err(e) => pairs_of(nonempty_pieces(out@, is_byte(0u8))) == Err::<
                Seq<(Seq<char>, Seq<char>)>,
                PairProblem,
            >(e),
        },
{
    let recs = split_records(out, 0u8);
    let ghost rv = byte_views(recs@);
    let mut found: Vec<(String, String)> = Vec::new();
    let mut i: usize = 0;
    proof {
        assert(rv.subrange(0, 0) =~= Seq::<Seq<u8>>::empty());
        assert(pair_views(found@) =~= Seq::<(Seq<char>, Seq<char>)>::empty());
    }
    while i < recs.len()
        invariant
            i <= recs@.len(),
            rv == byte_views(recs@),
            rv == nonempty_pieces(out@, is_byte(0u8)),
            pairs_of(rv.subrange(0, i as int)) == Ok::<Seq<(Seq<char>, Seq<char>)>, PairProblem>(
                pair_views(found@),
            ),
        decreases recs@.len() - i,
    {
        let step = read_pair(recs[i].as_slice());
        proof {
            assert(rv.subrange(0, i + 1).drop_last() =~= rv.subrange(0, i as int));
            assert(rv.subrange(0, i + 1).last() == recs@[i as int]@);
        }
        match step {
            Err(e) => {
                proof {
                    lemma_pairs_of_error(rv, i + 1);
                }
                return Err(e);
            },
            Ok(p) => {
                let ghost before = pair_views(found@);
                let ghost pv = (p.0@, p.1@);
                found.push(p);
                proof {
                    assert(pair_views(found@) =~= before.push(pv));
                }
            },
        }
        i = i + 1;
    }
    proof {
        assert(rv.subrange(0, rv.len() as int) =~= rv);
    }
    Ok(found)
}

/// Characters that are special in git's config-key regular expressions.
pub open spec fn regex_special(c: char) -> bool {
    c == '\\' || c == '.' || c == '^' || c == '$' || c == '|' || c == '?' || c == '*' || c == '+'
        || c == '(' || c == ')' || c == '[' || c == ']' || c == '{' || c == '}'
}

/// `s` with a backslash before every special character.
pub open spec fn regex_escaped(s: Seq<char>) -> Seq<char>
    decreases s.len(),
{
    if s.len() == 0 {
        s
    } else if regex_special(s.last()) {
        regex_escaped(s.drop_last()).push('\\').push(s.last())
    } else {
        regex_escaped(s.drop_last()).push(s.last())
    }
}

/// A regular expression that matches `value` literally.
pub fn config_key_regex_literal(value: &str) -> (r: String)
    ensures
        r@ == regex_escaped(value@),
{
    let n = value.unicode_len();
    let mut out = String::new();
    let mut i: usize = 0;
    while i < n
        invariant
            n == value@.len(),
            i <= n,
            out@ == regex_escaped(value@.subrange(0, i as int)),
        decreases n - i,
    {
        let c = value.get_char(i);
        proof {
            assert(value@.subrange(0, i + 1).drop_last() =~= value@.subrange(0, i as int));
        }
        if c == '\\' || c == '.' || c == '^' || c == '$' || c == '|' || c == '?' || c == '*' || c
            == '+' || c == '(' || c == ')' || c == '[' || c == ']' || c == '{' || c == '}' {
            push_char(&mut out, '\\');
        }
        push_char(&mut out, c);
        i = i + 1;
    }
    proof {
        assert(value@.subrange(0, n as int) =~= value@);
    }
    out
}

/// The `.gitmodules` fields this tool writes for an entry, with their values (`None`
/// when unset): url, branch, ignore, update, fetchRecurseSubmodules and shallow.
pub fn managed_portable_fields(entry: &SubmoduleEntry) -> (r: Vec<(&'static str, Option<String>)>)
    ensures
        r@.len() == 6,
        r@[0].0@ == "url"@ && opt_text(r@[0].1) == opt_text(entry.url),
        r@[1].0@ == "branch"@ && opt_text(r@[1].1) == match entry.branch {
            Some(b) => Some(branch_text(b@)),
            None => None,
        },
        r@[2].0@ == "ignore"@ && opt_text(r@[2].1) == match entry.ignore {
            Some(v) => Some(ignore_text(v)),
            None => None,
        },
        r@[3].0@ == "update"@ && opt_text(r@[3].1) == match entry.update {
            Some(v) => Some(update_text(v)),
            None => None,
        },
        r@[4].0@ == "fetchRecurseSubmodules"@ && opt_text(r@[4].1) == match entry.fetch_recurse {
            Some(v) => Some(fetch_text(v)),
            None => None,
        },
        r@[5].0@ == "shallow"@ && opt_text(r@[5].1) == match entry.shallow {
            Some(true) => Some("true"@),
            Some(false) => Some("false"@),
            None => None,
        },
{
    let branch = match &entry.branch {
        Some(b) => Some(b.to_gitmodules()),
        None => None,
    };
    let ignore = match entry.ignore {
        Some(v) => Some(v.display_text()),
        None => None,
    };
    let update = match entry.update {
        Some(v) => Some(v.display_text()),
        None => None,
    };
    let fetch = match entry.fetch_recurse {
        Some(v) => Some(v.to_gitmodules()),
        None => None,
    };
    let shallow = match entry.shallow {
        Some(true) => Some(owned("true")),
        Some(false) => Some(owned("false")),
        None => None,
    };
    let mut r: Vec<(&'static str, Option<String>)> = Vec::new();
    r.push(("url", copy_text(&entry.url)));
    r.push(("branch", branch));
    r.push(("ignore", ignore));
    r.push(("update", update));
    r.push(("fetchRecurseSubmodules", fetch));
    r.push(("shallow", shallow));
    r
}

/// The settings this tool writes to git for a module: its declaration with the
/// branch, ignore, update and fetch-recurse defaults filled in and `active`
/// defaulting to true.
pub open spec fn managed_view(e: crate::config::EntryView, d: crate::config::SubmoduleDefaults) -> crate::config::EntryView {
    crate::config::EntryView {
        branch: crate::config::pick(e.branch, opt_branch(d.branch)),
        ignore: crate::config::pick(e.ignore, d.ignore),
        update: crate::config::pick(e.update, d.update),
        fetch_recurse: crate::config::pick(e.fetch_recurse, d.fetch_recurse),
        active: Some(or_value(e.active, true)),
        ..e
    }
}

/// The managed settings of the module named `name`, or the error that it is not
/// declared.
pub fn managed_settings(config: &Config, name: &str) -> (r: Result<SubmoduleEntry, SubmoduleError>)
    ensures
        r is Ok <==> config.submodules@.contains_key(name@),
        r matches Ok(e) ==> e@ == managed_view(config.submodules@[name@], config.defaults),
        r matches Err(e) ==> (e matches SubmoduleError::SubmoduleNotFound { name: n } && n@ == name@),
{
    let declared = match config.submodules.get(name) {
        Some(e) => e,
        None => {
            return Err(SubmoduleError::SubmoduleNotFound { name: owned(name) });
        },
    };
    Ok(managed_entry(declared, &config.defaults))
}

/// The managed settings of a declared entry under the defaults `d`: the entry with unset
/// branch, ignore, update and fetch-recurse settings taken from the defaults, and an
/// unset active flag read as active.
pub fn managed_entry(declared: &SubmoduleEntry, d: &crate::config::SubmoduleDefaults) -> (r: SubmoduleEntry)
    ensures
        r@ == managed_view(declared@, *d),
{
    let mut e = declared.duplicate();
    if e.branch.is_none() {
        e.branch = copy_branch(&d.branch);
    }
    if e.ignore.is_none() {
        e.ignore = d.ignore;
    }
    if e.update.is_none() {
        e.update = d.update;
    }
    if e.fetch_recurse.is_none() {
        e.fetch_recurse = d.fetch_recurse;
    }
    e.active = Some(
        match e.active {
            Some(a) => a,
            None => true,
        },
    );
    e
}

proof fn lemma_filter_all_keep<A>(s: Seq<A>, p: spec_fn(A) -> bool)
    requires
        forall|i: int| 0 <= i < s.len() ==> p(#[trigger] s[i]),
    ensures
        s.filter(p) == s,
    decreases s.len(),
{
    reveal(Seq::filter);
    if s.len() > 0 {
        lemma_filter_all_keep(s.drop_last(), p);
        assert(s.drop_last().push(s.last()) =~= s);
    }
}

proof fn lemma_filter_none_keep<A>(s: Seq<A>, p: spec_fn(A) -> bool)
    requires
        forall|i: int| 0 <= i < s.len() ==> !p(#[trigger] s[i]),
    ensures
        s.filter(p) == Seq::<A>::empty(),
    decreases s.len(),
{
    reveal(Seq::filter);
    if s.len() > 0 {
        lemma_filter_none_keep(s.drop_last(), p);
    } else {
        assert(s.filter(p) =~= Seq::<A>::empty());
    }
}

/// Preserving unmanaged settings a second time, against the same original, changes
/// nothing: the managed settings stay those desired, the others those of the original.
pub proof fn lemma_merge_idempotent(
    name: Seq<char>,
    desired: Seq<(Seq<char>, Seq<char>)>,
    original: Seq<(Seq<char>, Seq<char>)>,
)
    ensures
        merged_pairs(name, merged_pairs(name, desired, original), original) == merged_pairs(
            name,
            desired,
            original,
        ),
{
    let pm = |p: (Seq<char>, Seq<char>)| key_is_managed(name, p.0);
    let pu = |p: (Seq<char>, Seq<char>)| !key_is_managed(name, p.0);
    let dm = desired.filter(pm);
    let ou = original.filter(pu);
    assert forall|i: int| 0 <= i < dm.len() implies pm(#[trigger] dm[i]) by {
        desired.lemma_filter_pred(pm, i);
    }
    assert forall|i: int| 0 <= i < ou.len() implies !pm(#[trigger] ou[i]) by {
        original.lemma_filter_pred(pu, i);
    }
    lemma_filter_all_keep(dm, pm);
    lemma_filter_none_keep(ou, pm);
    Seq::filter_distributes_over_add(dm, ou, pm);
    assert(dm + Seq::<(Seq<char>, Seq<char>)>::empty() =~= dm);
}

/// The managed settings keep every setting the declaration makes; a default fills only a
/// setting the declaration leaves unset; an unset active flag reads as active; the other
/// fields are the declaration's own.
pub proof fn lemma_declared_settings_win(e: crate::config::EntryView, d: crate::config::SubmoduleDefaults)
    ensures
        ({
            let m = managed_view(e, d);
            &&& e.ignore is Some ==> m.ignore == e.ignore
            &&& e.ignore is None ==> m.ignore == d.ignore
            &&& e.update is Some ==> m.update == e.update
            &&& e.update is None ==> m.update == d.update
            &&& e.fetch_recurse is Some ==> m.fetch_recurse == e.fetch_recurse
            &&& e.fetch_recurse is None ==> m.fetch_recurse == d.fetch_recurse
            &&& e.branch is Some ==> m.branch == e.branch
            &&& e.branch is None ==> m.branch == opt_branch(d.branch)
            &&& e.active is Some ==> m.active == e.active
            &&& e.active is None ==> m.active == Some(true)
            &&& m.path == e.path && m.url == e.url && m.shallow == e.shallow && m.no_init == e.no_init
            &&& m.sparse_paths == e.sparse_paths
            &&& m.use_git_default_sparse_checkout == e.use_git_default_sparse_checkout
        }),
{
}

} // verus!
