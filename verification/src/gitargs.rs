//! The git commands that add and update a submodule: their argument lists, the
//! `.gitmodules` fields written after an add, and what shows an update took effect.
use vstd::prelude::*;

use crate::config::{opt_branch, texts, SubmoduleAddOptions, SubmoduleUpdateOptions};
use crate::edits::texts_of;
use crate::gitout::pieces;
use crate::options::{
    branch_text, fetch_text, ignore_text, update_text, SerializableBranch, SerializableUpdate,
};
use crate::text::{owned, str_eq};

verus! {

/// The mode flag of `git submodule update` for a strategy, or `None` for the strategy
/// that does not update.
pub open spec fn update_mode(s: SerializableUpdate) -> Option<Seq<char>> {
    match s {
        SerializableUpdate::Merge => Some("--merge"@),
        SerializableUpdate::Rebase => Some("--rebase"@),
        SerializableUpdate::Nothing => None,
        _ => Some("--checkout"@),
    }
}

/// `seq![x]` when `b` holds, else nothing.
pub open spec fn when(b: bool, x: Seq<char>) -> Seq<Seq<char>> {
    if b {
        seq![x]
    } else {
        Seq::empty()
    }
}

/// The arguments of `git submodule update` for `opts` (the literal pathspec follows
/// them), or `None` when the strategy is not to update: `submodule update --init`, the
/// mode flag, then `--recursive`, `--force` (also when an incomplete checkout is being
/// repaired) and `--remote` as asked, then `--`.
pub open spec fn update_command(opts: SubmoduleUpdateOptions, repair: bool) -> Option<Seq<Seq<char>>> {
    match update_mode(opts.strategy) {
        None => None,
        Some(m) => Some(
            seq!["submodule"@, "update"@, "--init"@, m] + when(opts.recursive, "--recursive"@)
                + when(opts.force || repair, "--force"@) + when(opts.remote, "--remote"@) + seq![
                "--"@,
            ],
        ),
    }
}

/// Push `x` onto `v` when `b` holds.
fn push_when(v: &mut Vec<&'static str>, b: bool, x: &'static str)
    ensures
        texts_of(final(v)@) == texts_of(old(v)@) + when(b, x@),
{
    if b {
        v.push(x);
        proof {
            assert(texts_of(v@) =~= texts_of(old(v)@) + when(b, x@));
        }
    } else {
        proof {
            assert(texts_of(v@) =~= texts_of(old(v)@) + when(b, x@));
        }
    }
}

/// The arguments of `git submodule update` for `opts` (see [`update_command`]).
pub fn update_args(opts: &SubmoduleUpdateOptions, repair_incomplete: bool) -> (r: Option<Vec<&'static str>>)
    ensures
        match r {
            None => update_command(*opts, repair_incomplete) is None,
            Some(v) => update_command(*opts, repair_incomplete) == Some(texts_of(v@)),
        },
{
    let mode: &'static str = match opts.strategy {
        SerializableUpdate::Merge => "--merge",
        SerializableUpdate::Rebase => "--rebase",
        SerializableUpdate::Nothing => {
            return None;
        },
        _ => "--checkout",
    };
    let mut v: Vec<&'static str> = Vec::new();
    v.push("submodule");
    v.push("update");
    v.push("--init");
    v.push(mode);
    let ghost head = texts_of(v@);
    proof {
        assert(head =~= seq!["submodule"@, "update"@, "--init"@, mode@]);
        assert(update_mode(opts.strategy) == Some(mode@));
    }
    push_when(&mut v, opts.recursive, "--recursive");
    push_when(&mut v, opts.force || repair_incomplete, "--force");
    push_when(&mut v, opts.remote, "--remote");
    let ghost before = texts_of(v@);
    v.push("--");
    proof {
        assert(texts_of(v@) =~= before + seq!["--"@]);
    }
    Some(v)
}

/// What shows that an update with a strategy took effect.
#[derive(Debug, Clone, Copy, PartialEq, Eq, Structural)]
pub enum UpdateCheck {
    /// Nothing to check: the strategy does not update.
    Holds,
    /// The checkout's `HEAD` is the target commit.
    HeadAtTarget,
    /// The target commit is an ancestor of the checkout's `HEAD` (merge and rebase
    /// keep local commits on top of it).
    TargetIsAncestor,
}

/// The check for a strategy (see [`UpdateCheck`]).
pub open spec fn update_check_of(s: SerializableUpdate) -> UpdateCheck {
    match s {
        SerializableUpdate::Nothing => UpdateCheck::Holds,
        SerializableUpdate::Merge | SerializableUpdate::Rebase => UpdateCheck::TargetIsAncestor,
        _ => UpdateCheck::HeadAtTarget,
    }
}

/// What shows that an update with `strategy` took effect (see [`update_check_of`]).
pub fn update_check(strategy: SerializableUpdate) -> (r: UpdateCheck)
    ensures
        r == update_check_of(strategy),
{
    match strategy {
        SerializableUpdate::Nothing => UpdateCheck::Holds,
        SerializableUpdate::Merge | SerializableUpdate::Rebase => UpdateCheck::TargetIsAncestor,
        _ => UpdateCheck::HeadAtTarget,
    }
}

/// The lines of a text as `str::lines` gives them, up to line-ending carriage returns:
/// the pieces between line feeds, without the empty piece after a final line feed.
pub open spec fn text_lines(s: Seq<char>) -> Seq<Seq<char>> {
    let p = pieces(s, |c: char| c == '\n');
    if p.last().len() == 0 {
        p.drop_last()
    } else {
        p
    }
}

/// A checkout that only a `.git` entry holds is an incomplete materialization when its
/// status lists something, its index is empty, and every status line is a staged
/// deletion (`D  `).
pub open spec fn incomplete_materialization(status: Seq<char>, index: Seq<char>) -> bool {
    &&& status.len() > 0
    &&& index.len() == 0
    &&& forall|i: int|
        0 <= i < text_lines(status).len() ==> "D  "@.is_prefix_of(#[trigger] text_lines(status)[i])
}

/// The lines of `s` (see [`text_lines`]).
fn split_lines(s: &str) -> (r: Vec<String>)
    ensures
        texts(r@) == text_lines(s@),
{
    let ghost f = |c: char| c == '\n';
    let n = s.unicode_len();
    let mut done: Vec<String> = Vec::new();
    let mut cur = String::new();
    let mut i: usize = 0;
    proof {
        assert(s@.subrange(0, 0) =~= Seq::<char>::empty());
        assert(texts(done@) =~= Seq::<Seq<char>>::empty());
    }
    while i < n
        invariant
            n == s@.len(),
            i <= n,
            f == (|c: char| c == '\n'),
            pieces(s@.subrange(0, i as int), f).len() >= 1,
            texts(done@) == pieces(s@.subrange(0, i as int), f).drop_last(),
            cur@ == pieces(s@.subrange(0, i as int), f).last(),
        decreases n - i,
    {
        let c = s.get_char(i);
        let ghost pre = s@.subrange(0, i as int);
        let ghost p = pieces(pre, f);
        proof {
            assert(s@.subrange(0, i + 1).drop_last() =~= pre);
            assert(s@.subrange(0, i + 1).last() == c);
            crate::gitout::lemma_pieces_nonempty(s@.subrange(0, i + 1), f);
        }
        if c == '\n' {
            let ghost before = texts(done@);
            let line = cur;
            done.push(line);
            proof {
                assert(p.drop_last().push(p.last()) =~= p);
                assert(texts(done@) =~= before.push(line@));
                assert(pieces(s@.subrange(0, i + 1), f).drop_last() =~= p);
            }
            cur = String::new();
        } else {
            crate::text::push_char(&mut cur, c);
            proof {
                assert(pieces(s@.subrange(0, i + 1), f).drop_last() =~= p.drop_last());
            }
        }
        i = i + 1;
    }
    proof {
        assert(s@.subrange(0, n as int) =~= s@);
    }
    if cur.unicode_len() > 0 {
        let ghost before = texts(done@);
        let line = cur;
        done.push(line);
        proof {
            let p = pieces(s@, f);
            assert(p.drop_last().push(p.last()) =~= p);
            assert(texts(done@) =~= before.push(line@));
        }
    }
    done
}

/// Whether every line of `s` starts with `D  `.
fn all_lines_staged_deletions(s: &str) -> (r: bool)
    ensures
        r == forall|i: int|
            0 <= i < text_lines(s@).len() ==> "D  "@.is_prefix_of(#[trigger] text_lines(s@)[i]),
{
    let lines = split_lines(s);
    let ghost ls = texts(lines@);
    let mut i: usize = 0;
    while i < lines.len()
        invariant
            i <= lines@.len(),
            ls == texts(lines@),
            ls == text_lines(s@),
            forall|k: int| 0 <= k < i ==> "D  "@.is_prefix_of(#[trigger] ls[k]),
        decreases lines@.len() - i,
    {
        if !crate::text::starts_with(lines[i].as_str(), "D  ") {
            proof {
                assert(ls[i as int] == lines@[i as int]@);
            }
            return false;
        }
        proof {
            assert(ls[i as int] == lines@[i as int]@);
        }
        i = i + 1;
    }
    true
}

/// Whether a checkout that only a `.git` entry holds is an incomplete materialization
/// (see [`incomplete_materialization`]), from the text of its `git status --porcelain=v1`
/// and of its `git ls-files --stage`.
pub fn is_incomplete_materialization(status: &str, index: &str) -> (r: bool)
    ensures
        r == incomplete_materialization(status@, index@),
{
    status.unicode_len() > 0 && index.unicode_len() == 0 && all_lines_staged_deletions(status)
}

/// How `git submodule add` is told the branch to track.
#[derive(Debug, Clone, PartialEq, Eq)]
pub enum AddBranch {
    /// No `--branch`: none is stored, or it is `HEAD`.
    Omit,
    /// `--branch` with the branch the superproject has checked out.
    Current,
    /// `--branch` with this name.
    Named(String),
}

/// How the add command is told the stored branch `b` (see [`AddBranch`]).
pub open spec fn add_branch_of(b: Option<crate::options::BranchView>) -> Option<Option<Seq<char>>> {
    match b {
        None => None,
        Some(v) => if branch_text(v) == "."@ {
            Some(None)
        } else if branch_text(v) == "HEAD"@ {
            None
        } else {
            Some(Some(branch_text(v)))
        },
    }
}

/// How `git submodule add` is told the stored branch (see [`add_branch_of`]): `None` for
/// no `--branch`, `Some(None)` for the superproject's branch, `Some(Some(n))` for `n`.
pub fn add_branch(branch: &Option<SerializableBranch>) -> (r: AddBranch)
    ensures
        match add_branch_of(opt_branch(*branch)) {
            None => r == AddBranch::Omit,
            Some(None) => r == AddBranch::Current,
            Some(Some(n)) => r matches AddBranch::Named(m) && m@ == n,
        },
{
    match branch {
        None => AddBranch::Omit,
        Some(b) => {
            let t = b.display_text();
            if str_eq(t.as_str(), ".") {
                AddBranch::Current
            } else if str_eq(t.as_str(), "HEAD") {
                AddBranch::Omit
            } else {
                AddBranch::Named(t)
            }
        },
    }
}

/// The arguments of `git submodule add` (run in the superproject): the name, `--force`
/// when a retained repository of the same origin is reused, the resolved branch, a
/// depth of one for a shallow clone, then `--`, the URL and the path.
pub open spec fn add_command(o: SubmoduleAddOptions, reuse: bool, branch: Option<Seq<char>>) -> Seq<
    Seq<char>,
> {
    seq!["submodule"@, "add"@, "--name"@, o.name@] + when(reuse, "--force"@) + (match branch {
        Some(b) => seq!["--branch"@, b],
        None => Seq::empty(),
    }) + (if o.shallow {
        seq!["--depth"@, "1"@]
    } else {
        Seq::empty()
    }) + seq!["--"@, o.url@, o.path@]
}

/// The arguments of `git submodule add` (see [`add_command`]); `branch` is the branch
/// that [`add_branch`] chose, resolved.
pub fn add_args(opts: &SubmoduleAddOptions, reuse_retained: bool, branch: Option<&str>) -> (r: Vec<String>)
    ensures
        texts(r@) == add_command(*opts, reuse_retained, match branch {
            Some(b) => Some(b@),
            None => None,
        }),
{
    let ghost want = add_command(*opts, reuse_retained, match branch {
        Some(b) => Some(b@),
        None => None,
    });
    let mut v: Vec<String> = Vec::new();
    v.push(owned("submodule"));
    v.push(owned("add"));
    v.push(owned("--name"));
    v.push(opts.name.clone());
    let ghost s0 = texts(v@);
    proof {
        assert(s0 =~= seq!["submodule"@, "add"@, "--name"@, opts.name@]);
    }
    if reuse_retained {
        v.push(owned("--force"));
    }
    let ghost s1 = texts(v@);
    proof {
        assert(s1 =~= s0 + when(reuse_retained, "--force"@));
    }
    match branch {
        Some(b) => {
            v.push(owned("--branch"));
            v.push(owned(b));
        },
        None => {},
    }
    let ghost s2 = texts(v@);
    proof {
        assert(s2 =~= s1 + (match branch {
            Some(b) => seq!["--branch"@, b@],
            None => Seq::<Seq<char>>::empty(),
        }));
    }
    if opts.shallow {
        v.push(owned("--depth"));
        v.push(owned("1"));
    }
    let ghost s3 = texts(v@);
    proof {
        assert(s3 =~= s2 + (if opts.shallow {
            seq!["--depth"@, "1"@]
        } else {
            Seq::<Seq<char>>::empty()
        }));
    }
    v.push(owned("--"));
    v.push(opts.url.clone());
    v.push(opts.path.clone());
    proof {
        assert(texts(v@) =~= s3 + seq!["--"@, opts.url@, opts.path@]);
        assert(texts(v@) =~= want);
    }
    v
}

/// `seq![(key, t)]` when `v` is a nonempty text `t`, else nothing.
pub open spec fn field_if_set(key: Seq<char>, v: Option<Seq<char>>) -> Seq<(Seq<char>, Seq<char>)> {
    match v {
        Some(t) => if t.len() > 0 {
            seq![(key, t)]
        } else {
            Seq::empty()
        },
        None => Seq::empty(),
    }
}

/// The `.gitmodules` fields written for an added submodule, in order: its branch,
/// ignore, update and fetch-recurse settings and `shallow = true` for a shallow clone,
/// each only when given with a nonempty spelling.
pub open spec fn added_fields(o: SubmoduleAddOptions) -> Seq<(Seq<char>, Seq<char>)> {
    field_if_set(
        "branch"@,
        match o.branch {
            Some(b) => Some(branch_text(b@)),
            None => None,
        },
    ) + field_if_set(
        "ignore"@,
        match o.ignore {
            Some(v) => Some(ignore_text(v)),
            None => None,
        },
    ) + field_if_set(
        "update"@,
        match o.update {
            Some(v) => Some(update_text(v)),
            None => None,
        },
    ) + field_if_set(
        "fetchRecurseSubmodules"@,
        match o.fetch_recurse {
            Some(v) => Some(fetch_text(v)),
            None => None,
        },
    ) + field_if_set(
        "shallow"@,
        if o.shallow {
            Some("true"@)
        } else {
            None
        },
    )
}

/// The models of a list of fields.
pub open spec fn field_views(v: Seq<(&'static str, String)>) -> Seq<(Seq<char>, Seq<char>)> {
    v.map_values(|p: (&'static str, String)| (p.0@, p.1@))
}

/// Push `(key, t)` when `v` is a nonempty text `t`.
fn push_field(out: &mut Vec<(&'static str, String)>, key: &'static str, v: Option<String>)
    ensures
        field_views(final(out)@) == field_views(old(out)@) + field_if_set(
            key@,
            match v {
                Some(t) => Some(t@),
                None => None,
            },
        ),
{
    match v {
        Some(t) => {
            if t.unicode_len() > 0 {
                let ghost tv = t@;
                out.push((key, t));
                proof {
                    assert(field_views(out@) =~= field_views(old(out)@) + seq![(key@, tv)]);
                }
            } else {
                proof {
                    assert(field_views(out@) =~= field_views(old(out)@) + Seq::empty());
                }
            }
        },
        None => {
            proof {
                assert(field_views(out@) =~= field_views(old(out)@) + Seq::empty());
            }
        },
    }
}

/// The `.gitmodules` fields written after adding a submodule (see [`added_fields`]).
pub fn added_gitmodules_fields(opts: &SubmoduleAddOptions) -> (r: Vec<(&'static str, String)>)
    ensures
        field_views(r@) == added_fields(*opts),
{
    let mut out: Vec<(&'static str, String)> = Vec::new();
    proof {
        assert(field_views(out@) =~= Seq::empty());
    }
    let branch = match &opts.branch {
        Some(b) => Some(b.display_text()),
        None => None,
    };
    push_field(&mut out, "branch", branch);
    let ghost a = field_views(out@);
    let ignore = match opts.ignore {
        Some(v) => Some(v.display_text()),
        None => None,
    };
    push_field(&mut out, "ignore", ignore);
    let ghost b = field_views(out@);
    let update = match opts.update {
        Some(v) => Some(v.display_text()),
        None => None,
    };
    push_field(&mut out, "update", update);
    let ghost c = field_views(out@);
    let fetch = match opts.fetch_recurse {
        Some(v) => Some(v.display_text()),
        None => None,
    };
    push_field(&mut out, "fetchRecurseSubmodules", fetch);
    let ghost d = field_views(out@);
    let shallow = if opts.shallow {
        Some(owned("true"))
    } else {
        None
    };
    push_field(&mut out, "shallow", shallow);
    proof {
        assert(Seq::<(Seq<char>, Seq<char>)>::empty() + a =~= a);
        assert(field_views(out@) =~= added_fields(*opts));
    }
    out
}

/// The models of a list of commands.
pub open spec fn command_views(v: Seq<Vec<String>>) -> Seq<Seq<Seq<char>>> {
    v.map_values(|c: Vec<String>| texts(c@))
}

/// The git commands (run in the superproject) that remove the submodule registered as
/// `name` at the literal pathspec `pathspec`. A gitlink the parent's `HEAD` records
/// (`committed`) goes with one `git rm` (forced when asked). A newly added one, which
/// `git rm` refuses as staged, is deinitialized, removed from the index only, and its
/// `.gitmodules` section removed and staged.
pub open spec fn removal_commands(committed: bool, force: bool, name: Seq<char>, pathspec: Seq<char>) -> Seq<
    Seq<Seq<char>>,
> {
    if committed {
        seq![seq!["rm"@] + when(force, "--force"@) + seq!["--"@, pathspec]]
    } else {
        seq![
            seq!["submodule"@, "deinit"@, "--force"@, "--"@, pathspec],
            seq!["rm"@, "--cached"@, "--"@, pathspec],
            seq!["config"@, "--file"@, ".gitmodules"@, "--remove-section"@, "submodule."@ + name],
            seq!["add"@, "--"@, ".gitmodules"@],
        ]
    }
}

/// Append the argument `a` to a command.
fn arg(v: &mut Vec<String>, a: &str)
    ensures
        texts(final(v)@) == texts(old(v)@).push(a@),
{
    v.push(owned(a));
    proof {
        assert(texts(v@) =~= texts(old(v)@).push(a@));
    }
}

/// The git commands that remove a registered submodule (see [`removal_commands`]).
pub fn removal_command_args(committed: bool, force: bool, name: &str, pathspec: &str) -> (r: Vec<Vec<String>>)
    ensures
        command_views(r@) == removal_commands(committed, force, name@, pathspec@),
{
    let mut out: Vec<Vec<String>> = Vec::new();
    if committed {
        let mut c: Vec<String> = Vec::new();
        arg(&mut c, "rm");
        if force {
            arg(&mut c, "--force");
        }
        arg(&mut c, "--");
        arg(&mut c, pathspec);
        proof {
            assert(texts(c@) =~= seq!["rm"@] + when(force, "--force"@) + seq!["--"@, pathspec@]);
        }
        out.push(c);
        proof {
            assert(command_views(out@) =~= removal_commands(committed, force, name@, pathspec@));
        }
    } else {
        let mut section = owned("submodule.");
        section.append(name);
        let mut c0: Vec<String> = Vec::new();
        arg(&mut c0, "submodule");
        arg(&mut c0, "deinit");
        arg(&mut c0, "--force");
        arg(&mut c0, "--");
        arg(&mut c0, pathspec);
        let mut c1: Vec<String> = Vec::new();
        arg(&mut c1, "rm");
        arg(&mut c1, "--cached");
        arg(&mut c1, "--");
        arg(&mut c1, pathspec);
        let mut c2: Vec<String> = Vec::new();
        arg(&mut c2, "config");
        arg(&mut c2, "--file");
        arg(&mut c2, ".gitmodules");
        arg(&mut c2, "--remove-section");
        arg(&mut c2, section.as_str());
        let mut c3: Vec<String> = Vec::new();
        arg(&mut c3, "add");
        arg(&mut c3, "--");
        arg(&mut c3, ".gitmodules");
        proof {
            assert(texts(c0@) =~= seq!["submodule"@, "deinit"@, "--force"@, "--"@, pathspec@]);
            assert(texts(c1@) =~= seq!["rm"@, "--cached"@, "--"@, pathspec@]);
            assert(texts(c2@) =~= seq!["config"@, "--file"@, ".gitmodules"@, "--remove-section"@, "submodule."@ + name@]);
            assert(texts(c3@) =~= seq!["add"@, "--"@, ".gitmodules"@]);
        }
        out.push(c0);
        out.push(c1);
        out.push(c2);
        out.push(c3);
        proof {
            assert(command_views(out@) =~= removal_commands(committed, force, name@, pathspec@));
        }
    }
    out
}

} // verus!
