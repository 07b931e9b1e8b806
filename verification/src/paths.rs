//! Submodule paths as sequences of components, and when two managed paths collide.
use vstd::prelude::*;

use crate::text::{has_char, push_char};

verus! {

/// The pieces of `s` between its `/` separators (empty pieces included).
pub open spec fn split_slashes(s: Seq<char>) -> Seq<Seq<char>>
    decreases s.len(),
{
    if s.len() == 0 {
        seq![s]
    } else if s[0] == '/' {
        seq![Seq::<char>::empty()] + split_slashes(s.drop_first())
    } else {
        let rest = split_slashes(s.drop_first());
        rest.update(0, seq![s[0]] + rest[0])
    }
}

/// The components of a `/`-separated path, as `Path::components` gives them: `/` for a
/// root, `.` for a leading current directory, then every piece that is neither empty
/// nor `.`.
pub open spec fn components_of(s: Seq<char>) -> Seq<Seq<char>> {
    let head: Seq<Seq<char>> = if s.len() > 0 && s[0] == '/' {
        seq![seq!['/']]
    } else if s.len() > 0 && s[0] == '.' && (s.len() == 1 || s[1] == '/') {
        seq![seq!['.']]
    } else {
        Seq::empty()
    };
    head + split_slashes(s).filter(|p: Seq<char>| p.len() > 0 && p != seq!['.'])
}

/// `s` in lower case, as `str::to_lowercase` gives it.
pub uninterp spec fn lowercase(s: Seq<char>) -> Seq<char>;

/// std's `str::to_lowercase`. Stated: the result is [`lowercase`] of the argument;
/// which characters it maps to what is not stated.
#[verifier::external_body]
fn to_lower(s: &str) -> (r: String)
    ensures
        r@ == lowercase(s@),
{
    s.to_lowercase()
}

/// The lower-cased components of a path.
pub open spec fn folded(s: Seq<char>) -> Seq<Seq<char>> {
    components_of(s).map_values(|c: Seq<char>| lowercase(c))
}

/// Whether two paths collide: the lower-cased components of one are a prefix of the
/// other's (so one path is the other, or lies inside it, ignoring case).
pub open spec fn collide(a: Seq<char>, b: Seq<char>) -> bool {
    folded(b).is_prefix_of(folded(a)) || folded(a).is_prefix_of(folded(b))
}

proof fn lemma_split_nonempty(s: Seq<char>)
    ensures
        split_slashes(s).len() >= 1,
    decreases s.len(),
{
    if s.len() > 0 {
        lemma_split_nonempty(s.drop_first());
    }
}

/// The pieces of a path between its separators (see [`split_slashes`]).
fn split_pieces(s: &str) -> (r: Vec<String>)
    ensures
        crate::config::texts(r@) == split_slashes(s@),
{
    let n = s.unicode_len();
    let mut done: Vec<String> = Vec::new();
    let mut current = String::new();
    let mut i: usize = 0;
    proof {
        lemma_split_nonempty(s@);
        assert(s@.subrange(0, n as int) =~= s@);
        let rest = split_slashes(s@);
        assert(rest.update(0, Seq::<char>::empty() + rest[0]) =~= rest);
        assert(crate::config::texts(done@) + rest =~= rest);
    }
    while i < n
        invariant
            n == s@.len(),
            i <= n,
            ({
                let rest = split_slashes(s@.subrange(i as int, n as int));
                split_slashes(s@) == crate::config::texts(done@) + rest.update(0, current@ + rest[0])
            }),
        decreases n - i,
    {
        let c = s.get_char(i);
        let ghost tail = s@.subrange(i as int, n as int);
        let ghost next = s@.subrange(i + 1, n as int);
        proof {
            assert(tail.drop_first() =~= next);
            assert(tail[0] == c);
            lemma_split_nonempty(next);
        }
        if c == '/' {
            let ghost before = crate::config::texts(done@);
            let ghost cur = current@;
            done.push(current);
            current = String::new();
            proof {
                let rest = split_slashes(next);
                assert(crate::config::texts(done@) =~= before.push(cur));
                assert(split_slashes(tail) =~= seq![Seq::<char>::empty()] + rest);
                assert(split_slashes(tail).update(0, cur + split_slashes(tail)[0]) =~= seq![cur] + rest);
                assert(rest.update(0, current@ + rest[0]) =~= rest);
                assert(before + (seq![cur] + rest) =~= before.push(cur) + rest);
            }
        } else {
            let ghost cur = current@;
            push_char(&mut current, c);
            proof {
                let rest = split_slashes(next);
                assert(split_slashes(tail) == rest.update(0, seq![c] + rest[0]));
                assert(current@ =~= cur.push(c));
                assert(split_slashes(tail)[0] == seq![c] + rest[0]);
                assert(cur + (seq![c] + rest[0]) =~= current@ + rest[0]);
                assert(split_slashes(tail).update(0, cur + split_slashes(tail)[0]) =~= rest.update(
                    0,
                    current@ + rest[0],
                ));
            }
        }
        i = i + 1;
    }
    let ghost before = crate::config::texts(done@);
    let ghost cur = current@;
    done.push(current);
    proof {
        assert(s@.subrange(n as int, n as int) =~= Seq::<char>::empty());
        let rest = split_slashes(Seq::<char>::empty());
        assert(rest =~= seq![Seq::<char>::empty()]);
        assert(rest.update(0, cur + rest[0]) =~= seq![cur]);
        assert(crate::config::texts(done@) =~= before.push(cur));
    }
    done
}

/// The components of a path (see [`components_of`]).
fn components(s: &str) -> (r: Vec<String>)
    ensures
        crate::config::texts(r@) == components_of(s@),
{
    let n = s.unicode_len();
    let mut r: Vec<String> = Vec::new();
    if n > 0 && s.get_char(0) == '/' {
        r.push(crate::text::owned("/"));
        proof {
            reveal_strlit("/");
            assert("/"@ =~= seq!['/']);
        }
    } else if n > 0 && s.get_char(0) == '.' && (n == 1 || s.get_char(1) == '/') {
        r.push(crate::text::owned("."));
        proof {
            reveal_strlit(".");
            assert("."@ =~= seq!['.']);
        }
    }
    let ghost head = crate::config::texts(r@);
    let pieces = split_pieces(s);
    let ghost pred = |p: Seq<char>| p.len() > 0 && p != seq!['.'];
    let ghost ps = crate::config::texts(pieces@);
    let mut i: usize = 0;
    proof {
        assert(ps.subrange(0, 0).filter(pred) =~= Seq::<Seq<char>>::empty()) by {
            reveal(Seq::filter);
        }
        assert(head + Seq::<Seq<char>>::empty() =~= head);
    }
    while i < pieces.len()
        invariant
            i <= pieces@.len(),
            ps == crate::config::texts(pieces@),
            pred == (|p: Seq<char>| p.len() > 0 && p != seq!['.']),
            crate::config::texts(r@) == head + ps.subrange(0, i as int).filter(pred),
        decreases pieces@.len() - i,
    {
        proof {
            assert(ps.subrange(0, i + 1) =~= ps.subrange(0, i as int).push(ps[i as int]));
            ps.subrange(0, i as int).lemma_filter_push(ps[i as int], pred);
            reveal_strlit(".");
            assert("."@ =~= seq!['.']);
        }
        let p = pieces[i].as_str();
        if p.unicode_len() > 0 && !crate::text::str_eq(p, ".") {
            let ghost before = crate::config::texts(r@);
            r.push(pieces[i].clone());
            proof {
                assert(crate::config::texts(r@) =~= before.push(ps[i as int]));
            }
        }
        i = i + 1;
    }
    proof {
        assert(ps.subrange(0, pieces@.len() as int) =~= ps);
    }
    r
}

/// The lower-cased components of a path.
fn folded_components(s: &str) -> (r: Vec<String>)
    ensures
        crate::config::texts(r@) == folded(s@),
{
    let comps = components(s);
    let ghost cs = crate::config::texts(comps@);
    let ghost low = |c: Seq<char>| lowercase(c);
    let mut r: Vec<String> = Vec::new();
    let mut i: usize = 0;
    proof {
        assert(crate::config::texts(r@) =~= cs.subrange(0, 0).map_values(low));
    }
    while i < comps.len()
        invariant
            i <= comps@.len(),
            cs == crate::config::texts(comps@),
            low == (|c: Seq<char>| lowercase(c)),
            crate::config::texts(r@) == cs.subrange(0, i as int).map_values(low),
        decreases comps@.len() - i,
    {
        let ghost before = crate::config::texts(r@);
        let l = to_lower(comps[i].as_str());
        r.push(l);
        proof {
            assert(crate::config::texts(r@) =~= before.push(l@));
            assert(cs.subrange(0, i + 1).map_values(low) =~= cs.subrange(0, i as int).map_values(
                low,
            ).push(low(cs[i as int])));
        }
        i = i + 1;
    }
    proof {
        assert(cs.subrange(0, comps@.len() as int) =~= cs);
        assert(cs.map_values(low) =~= folded(s@));
    }
    r
}

/// Whether the first list of components starts with the second.
fn starts_with_all(a: &Vec<String>, b: &Vec<String>) -> (r: bool)
    ensures
        r == crate::config::texts(b@).is_prefix_of(crate::config::texts(a@)),
{
    if b.len() > a.len() {
        return false;
    }
    let mut i: usize = 0;
    while i < b.len()
        invariant
            b@.len() <= a@.len(),
            i <= b@.len(),
            forall|j: int| 0 <= j < i ==> a@[j]@ == b@[j]@,
        decreases b@.len() - i,
    {
        if !crate::text::str_eq(a[i].as_str(), b[i].as_str()) {
            proof {
                assert(crate::config::texts(a@)[i as int] != crate::config::texts(b@)[i as int]);
            }
            return false;
        }
        i = i + 1;
    }
    true
}

/// Whether two managed paths collide or overlap, ignoring case (see [`collide`]).
pub fn paths_collide(left: &str, right: &str) -> (r: bool)
    ensures
        r == collide(left@, right@),
{
    let l = folded_components(left);
    let r = folded_components(right);
    starts_with_all(&l, &r) || starts_with_all(&r, &l)
}

/// Collision is symmetric.
pub proof fn lemma_collide_symmetric(a: Seq<char>, b: Seq<char>)
    ensures
        collide(a, b) == collide(b, a),
{
}

/// A path collides with itself.
pub proof fn lemma_collide_reflexive(a: Seq<char>)
    ensures
        collide(a, a),
{
    assert(folded(a).is_prefix_of(folded(a)));
}

/// The paths (second components) of a list of named paths.
pub open spec fn path_views(v: Seq<(String, String)>) -> Seq<Seq<char>> {
    v.map_values(|p: (String, String)| p.1@)
}

/// `(i, j)` is the first pair of positions, in order, whose paths collide.
pub open spec fn first_collision(ps: Seq<Seq<char>>, i: int, j: int) -> bool {
    &&& 0 <= i < j < ps.len()
    &&& collide(ps[i], ps[j])
    &&& forall|a: int, b: int| 0 <= a < i && a < b < ps.len() ==> !collide(ps[a], ps[b])
    &&& forall|b: int| i < b < j ==> !collide(ps[i], ps[b])
}

/// The first pair of managed paths (in declaration order) that collide or overlap, or
/// `None` when no two do.
pub fn find_path_collision(paths: &Vec<(String, String)>) -> (r: Option<(usize, usize)>)
    ensures
        r is None <==> forall|a: int, b: int|
            0 <= a < b < paths@.len() ==> !collide(path_views(paths@)[a], path_views(paths@)[b]),
        r matches Some((i, j)) ==> first_collision(path_views(paths@), i as int, j as int),
{
    let ghost ps = path_views(paths@);
    let n = paths.len();
    let mut i: usize = 0;
    while i < n
        invariant
            n == paths@.len(),
            ps == path_views(paths@),
            i <= n,
            forall|a: int, b: int| 0 <= a < i && a < b < n ==> !collide(ps[a], ps[b]),
        decreases n - i,
    {
        let mut j: usize = i + 1;
        while j < n
            invariant
                n == paths@.len(),
                ps == path_views(paths@),
                i < n,
                i + 1 <= j <= n,
                forall|a: int, b: int| 0 <= a < i && a < b < n ==> !collide(ps[a], ps[b]),
                forall|b: int| i < b < j ==> !collide(ps[i as int], ps[b]),
            decreases n - j,
        {
            if paths_collide(paths[i].1.as_str(), paths[j].1.as_str()) {
                proof {
                    assert(ps[i as int] == paths@[i as int].1@);
                    assert(ps[j as int] == paths@[j as int].1@);
                }
                return Some((i, j));
            }
            proof {
                assert(ps[i as int] == paths@[i as int].1@);
                assert(ps[j as int] == paths@[j as int].1@);
            }
            j = j + 1;
        }
        i = i + 1;
    }
    None
}

/// Whether `name` can never name a submodule: the reserved names of `submod.toml`'s top
/// level (`defaults`, `schema_version`), and names holding a NUL, a line break, a carriage
/// return or a backslash.
pub open spec fn reserved_or_unsafe_name(name: Seq<char>) -> bool {
    name == "defaults"@ || name == "schema_version"@ || has_char(name, '\0') || has_char(name, '\n')
        || has_char(name, '\r') || has_char(name, '\\')
}

/// Whether `name` can never name a submodule (see [`reserved_or_unsafe_name`]).
pub fn is_reserved_or_unsafe_name(name: &str) -> (r: bool)
    ensures
        r == reserved_or_unsafe_name(name@),
{
    crate::text::str_eq(name, "defaults") || crate::text::str_eq(name, "schema_version")
        || crate::text::contains_char(name, '\0') || crate::text::contains_char(name, '\n')
        || crate::text::contains_char(name, '\r') || crate::text::contains_char(name, '\\')
}

/// The normal pieces of a path: its pieces between `/` that are neither empty nor `.`.
pub open spec fn normal_pieces(s: Seq<char>) -> Seq<Seq<char>> {
    split_slashes(s).filter(|p: Seq<char>| p.len() > 0 && p != seq!['.'])
}

/// Why a path cannot be a submodule's checkout path.
#[derive(Debug, Clone, Copy, PartialEq, Eq, Structural)]
pub enum PathProblem {
    /// It starts at the root.
    Absolute,
    /// It has a `..` component, which climbs out of where it stands.
    Escapes,
    /// It has no normal component (it is empty, or `.`).
    Empty,
    /// It has a `.git` component (any ASCII case): git's own directory.
    GitDir,
}

/// The problem with a submodule checkout path, if any, in this order: rooted, a `..`
/// component, no normal component, a `.git` component.
pub open spec fn path_problem(s: Seq<char>) -> Option<PathProblem> {
    let ps = normal_pieces(s);
    if s.len() > 0 && s[0] == '/' {
        Some(PathProblem::Absolute)
    } else if exists|i: int| 0 <= i < ps.len() && ps[i] == ".."@ {
        Some(PathProblem::Escapes)
    } else if ps.len() == 0 {
        Some(PathProblem::Empty)
    } else if exists|i: int|
        0 <= i < ps.len() && crate::gitconfig::eq_ignore_ascii_case(ps[i], ".git"@) {
        Some(PathProblem::GitDir)
    } else {
        None
    }
}

/// The normal form of a checkout path: its normal pieces joined with `/`.
pub open spec fn normalized_path(s: Seq<char>) -> Seq<char> {
    crate::plan::join(normal_pieces(s), "/"@)
}

/// The message of a path problem.
pub open spec fn path_problem_text(p: PathProblem) -> Seq<char> {
    match p {
        PathProblem::Absolute => "submodule path must be relative"@,
        PathProblem::Escapes => "submodule path escapes the repository"@,
        PathProblem::Empty => "submodule path cannot be empty"@,
        PathProblem::GitDir => "submodule path cannot point into .git"@,
    }
}

impl PathProblem {
    /// The message of the problem (see [`path_problem_text`]).
    pub fn message(&self) -> (r: String)
        ensures
            r@ == path_problem_text(*self),
    {
        match self {
            PathProblem::Absolute => crate::text::owned("submodule path must be relative"),
            PathProblem::Escapes => crate::text::owned("submodule path escapes the repository"),
            PathProblem::Empty => crate::text::owned("submodule path cannot be empty"),
            PathProblem::GitDir => crate::text::owned("submodule path cannot point into .git"),
        }
    }
}

/// The normal pieces of a path (see [`normal_pieces`]).
fn normal_piece_list(s: &str) -> (r: Vec<String>)
    ensures
        crate::config::texts(r@) == normal_pieces(s@),
{
    let pieces = split_pieces(s);
    let ghost pred = |p: Seq<char>| p.len() > 0 && p != seq!['.'];
    let ghost ps = crate::config::texts(pieces@);
    let mut r: Vec<String> = Vec::new();
    let mut i: usize = 0;
    proof {
        assert(ps.subrange(0, 0).filter(pred) =~= Seq::<Seq<char>>::empty()) by {
            reveal(Seq::filter);
        }
        assert(crate::config::texts(r@) =~= Seq::<Seq<char>>::empty());
    }
    while i < pieces.len()
        invariant
            i <= pieces@.len(),
            ps == crate::config::texts(pieces@),
            ps == split_slashes(s@),
            pred == (|p: Seq<char>| p.len() > 0 && p != seq!['.']),
            crate::config::texts(r@) == ps.subrange(0, i as int).filter(pred),
        decreases pieces@.len() - i,
    {
        proof {
            assert(ps.subrange(0, i + 1) =~= ps.subrange(0, i as int).push(ps[i as int]));
            ps.subrange(0, i as int).lemma_filter_push(ps[i as int], pred);
            reveal_strlit(".");
            assert("."@ =~= seq!['.']);
        }
        let p = pieces[i].as_str();
        if p.unicode_len() > 0 && !crate::text::str_eq(p, ".") {
            let ghost before = crate::config::texts(r@);
            r.push(pieces[i].clone());
            proof {
                assert(crate::config::texts(r@) =~= before.push(ps[i as int]));
            }
        }
        i = i + 1;
    }
    proof {
        assert(ps.subrange(0, pieces@.len() as int) =~= ps);
    }
    r
}

/// The normal form of a submodule checkout path (see [`normalized_path`]), or its problem
/// (see [`path_problem`]).
pub fn normalize_submodule_path(path: &str) -> (r: Result<String, PathProblem>)
    ensures
        match r {
            Ok(t) => path_problem(path@) is None && t@ == normalized_path(path@),
            Err(p) => path_problem(path@) == Some(p),
        },
{
    if path.unicode_len() > 0 && path.get_char(0) == '/' {
        return Err(PathProblem::Absolute);
    }
    let ps = normal_piece_list(path);
    let ghost v = crate::config::texts(ps@);
    let mut i: usize = 0;
    while i < ps.len()
        invariant
            i <= ps@.len(),
            v == crate::config::texts(ps@),
            v == normal_pieces(path@),
            !(path@.len() > 0 && path@[0] == '/'),
            forall|j: int| 0 <= j < i ==> v[j] != ".."@,
        decreases ps@.len() - i,
    {
        if crate::text::str_eq(ps[i].as_str(), "..") {
            proof {
                assert(v[i as int] == ps@[i as int]@);
            }
            return Err(PathProblem::Escapes);
        }
        proof {
            assert(v[i as int] == ps@[i as int]@);
        }
        i = i + 1;
    }
    if ps.len() == 0 {
        return Err(PathProblem::Empty);
    }
    let mut k: usize = 0;
    while k < ps.len()
        invariant
            k <= ps@.len(),
            v == crate::config::texts(ps@),
            v == normal_pieces(path@),
            !(path@.len() > 0 && path@[0] == '/'),
            v.len() > 0,
            forall|j: int| 0 <= j < v.len() ==> v[j] != ".."@,
            forall|j: int| 0 <= j < k ==> !crate::gitconfig::eq_ignore_ascii_case(v[j], ".git"@),
        decreases ps@.len() - k,
    {
        let is_git = crate::gitconfig::eq_ignore_case_from(ps[k].as_str(), 0, ".git");
        proof {
            assert(v[k as int] == ps@[k as int]@);
            assert(ps@[k as int]@.subrange(0, ps@[k as int]@.len() as int) =~= ps@[k as int]@);
        }
        if is_git {
            return Err(PathProblem::GitDir);
        }
        k = k + 1;
    }
    Ok(crate::plan::join_texts(&ps, "/"))
}

} // verus!
