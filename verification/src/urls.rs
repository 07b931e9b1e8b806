//! Submodule URLs as git resolves them: which URLs are relative, and how a relative
//! submodule URL (`./x`, `../x`) is resolved against the superproject's remote URL.
use vstd::prelude::*;

use crate::text::{owned, push_char};

verus! {

/// A path separator in a URL or path (either spelling).
pub open spec fn is_sep(c: char) -> bool {
    c == '/' || c == '\\'
}

/// Whether `v` starts with the component `.` (or `..` when `parent`) followed by a
/// separator.
pub open spec fn dot_component(v: Seq<char>, parent: bool) -> bool {
    let p: Seq<char> = if parent {
        seq!['.', '.']
    } else {
        seq!['.']
    };
    v.len() > p.len() && v.subrange(0, p.len() as int) == p && is_sep(v[p.len() as int])
}

/// Whether `pat` occurs in `v`.
pub open spec fn contains_seq(v: Seq<char>, pat: Seq<char>) -> bool {
    exists|i: int| 0 <= i && i + pat.len() <= v.len() && #[trigger] v.subrange(i, i + pat.len()) == pat
}

/// The index of the first `c` in `v`, or -1.
pub open spec fn first_index_of(v: Seq<char>, c: char) -> int
    decreases v.len(),
{
    if v.len() == 0 {
        -1
    } else if v[0] == c {
        0
    } else {
        let r = first_index_of(v.drop_first(), c);
        if r < 0 {
            -1
        } else {
            r + 1
        }
    }
}

/// The index of the last separator in `v`, or -1.
pub open spec fn last_sep_index(v: Seq<char>) -> int
    decreases v.len(),
{
    if v.len() == 0 {
        -1
    } else if is_sep(v.last()) {
        v.len() - 1
    } else {
        last_sep_index(v.drop_last())
    }
}

/// The index of the last `c` in `v`, or -1.
pub open spec fn last_char_index(v: Seq<char>, c: char) -> int
    decreases v.len(),
{
    if v.len() == 0 {
        -1
    } else if v.last() == c {
        v.len() - 1
    } else {
        last_char_index(v.drop_last(), c)
    }
}

/// Whether a remote URL is a relative path: it does not start with a separator, has
/// no `://`, and any `:` in it comes after a separator (so it is no `host:path`).
pub open spec fn url_is_relative(v: Seq<char>) -> bool {
    let colon = first_index_of(v, ':');
    !(v.len() > 0 && is_sep(v[0])) && !contains_seq(v, seq![':', '/', '/']) && (colon < 0
        || exists|i: int| 0 <= i < colon && is_sep(#[trigger] v[i]))
}

/// `v` without its trailing separators.
pub open spec fn trim_end_seps(v: Seq<char>) -> Seq<char>
    decreases v.len(),
{
    if v.len() > 0 && is_sep(v.last()) {
        trim_end_seps(v.drop_last())
    } else {
        v
    }
}

/// The state of stripping leading `./` and `../` components off a relative URL: the
/// base (with one component removed per `../`), whether the last removal was at a `:`,
/// and the rest of the relative URL. `None` when a `../` cannot be applied.
pub open spec fn strip_steps(base: Seq<char>, colon: bool, rest: Seq<char>, base_is_relative: bool) -> Option<
    (Seq<char>, bool, Seq<char>),
>
    decreases rest.len(),
{
    if dot_component(rest, true) {
        let next = rest.subrange(3, rest.len() as int);
        let s = last_sep_index(base);
        let c = last_char_index(base, ':');
        if 0 <= s < base.len() {
            strip_steps(base.subrange(0, s), colon, next, base_is_relative)
        } else if 0 <= c < base.len() {
            strip_steps(base.subrange(0, c), true, next, base_is_relative)
        } else if base_is_relative || base == seq!['.'] {
            None
        } else {
            strip_steps(seq!['.'], colon, next, base_is_relative)
        }
    } else if dot_component(rest, false) {
        strip_steps(base, colon, rest.subrange(2, rest.len() as int), base_is_relative)
    } else {
        Some((base, colon, rest))
    }
}

/// `v` with every `\` replaced by `/`.
pub open spec fn forward_slashes(v: Seq<char>) -> Seq<char> {
    v.map_values(|c: char| if c == '\\' { '/' } else { c })
}

/// Why a relative URL cannot be resolved.
#[derive(Debug, Clone, Copy, PartialEq, Eq, Structural)]
pub enum RelativeUrlError {
    /// The remote URL is empty (after trailing separators are removed).
    EmptyRemote,
    /// A `../` would strip a component the remote URL does not have.
    CannotStrip,
}

/// Git's `relative_url()`: a URL that does not start with `./` or `../` is returned as
/// it is; otherwise it is resolved against the remote URL. A relative remote is
/// resolved as a path (and prefixed with `up_path` when one is given); a result with
/// `://` is spelled with forward slashes.
pub open spec fn resolved_url(
    remote: Seq<char>,
    relative: Seq<char>,
    up_path: Option<Seq<char>>,
) -> Result<Seq<char>, RelativeUrlError> {
    if !dot_component(relative, false) && !dot_component(relative, true) {
        Ok(relative)
    } else {
        let base_is_relative = url_is_relative(remote);
        let base0 = trim_end_seps(remote);
        if base0.len() == 0 {
            Err(RelativeUrlError::EmptyRemote)
        } else {
            let base1 = if base_is_relative && !dot_component(base0, false) && !dot_component(
                base0,
                true,
            ) {
                seq!['.', '/'] + base0
            } else {
                base0
            };
            match strip_steps(base1, false, relative, base_is_relative) {
                None => Err(RelativeUrlError::CannotStrip),
                Some((base, colon, rest)) => {
                    let r0 = base.push(if colon {
                        ':'
                    } else {
                        '/'
                    }) + rest;
                    let r1 = if is_sep(relative.last()) {
                        r0.drop_last()
                    } else {
                        r0
                    };
                    let r2 = if r1.len() >= 2 && r1[0] == '.' && r1[1] == '/' {
                        r1.subrange(2, r1.len() as int)
                    } else {
                        r1
                    };
                    let r3 = match up_path {
                        Some(up) => if base_is_relative {
                            up + r2
                        } else {
                            r2
                        },
                        None => r2,
                    };
                    Ok(
                        if contains_seq(r3, seq![':', '/', '/']) {
                            forward_slashes(r3)
                        } else {
                            r3
                        },
                    )
                },
            }
        }
    }
}

fn is_sep_exec(c: char) -> (r: bool)
    ensures
        r == is_sep(c),
{
    c == '/' || c == '\\'
}

/// Whether `value` starts with `./` (or `../` when `parent`), either separator.
pub fn starts_dot_component(value: &str, parent: bool) -> (r: bool)
    ensures
        r == dot_component(value@, parent),
{
    let n = value.unicode_len();
    let p: usize = if parent {
        2
    } else {
        1
    };
    if n <= p {
        return false;
    }
    let dots = value.get_char(0) == '.' && (!parent || value.get_char(1) == '.');
    proof {
        let want: Seq<char> = if parent {
            seq!['.', '.']
        } else {
            seq!['.']
        };
        if dots {
            assert(value@.subrange(0, p as int) =~= want);
        } else {
            if parent && value@[0] == '.' {
                assert(value@.subrange(0, p as int)[1] != want[1]);
            } else {
                assert(value@.subrange(0, p as int)[0] != want[0]);
            }
        }
    }
    dots && is_sep_exec(value.get_char(p))
}

/// Whether `pat` occurs in `v` (exact characters).
fn contains_text(v: &str, pat: &str) -> (r: bool)
    ensures
        r == contains_seq(v@, pat@),
{
    let n = v.unicode_len();
    let m = pat.unicode_len();
    if m > n {
        proof {
            assert forall|i: int| 0 <= i && i + m <= n implies #[trigger] v@.subrange(i, i + m)
                != pat@ by {}
        }
        return false;
    }
    let mut i: usize = 0;
    while i <= n - m
        invariant
            n == v@.len(),
            m == pat@.len(),
            m <= n,
            i <= n - m + 1,
            forall|k: int| 0 <= k < i ==> #[trigger] v@.subrange(k, k + m) != pat@,
        decreases n - i,
    {
        let mut j: usize = 0;
        let mut same = true;
        while j < m
            invariant
                n == v@.len(),
                m == pat@.len(),
                i + m <= n,
                j <= m,
                same == (forall|k: int| 0 <= k < j ==> v@[i + k] == pat@[k]),
            decreases m - j,
        {
            if v.get_char(i + j) != pat.get_char(j) {
                same = false;
            }
            j = j + 1;
        }
        if same {
            assert(v@.subrange(i as int, i + m) =~= pat@);
            return true;
        } else {
            proof {
                let k = choose|k: int| 0 <= k < m && v@[i + k] != pat@[k];
                assert(v@.subrange(i as int, i + m)[k] != pat@[k]);
            }
        }
        i = i + 1;
    }
    proof {
        assert forall|k: int| 0 <= k && k + m <= n implies #[trigger] v@.subrange(k, k + m)
            != pat@ by {
            assert(k < i);
        }
    }
    false
}

proof fn lemma_first_index(v: Seq<char>, c: char)
    ensures
        -1 <= first_index_of(v, c) < v.len(),
        first_index_of(v, c) >= 0 ==> v[first_index_of(v, c)] == c,
        forall|k: int| 0 <= k < v.len() && (first_index_of(v, c) < 0 || k < first_index_of(v, c))
            ==> v[k] != c,
    decreases v.len(),
{
    if v.len() > 0 && v[0] != c {
        lemma_first_index(v.drop_first(), c);
        assert forall|k: int| 0 <= k < v.len() && (first_index_of(v, c) < 0 || k < first_index_of(v, c)) implies v[k] != c by {
            if k > 0 {
                assert(v[k] == v.drop_first()[k - 1]);
            }
        }
    }
}

/// Whether a remote URL is a relative path (see [`url_is_relative`]).
pub fn remote_url_is_relative(value: &str) -> (r: bool)
    ensures
        r == url_is_relative(value@),
{
    let n = value.unicode_len();
    if n > 0 && is_sep_exec(value.get_char(0)) {
        return false;
    }
    if contains_text(value, "://") {
        proof {
            reveal_strlit("://");
            assert("://"@ =~= seq![':', '/', '/']);
        }
        return false;
    }
    proof {
        reveal_strlit("://");
        assert("://"@ =~= seq![':', '/', '/']);
        lemma_first_index(value@, ':');
    }
    let mut i: usize = 0;
    while i < n
        invariant
            n == value@.len(),
            i <= n,
            !(n > 0 && is_sep(value@[0])),
            !contains_seq(value@, seq![':', '/', '/']),
            forall|k: int| 0 <= k < i ==> value@[k] != ':' && !is_sep(value@[k]),
        decreases n - i,
    {
        let c = value.get_char(i);
        proof {
            lemma_first_index(value@, ':');
        }
        if c == ':' {
            proof {
                assert(first_index_of(value@, ':') == i);
                assert(!exists|k: int| 0 <= k < i && is_sep(#[trigger] value@[k]));
            }
            return false;
        }
        if is_sep_exec(c) {
            proof {
                let f = first_index_of(value@, ':');
                if f >= 0 {
                    assert(f > i);
                    assert(0 <= i < f && is_sep(value@[i as int]));
                }
            }
            return true;
        }
        i = i + 1;
    }
    proof {
        lemma_first_index(value@, ':');
    }
    true
}

/// The index of the last separator, if any.
fn rfind_sep(v: &str) -> (r: Option<usize>)
    ensures
        match r {
            Some(i) => i == last_sep_index(v@) && i < v@.len(),
            None => last_sep_index(v@) == -1,
        },
{
    let n = v.unicode_len();
    let mut j: usize = n;
    assert(v@.subrange(0, n as int) =~= v@);
    while j > 0
        invariant
            n == v@.len(),
            j <= n,
            last_sep_index(v@) == last_sep_index(v@.subrange(0, j as int)),
        decreases j,
    {
        proof {
            assert(v@.subrange(0, j as int).drop_last() =~= v@.subrange(0, j - 1));
        }
        if is_sep_exec(v.get_char(j - 1)) {
            return Some(j - 1);
        }
        j = j - 1;
    }
    None
}

/// The index of the last `c`, if any.
fn rfind_char(v: &str, c: char) -> (r: Option<usize>)
    ensures
        match r {
            Some(i) => i == last_char_index(v@, c) && i < v@.len(),
            None => last_char_index(v@, c) == -1,
        },
{
    let n = v.unicode_len();
    let mut j: usize = n;
    assert(v@.subrange(0, n as int) =~= v@);
    while j > 0
        invariant
            n == v@.len(),
            j <= n,
            last_char_index(v@, c) == last_char_index(v@.subrange(0, j as int), c),
        decreases j,
    {
        proof {
            assert(v@.subrange(0, j as int).drop_last() =~= v@.subrange(0, j - 1));
        }
        if v.get_char(j - 1) == c {
            return Some(j - 1);
        }
        j = j - 1;
    }
    None
}

/// `v` without its trailing separators.
fn trim_end_separators(v: &str) -> (r: &str)
    ensures
        r@ == trim_end_seps(v@),
{
    let n = v.unicode_len();
    let mut j: usize = n;
    assert(v@.subrange(0, n as int) =~= v@);
    while j > 0 && is_sep_exec(v.get_char(j - 1))
        invariant
            n == v@.len(),
            j <= n,
            trim_end_seps(v@) == trim_end_seps(v@.subrange(0, j as int)),
        decreases j,
    {
        proof {
            assert(v@.subrange(0, j as int).drop_last() =~= v@.subrange(0, j - 1));
        }
        j = j - 1;
    }
    v.substring_char(0, j)
}

/// `s` with every `\` replaced by `/`.
pub(crate) fn to_forward_slashes(s: &str) -> (r: String)
    ensures
        r@ == forward_slashes(s@),
{
    let n = s.unicode_len();
    let mut out = String::new();
    let mut i: usize = 0;
    while i < n
        invariant
            n == s@.len(),
            i <= n,
            out@ == forward_slashes(s@.subrange(0, i as int)),
        decreases n - i,
    {
        let c = s.get_char(i);
        let ghost before = out@;
        push_char(&mut out, if c == '\\' { '/' } else { c });
        proof {
            assert(forward_slashes(s@.subrange(0, i + 1)) =~= forward_slashes(
                s@.subrange(0, i as int),
            ).push(if c == '\\' { '/' } else { c }));
        }
        i = i + 1;
    }
    proof {
        assert(s@.subrange(0, n as int) =~= s@);
    }
    out
}

/// Resolve a submodule URL against the superproject's remote URL as git's
/// `relative_url()` does (see [`resolved_url`]).
pub fn resolve_relative_submodule_url(
    remote_url: &str,
    relative_url: &str,
    up_path: Option<&str>,
) -> (r: Result<String, RelativeUrlError>)
    ensures
        match r {
            Ok(s) => resolved_url(
                remote_url@,
                relative_url@,
                match up_path {
                    Some(u) => Some(u@),
                    None => None,
                },
            ) == Ok::<Seq<char>, RelativeUrlError>(s@),
            Err(e) => resolved_url(
                remote_url@,
                relative_url@,
                match up_path {
                    Some(u) => Some(u@),
                    None => None,
                },
            ) == Err::<Seq<char>, RelativeUrlError>(e),
        },
{
    if !starts_dot_component(relative_url, false) && !starts_dot_component(relative_url, true) {
        return Ok(owned(relative_url));
    }
    let base_is_relative = remote_url_is_relative(remote_url);
    let trimmed = trim_end_separators(remote_url);
    if trimmed.unicode_len() == 0 {
        return Err(RelativeUrlError::EmptyRemote);
    }
    let mut base: String = if base_is_relative && !starts_dot_component(trimmed, false)
        && !starts_dot_component(trimmed, true) {
        let mut b = owned("./");
        b.append(trimmed);
        proof {
            reveal_strlit("./");
            assert(b@ =~= seq!['.', '/'] + trimmed@);
        }
        b
    } else {
        owned(trimmed)
    };
    let ghost start = base@;
    proof {
        reveal_strlit("./");
        reveal_strlit("://");
        reveal_strlit(".");
        assert("://"@ =~= seq![':', '/', '/']);
        assert("."@ =~= seq!['.']);
    }
    let mut remainder: &str = relative_url;
    let mut colon_separator = false;
    loop
        invariant
            strip_steps(start, false, relative_url@, base_is_relative) == strip_steps(
                base@,
                colon_separator,
                remainder@,
                base_is_relative,
            ),
            "."@ == seq!['.'],
            base_is_relative == url_is_relative(remote_url@),
            dot_component(relative_url@, false) || dot_component(relative_url@, true),
            trim_end_seps(remote_url@).len() > 0,
            start == if base_is_relative && !dot_component(trim_end_seps(remote_url@), false)
                && !dot_component(trim_end_seps(remote_url@), true) {
                seq!['.', '/'] + trim_end_seps(remote_url@)
            } else {
                trim_end_seps(remote_url@)
            },
        ensures
            strip_steps(start, false, relative_url@, base_is_relative) == Some(
                (base@, colon_separator, remainder@),
            ),
            base_is_relative == url_is_relative(remote_url@),
            dot_component(relative_url@, false) || dot_component(relative_url@, true),
            trim_end_seps(remote_url@).len() > 0,
            start == if base_is_relative && !dot_component(trim_end_seps(remote_url@), false)
                && !dot_component(trim_end_seps(remote_url@), true) {
                seq!['.', '/'] + trim_end_seps(remote_url@)
            } else {
                trim_end_seps(remote_url@)
            },
        decreases remainder@.len(),
    {
        let n = remainder.unicode_len();
        if starts_dot_component(remainder, true) {
            let next = remainder.substring_char(3, n);
            match rfind_sep(base.as_str()) {
                Some(sep) => {
                    base = owned(base.as_str().substring_char(0, sep));
                },
                None => match rfind_char(base.as_str(), ':') {
                    Some(colon) => {
                        base = owned(base.as_str().substring_char(0, colon));
                        colon_separator = true;
                    },
                    None => {
                        if base_is_relative || crate::text::str_eq(base.as_str(), ".") {
                            return Err(RelativeUrlError::CannotStrip);
                        }
                        base = owned(".");
                    },
                },
            }
            remainder = next;
        } else if starts_dot_component(remainder, false) {
            remainder = remainder.substring_char(2, n);
        } else {
            break;
        }
    }
    let ghost b = base@;
    let ghost rest = remainder@;
    assert(strip_steps(start, false, relative_url@, base_is_relative) == Some((b, colon_separator, rest)));
    let ghost r0 = b.push(if colon_separator { ':' } else { '/' }) + rest;
    let mut resolved = base;
    push_char(&mut resolved, if colon_separator { ':' } else { '/' });
    resolved.append(remainder);
    assert(resolved@ =~= r0);
    let rn = relative_url.unicode_len();
    if is_sep_exec(relative_url.get_char(rn - 1)) {
        let len = resolved.as_str().unicode_len();
        resolved = owned(resolved.as_str().substring_char(0, len - 1));
        assert(resolved@ =~= r0.drop_last());
    }
    let ghost r1 = resolved@;
    assert(r1 == if is_sep(relative_url@.last()) { r0.drop_last() } else { r0 });
    let len = resolved.as_str().unicode_len();
    if len >= 2 && resolved.as_str().get_char(0) == '.' && resolved.as_str().get_char(1) == '/' {
        resolved = owned(resolved.as_str().substring_char(2, len));
    }
    let ghost r2 = resolved@;
    assert(r2 == if r1.len() >= 2 && r1[0] == '.' && r1[1] == '/' {
        r1.subrange(2, r1.len() as int)
    } else {
        r1
    });
    if base_is_relative {
        match up_path {
            Some(up) => {
                let mut prefixed = owned(up);
                prefixed.append(resolved.as_str());
                resolved = prefixed;
            },
            None => {},
        }
    }
    let ghost r3 = resolved@;
    assert(r3 == match up_path {
        Some(up) => if base_is_relative { up@ + r2 } else { r2 },
        None => r2,
    });
    if contains_text(resolved.as_str(), "://") {
        resolved = to_forward_slashes(resolved.as_str());
    }
    Ok(resolved)
}

/// A URL that does not start with `./` or `../` is kept as it is, whatever the remote.
pub proof fn lemma_plain_url_kept(remote: Seq<char>, relative: Seq<char>, up: Option<Seq<char>>)
    requires
        !dot_component(relative, false),
        !dot_component(relative, true),
    ensures
        resolved_url(remote, relative, up) == Ok::<Seq<char>, RelativeUrlError>(relative),
{
}

/// The prefix that climbs out of a checkout applies only to a relative remote: against
/// an absolute remote, resolving with or without it gives the same result.
pub proof fn lemma_up_path_only_for_relative(remote: Seq<char>, relative: Seq<char>, up: Seq<char>)
    requires
        !url_is_relative(remote),
    ensures
        resolved_url(remote, relative, Some(up)) == resolved_url(remote, relative, None),
{
}

} // verus!
