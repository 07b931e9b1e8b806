//! Reading what git prints: the index record of a gitlink, and the `.gitmodules`
//! registration of a path among NUL-separated `key\nvalue` records.
use vstd::prelude::*;
use vstd::utf8::{decode_utf8, valid_utf8};

use crate::config::texts;
use crate::options::utf8_decode;
use crate::text::{is_ws, is_ws_exec, owned};

verus! {

/// The pieces of `s` between the elements that `is_sep` holds of (empty pieces
/// included; there is always at least one piece).
pub open spec fn pieces<T>(s: Seq<T>, is_sep: spec_fn(T) -> bool) -> Seq<Seq<T>>
    decreases s.len(),
{
    if s.len() == 0 {
        seq![Seq::<T>::empty()]
    } else {
        let p = pieces(s.drop_last(), is_sep);
        if is_sep(s.last()) {
            p.push(Seq::<T>::empty())
        } else {
            p.update(p.len() - 1, p.last().push(s.last()))
        }
    }
}

/// The nonempty pieces of `s`, in order.
pub open spec fn nonempty_pieces<T>(s: Seq<T>, is_sep: spec_fn(T) -> bool) -> Seq<Seq<T>> {
    pieces(s, is_sep).filter(|p: Seq<T>| p.len() > 0)
}

/// There is always a piece.
pub proof fn lemma_pieces_nonempty<T>(s: Seq<T>, is_sep: spec_fn(T) -> bool)
    ensures
        pieces(s, is_sep).len() >= 1,
    decreases s.len(),
{
    if s.len() > 0 {
        lemma_pieces_nonempty(s.drop_last(), is_sep);
    }
}

/// The models of a list of byte strings.
pub open spec fn byte_views(v: Seq<Vec<u8>>) -> Seq<Seq<u8>> {
    v.map_values(|x: Vec<u8>| x@)
}

/// Whether a byte is `sep`.
pub open spec fn is_byte(sep: u8) -> spec_fn(u8) -> bool {
    |x: u8| x == sep
}

/// The nonempty records of `b` separated by `sep` (see [`nonempty_pieces`]).
pub fn split_records(b: &[u8], sep: u8) -> (r: Vec<Vec<u8>>)
    ensures
        byte_views(r@) == nonempty_pieces(b@, is_byte(sep)),
{
    let ghost f = is_byte(sep);
    let ghost keep = |p: Seq<u8>| p.len() > 0;
    let mut done: Vec<Vec<u8>> = Vec::new();
    let mut cur: Vec<u8> = Vec::new();
    let mut i: usize = 0;
    proof {
        reveal(Seq::filter);
        assert(b@.subrange(0, 0) =~= Seq::<u8>::empty());
        assert(byte_views(done@) =~= Seq::<Seq<u8>>::empty());
    }
    while i < b.len()
        invariant
            i <= b@.len(),
            f == is_byte(sep),
            keep == (|p: Seq<u8>| p.len() > 0),
            pieces(b@.subrange(0, i as int), f).len() >= 1,
            byte_views(done@) == pieces(b@.subrange(0, i as int), f).drop_last().filter(keep),
            cur@ == pieces(b@.subrange(0, i as int), f).last(),
        decreases b@.len() - i,
    {
        let x = b[i];
        let ghost pre = b@.subrange(0, i as int);
        let ghost p = pieces(pre, f);
        proof {
            assert(b@.subrange(0, i + 1).drop_last() =~= pre);
            assert(b@.subrange(0, i + 1).last() == x);
            lemma_pieces_nonempty(b@.subrange(0, i + 1), f);
        }
        if x == sep {
            proof {
                assert(p.drop_last().push(p.last()) =~= p);
                p.drop_last().lemma_filter_push(p.last(), keep);
                assert(pieces(b@.subrange(0, i + 1), f).drop_last() =~= p);
            }
            if cur.len() > 0 {
                let ghost before = byte_views(done@);
                let c = cur;
                done.push(c);
                proof {
                    assert(byte_views(done@) =~= before.push(c@));
                }
            }
            cur = Vec::new();
        } else {
            cur.push(x);
            proof {
                assert(pieces(b@.subrange(0, i + 1), f).drop_last() =~= p.drop_last());
            }
        }
        i = i + 1;
    }
    proof {
        assert(b@.subrange(0, b@.len() as int) =~= b@);
        let p = pieces(b@, f);
        assert(p.drop_last().push(p.last()) =~= p);
        p.drop_last().lemma_filter_push(p.last(), keep);
    }
    if cur.len() > 0 {
        let ghost before = byte_views(done@);
        let c = cur;
        done.push(c);
        proof {
            assert(byte_views(done@) =~= before.push(c@));
        }
    }
    done
}

/// The words of `s`: its nonempty pieces between whitespace.
pub open spec fn words(s: Seq<char>) -> Seq<Seq<char>> {
    nonempty_pieces(s, |c: char| is_ws(c))
}

/// The words of `s` (see [`words`]), as `str::split_whitespace` gives them.
pub fn split_words(s: &str) -> (r: Vec<String>)
    ensures
        texts(r@) == words(s@),
{
    let ghost f = |c: char| is_ws(c);
    let ghost keep = |p: Seq<char>| p.len() > 0;
    let n = s.unicode_len();
    let mut done: Vec<String> = Vec::new();
    let mut cur = String::new();
    let mut i: usize = 0;
    proof {
        reveal(Seq::filter);
        assert(s@.subrange(0, 0) =~= Seq::<char>::empty());
        assert(texts(done@) =~= Seq::<Seq<char>>::empty());
    }
    while i < n
        invariant
            n == s@.len(),
            i <= n,
            f == (|c: char| is_ws(c)),
            keep == (|p: Seq<char>| p.len() > 0),
            pieces(s@.subrange(0, i as int), f).len() >= 1,
            texts(done@) == pieces(s@.subrange(0, i as int), f).drop_last().filter(keep),
            cur@ == pieces(s@.subrange(0, i as int), f).last(),
        decreases n - i,
    {
        let c = s.get_char(i);
        let ghost pre = s@.subrange(0, i as int);
        let ghost p = pieces(pre, f);
        proof {
            assert(s@.subrange(0, i + 1).drop_last() =~= pre);
            assert(s@.subrange(0, i + 1).last() == c);
            lemma_pieces_nonempty(s@.subrange(0, i + 1), f);
        }
        if is_ws_exec(c) {
            proof {
                assert(p.drop_last().push(p.last()) =~= p);
                p.drop_last().lemma_filter_push(p.last(), keep);
                assert(pieces(s@.subrange(0, i + 1), f).drop_last() =~= p);
            }
            if cur.unicode_len() > 0 {
                let ghost before = texts(done@);
                let w = cur;
                done.push(w);
                proof {
                    assert(texts(done@) =~= before.push(w@));
                }
            }
            cur = String::new();
        } else {
            crate::text::push_char(&mut cur, c);
            proof {
                assert(pieces(s@.subrange(0, i + 1), f).drop_last() =~= p.drop_last());
            }
        }
        i = i + 1;
    }
    proof {
        assert(s@.subrange(0, n as int) =~= s@);
        let p = pieces(s@, f);
        assert(p.drop_last().push(p.last()) =~= p);
        p.drop_last().lemma_filter_push(p.last(), keep);
    }
    if cur.unicode_len() > 0 {
        let ghost before = texts(done@);
        let w = cur;
        done.push(w);
        proof {
            assert(texts(done@) =~= before.push(w@));
        }
    }
    done
}

/// The first position of `x` in `s`, if it occurs.
pub open spec fn first_index<T>(s: Seq<T>, x: T) -> Option<int> {
    if exists|i: int| 0 <= i < s.len() && s[i] == x {
        Some(choose|i: int| 0 <= i < s.len() && s[i] == x && forall|j: int| 0 <= j < i ==> s[j] != x)
    } else {
        None
    }
}

/// The first position of `x` in `s` (see [`first_index`]).
pub(crate) fn find_byte(s: &[u8], x: u8) -> (r: Option<usize>)
    ensures
        r matches Some(i) ==> i < s@.len() && s@[i as int] == x,
        match r {
            Some(i) => first_index(s@, x) == Some(i as int),
            None => first_index(s@, x) is None,
        },
{
    let mut i: usize = 0;
    while i < s.len()
        invariant
            i <= s@.len(),
            forall|j: int| 0 <= j < i ==> s@[j] != x,
        decreases s@.len() - i,
    {
        if s[i] == x {
            proof {
                let w = choose|k: int| 0 <= k < s@.len() && s@[k] == x && forall|j: int| 0 <= j < k ==> s@[j] != x;
                assert(0 <= i < s@.len() && s@[i as int] == x && forall|j: int| 0 <= j < i ==> s@[j] != x);
                if w < i {
                } else if w > i {
                    assert(s@[i as int] != x);
                }
            }
            return Some(i);
        }
        i = i + 1;
    }
    None
}

/// The first line of a text and whether it is the only one (as `str::lines` reads it:
/// a final line break ends the last line instead of starting another; one carriage
/// return before a line break belongs to the break).
pub open spec fn first_line(t: Seq<char>) -> (Seq<char>, bool) {
    match first_index(t, '\n') {
        None => (t, true),
        Some(n) => {
            let line = t.subrange(0, n);
            let line = if line.len() > 0 && line.last() == '\r' {
                line.drop_last()
            } else {
                line
            };
            (line, n + 1 == t.len())
        },
    }
}

/// Why an index record does not show a gitlink in stage 0.
#[derive(Debug, Clone, Copy, PartialEq, Eq, Structural)]
pub enum GitlinkProblem {
    /// The output is not UTF-8.
    NotText,
    /// The path has more than one index record (unmerged or duplicate stages).
    SeveralRecords,
    /// The record is not a gitlink (mode `160000`).
    NotGitlink,
    /// The record has no object ID.
    MissingObjectId,
    /// The record is not in stage 0.
    NotStageZero,
}

/// The commit an index record (`git ls-files --stage` of one path) records for a
/// gitlink: none for no record; else the record must be the only one and read
/// `160000 <oid> 0`.
pub open spec fn gitlink_of(out: Seq<u8>) -> Result<Option<Seq<char>>, GitlinkProblem> {
    if out.len() == 0 {
        Ok(None)
    } else if !valid_utf8(out) {
        Err(GitlinkProblem::NotText)
    } else {
        let (line, only) = first_line(decode_utf8(out));
        let fields = words(line);
        if !only {
            Err(GitlinkProblem::SeveralRecords)
        } else if fields.len() == 0 || fields[0] != "160000"@ {
            Err(GitlinkProblem::NotGitlink)
        } else if fields.len() < 2 {
            Err(GitlinkProblem::MissingObjectId)
        } else if fields.len() < 3 || fields[2] != "0"@ {
            Err(GitlinkProblem::NotStageZero)
        } else {
            Ok(Some(fields[1]))
        }
    }
}

fn first_char_index(s: &str, x: char) -> (r: Option<usize>)
    ensures
        r matches Some(i) ==> i < s@.len() && s@[i as int] == x,
        match r {
            Some(i) => first_index(s@, x) == Some(i as int),
            None => first_index(s@, x) is None,
        },
{
    let n = s.unicode_len();
    let mut i: usize = 0;
    while i < n
        invariant
            n == s@.len(),
            i <= n,
            forall|j: int| 0 <= j < i ==> s@[j] != x,
        decreases n - i,
    {
        if s.get_char(i) == x {
            proof {
                let w = choose|k: int| 0 <= k < s@.len() && s@[k] == x && forall|j: int| 0 <= j < k ==> s@[j] != x;
                assert(0 <= i < s@.len() && s@[i as int] == x && forall|j: int| 0 <= j < i ==> s@[j] != x);
                if w < i {
                } else if w > i {
                    assert(s@[i as int] != x);
                }
            }
            return Some(i);
        }
        i = i + 1;
    }
    None
}

/// The commit an index record shows (see [`gitlink_of`]).
pub fn parse_gitlink_record(out: &[u8]) -> (r: Result<Option<String>, GitlinkProblem>)
    ensures
        match r {
            Ok(Some(s)) => gitlink_of(out@) == Ok::<Option<Seq<char>>, GitlinkProblem>(Some(s@)),
            Ok(None) => gitlink_of(out@) == Ok::<Option<Seq<char>>, GitlinkProblem>(None),
            Err(p) => gitlink_of(out@) == Err::<Option<Seq<char>>, GitlinkProblem>(p),
        },
{
    if out.len() == 0 {
        return Ok(None);
    }
    let text = match utf8_decode(out).ok() {
        Some(t) => t,
        None => {
            return Err(GitlinkProblem::NotText);
        },
    };
    let n = text.unicode_len();
    let (line, only) = match first_char_index(text, '\n') {
        None => (text, true),
        Some(k) => {
            let mut line = text.substring_char(0, k);
            let m = line.unicode_len();
            if m > 0 && line.get_char(m - 1) == '\r' {
                line = line.substring_char(0, m - 1);
            }
            (line, k + 1 == n)
        },
    };
    proof {
        let (sl, so) = first_line(text@);
        assert(line@ =~= sl);
        assert(only == so);
    }
    let fields = split_words(line);
    proof {
        assert(texts(fields@).len() == fields@.len());
    }
    if !only {
        return Err(GitlinkProblem::SeveralRecords);
    }
    if fields.len() == 0 || !crate::text::str_eq(fields[0].as_str(), "160000") {
        proof {
            if fields@.len() > 0 {
                assert(texts(fields@)[0] == fields@[0]@);
            }
        }
        return Err(GitlinkProblem::NotGitlink);
    }
    proof {
        assert(texts(fields@)[0] == fields@[0]@);
    }
    if fields.len() < 2 {
        return Err(GitlinkProblem::MissingObjectId);
    }
    if fields.len() < 3 || !crate::text::str_eq(fields[2].as_str(), "0") {
        proof {
            if fields@.len() >= 3 {
                assert(texts(fields@)[2] == fields@[2]@);
            }
        }
        return Err(GitlinkProblem::NotStageZero);
    }
    proof {
        assert(texts(fields@)[1] == fields@[1]@);
        assert(texts(fields@)[2] == fields@[2]@);
    }
    Ok(Some(owned(fields[1].as_str())))
}

/// Why the registration of a path cannot be read from `.gitmodules` records.
#[derive(Debug, Clone, Copy, PartialEq, Eq, Structural)]
pub enum RegistrationProblem {
    /// A record has no line break between key and value.
    Malformed,
    /// A record's key is not UTF-8.
    KeyNotText,
    /// A matching record's key is not `submodule.<name>.path`.
    InvalidKey,
    /// More than one registration uses the path.
    Several,
}

/// What one `key\nvalue` record says of the path `requested`: the registration name when
/// its value is the path, nothing when it is another path.
pub open spec fn record_match(rec: Seq<u8>, requested: Seq<u8>) -> Result<Option<Seq<char>>, RegistrationProblem> {
    match first_index(rec, 10u8) {
        None => Err(RegistrationProblem::Malformed),
        Some(n) => {
            let key = rec.subrange(0, n);
            let value = rec.subrange(n + 1, rec.len() as int);
            if !valid_utf8(key) {
                Err(RegistrationProblem::KeyNotText)
            } else if value != requested {
                Ok(None)
            } else {
                let k = decode_utf8(key);
                if "submodule."@.is_prefix_of(k) && ".path"@.is_suffix_of(k) && k.len() >= 15 {
                    Ok(Some(k.subrange(10, k.len() - 5)))
                } else {
                    Err(RegistrationProblem::InvalidKey)
                }
            }
        },
    }
}

/// The registration names of `requested` in the records, in order, or the problem of the
/// first record that has one.
pub open spec fn matches_in(recs: Seq<Seq<u8>>, requested: Seq<u8>) -> Result<Seq<Seq<char>>, RegistrationProblem>
    decreases recs.len(),
{
    if recs.len() == 0 {
        Ok(Seq::empty())
    } else {
        match matches_in(recs.drop_last(), requested) {
            Err(e) => Err(e),
            Ok(found) => match record_match(recs.last(), requested) {
                Err(e) => Err(e),
                Ok(None) => Ok(found),
                Ok(Some(n)) => Ok(found.push(n)),
            },
        }
    }
}

/// The name `.gitmodules` registers `requested` under, from the NUL-separated records
/// that `git config -z --get-regexp` prints for the path keys: none, the one name, or
/// the error that several names use the path.
pub open spec fn registration_of(out: Seq<u8>, requested: Seq<u8>) -> Result<Option<Seq<char>>, RegistrationProblem> {
    match matches_in(nonempty_pieces(out, is_byte(0u8)), requested) {
        Err(e) => Err(e),
        Ok(found) => if found.len() == 0 {
            Ok(None)
        } else if found.len() == 1 {
            Ok(Some(found[0]))
        } else {
            Err(RegistrationProblem::Several)
        },
    }
}

/// A problem found in a prefix of the records is the problem of all of them.
proof fn lemma_matches_in_error(recs: Seq<Seq<u8>>, k: int, requested: Seq<u8>)
    requires
        0 <= k <= recs.len(),
        matches_in(recs.subrange(0, k), requested) is Err,
    ensures
        matches_in(recs, requested) == matches_in(recs.subrange(0, k), requested),
    decreases recs.len() - k,
{
    if k < recs.len() {
        assert(recs.subrange(0, k + 1).drop_last() =~= recs.subrange(0, k));
        assert(matches_in(recs.subrange(0, k + 1), requested) == matches_in(recs.subrange(0, k), requested));
        lemma_matches_in_error(recs, k + 1, requested);
    } else {
        assert(recs.subrange(0, k) =~= recs);
    }
}

/// What one record says of the path `requested` (see [`record_match`]).
fn match_record(rec: &[u8], requested: &[u8]) -> (r: Result<Option<String>, RegistrationProblem>)
    ensures
        match r {
            Ok(Some(s)) => record_match(rec@, requested@) == Ok::<Option<Seq<char>>, RegistrationProblem>(Some(s@)),
            Ok(None) => record_match(rec@, requested@) == Ok::<Option<Seq<char>>, RegistrationProblem>(None),
            Err(p) => record_match(rec@, requested@) == Err::<Option<Seq<char>>, RegistrationProblem>(p),
        },
{
    let len = rec.len();
    let n = match find_byte(rec, 10u8) {
        None => {
            return Err(RegistrationProblem::Malformed);
        },
        Some(n) => n,
    };
    let key_bytes = vstd::slice::slice_subrange(rec, 0, n);
    let key = match utf8_decode(key_bytes).ok() {
        None => {
            return Err(RegistrationProblem::KeyNotText);
        },
        Some(k) => k,
    };
    let value = vstd::slice::slice_subrange(rec, n + 1, len);
    let mut same = value.len() == requested.len();
    let mut i: usize = 0;
    while same && i < value.len()
        invariant
            value@.len() == requested@.len() || !same,
            i <= value@.len(),
            same ==> forall|j: int| 0 <= j < i ==> value@[j] == requested@[j],
            !same ==> value@ != requested@,
        decreases value@.len() - i,
    {
        if value[i] != requested[i] {
            same = false;
        }
        i = i + 1;
    }
    proof {
        if same {
            assert(value@ =~= requested@);
        }
    }
    if !same {
        return Ok(None);
    }
    let m = key.unicode_len();
    if crate::text::starts_with(key, "submodule.") && crate::text::ends_with(key, ".path") && m >= 15 {
        proof {
            reveal_strlit("submodule.");
            reveal_strlit(".path");
        }
        Ok(Some(owned(key.substring_char(10, m - 5))))
    } else {
        Err(RegistrationProblem::InvalidKey)
    }
}

/// The name `.gitmodules` registers `requested` under (see [`registration_of`]).
pub fn parse_registration(out: &[u8], requested: &[u8]) -> (r: Result<Option<String>, RegistrationProblem>)
    ensures
        match r {
            Ok(Some(s)) => registration_of(out@, requested@) == Ok::<Option<Seq<char>>, RegistrationProblem>(Some(s@)),
            Ok(None) => registration_of(out@, requested@) == Ok::<Option<Seq<char>>, RegistrationProblem>(None),
            Err(p) => registration_of(out@, requested@) == Err::<Option<Seq<char>>, RegistrationProblem>(p),
        },
{
    let recs = split_records(out, 0u8);
    let ghost rv = byte_views(recs@);
    let mut found: Vec<String> = Vec::new();
    let mut i: usize = 0;
    proof {
        assert(rv.subrange(0, 0) =~= Seq::<Seq<u8>>::empty());
        assert(texts(found@) =~= Seq::<Seq<char>>::empty());
    }
    while i < recs.len()
        invariant
            i <= recs@.len(),
            rv == byte_views(recs@),
            rv == nonempty_pieces(out@, is_byte(0u8)),
            matches_in(rv.subrange(0, i as int), requested@) == Ok::<Seq<Seq<char>>, RegistrationProblem>(texts(found@)),
        decreases recs@.len() - i,
    {
        let step = match_record(recs[i].as_slice(), requested);
        proof {
            assert(rv.subrange(0, i + 1).drop_last() =~= rv.subrange(0, i as int));
            assert(rv.subrange(0, i + 1).last() == recs@[i as int]@);
        }
        match step {
            Err(p) => {
                proof {
                    lemma_matches_in_error(rv, i + 1, requested@);
                }
                return Err(p);
            },
            Ok(None) => {},
            Ok(Some(name)) => {
                let ghost before = texts(found@);
                found.push(name);
                proof {
                    assert(texts(found@) =~= before.push(found@[found@.len() - 1]@));
                }
            },
        }
        i = i + 1;
    }
    proof {
        assert(rv.subrange(0, rv.len() as int) =~= rv);
        assert(texts(found@).len() == found@.len());
    }
    if found.len() == 0 {
        Ok(None)
    } else if found.len() == 1 {
        proof {
            assert(texts(found@)[0] == found@[0]@);
        }
        Ok(Some(owned(found[0].as_str())))
    } else {
        Err(RegistrationProblem::Several)
    }
}

/// Whether one of the NUL-separated index records of `out` (`git ls-files --stage -z`)
/// is a gitlink: it starts with `160000 `.
pub open spec fn lists_gitlink(out: Seq<u8>) -> bool {
    exists|i: int|
        0 <= i < nonempty_pieces(out, is_byte(0u8)).len() && seq![49u8, 54u8, 48u8, 48u8, 48u8, 48u8, 32u8].is_prefix_of(
            #[trigger] nonempty_pieces(out, is_byte(0u8))[i],
        )
}

/// Whether `rec` starts with `160000 `.
fn starts_gitlink(rec: &[u8]) -> (r: bool)
    ensures
        r == seq![49u8, 54u8, 48u8, 48u8, 48u8, 48u8, 32u8].is_prefix_of(rec@),
{
    let ghost p = seq![49u8, 54u8, 48u8, 48u8, 48u8, 48u8, 32u8];
    if rec.len() < 7 {
        return false;
    }
    let ok = rec[0] == 49u8 && rec[1] == 54u8 && rec[2] == 48u8 && rec[3] == 48u8 && rec[4] == 48u8
        && rec[5] == 48u8 && rec[6] == 32u8;
    proof {
        if ok {
            assert(rec@.subrange(0, 7) =~= p);
        } else {
            assert(rec@.subrange(0, 7) != p) by {
                if rec@.subrange(0, 7) == p {
                    assert(rec@.subrange(0, 7)[0] == rec@[0]);
                    assert(rec@.subrange(0, 7)[1] == rec@[1]);
                    assert(rec@.subrange(0, 7)[2] == rec@[2]);
                    assert(rec@.subrange(0, 7)[3] == rec@[3]);
                    assert(rec@.subrange(0, 7)[4] == rec@[4]);
                    assert(rec@.subrange(0, 7)[5] == rec@[5]);
                    assert(rec@.subrange(0, 7)[6] == rec@[6]);
                }
            }
        }
    }
    ok
}

/// Whether the index listing `out` holds a gitlink (see [`lists_gitlink`]): a checkout
/// with nested registrations.
pub fn has_gitlink_record(out: &[u8]) -> (r: bool)
    ensures
        r == lists_gitlink(out@),
{
    let recs = split_records(out, 0u8);
    let ghost rv = byte_views(recs@);
    let mut i: usize = 0;
    while i < recs.len()
        invariant
            i <= recs@.len(),
            rv == byte_views(recs@),
            rv == nonempty_pieces(out@, is_byte(0u8)),
            forall|j: int|
                0 <= j < i ==> !seq![49u8, 54u8, 48u8, 48u8, 48u8, 48u8, 32u8].is_prefix_of(
                    #[trigger] rv[j],
                ),
        decreases recs@.len() - i,
    {
        if starts_gitlink(recs[i].as_slice()) {
            proof {
                assert(rv[i as int] == recs@[i as int]@);
            }
            return true;
        }
        proof {
            assert(rv[i as int] == recs@[i as int]@);
        }
        i = i + 1;
    }
    false
}

/// The target a gitfile names: its content without one final line feed, then without one
/// final carriage return, must start with `gitdir: `; the rest is the target.
pub open spec fn gitfile_target_of(content: Seq<u8>) -> Option<Seq<u8>> {
    let a = if content.len() > 0 && content.last() == 10u8 {
        content.drop_last()
    } else {
        content
    };
    let b = if a.len() > 0 && a.last() == 13u8 {
        a.drop_last()
    } else {
        a
    };
    let prefix = seq![103u8, 105u8, 116u8, 100u8, 105u8, 114u8, 58u8, 32u8];
    if prefix.is_prefix_of(b) {
        Some(b.subrange(8, b.len() as int))
    } else {
        None
    }
}

/// The target a gitfile names (see [`gitfile_target_of`]), or `None` for a malformed one.
pub fn gitfile_target(content: &[u8]) -> (r: Option<Vec<u8>>)
    ensures
        match r {
            Some(t) => gitfile_target_of(content@) == Some(t@),
            None => gitfile_target_of(content@) is None,
        },
{
    let ghost prefix = seq![103u8, 105u8, 116u8, 100u8, 105u8, 114u8, 58u8, 32u8];
    let mut end = content.len();
    if end > 0 && content[end - 1] == 10u8 {
        end = end - 1;
    }
    if end > 0 && content[end - 1] == 13u8 {
        end = end - 1;
    }
    let ghost b = content@.subrange(0, end as int);
    proof {
        let a = if content@.len() > 0 && content@.last() == 10u8 {
            content@.drop_last()
        } else {
            content@
        };
        assert(b =~= if a.len() > 0 && a.last() == 13u8 {
            a.drop_last()
        } else {
            a
        });
        assert(gitfile_target_of(content@) == if prefix.is_prefix_of(b) {
            Some(b.subrange(8, b.len() as int))
        } else {
            None
        });
    }
    if end < 8 {
        proof {
            assert(!prefix.is_prefix_of(b));
        }
        return None;
    }
    let want: [u8; 8] = [103u8, 105u8, 116u8, 100u8, 105u8, 114u8, 58u8, 32u8];
    let mut i: usize = 0;
    while i < 8
        invariant
            8 <= end <= content@.len(),
            b == content@.subrange(0, end as int),
            gitfile_target_of(content@) == if prefix.is_prefix_of(b) {
                Some(b.subrange(8, b.len() as int))
            } else {
                None
            },
            want@ == prefix,
            i <= 8,
            forall|j: int| 0 <= j < i ==> b[j] == prefix[j],
        decreases 8 - i,
    {
        if content[i] != want[i] {
            proof {
                assert(b[i as int] != prefix[i as int]);
                assert(!prefix.is_prefix_of(b)) by {
                    if prefix.is_prefix_of(b) {
                        assert(b.subrange(0, 8)[i as int] == b[i as int]);
                    }
                }
            }
            return None;
        }
        i = i + 1;
    }
    proof {
        assert(b.subrange(0, 8) =~= prefix);
    }
    let mut t: Vec<u8> = Vec::new();
    let mut k: usize = 8;
    while k < end
        invariant
            8 <= k <= end <= content@.len(),
            b == content@.subrange(0, end as int),
            gitfile_target_of(content@) == Some(b.subrange(8, b.len() as int)),
            t@ == content@.subrange(8, k as int),
        decreases end - k,
    {
        t.push(content[k]);
        proof {
            assert(content@.subrange(8, k + 1) =~= content@.subrange(8, k as int).push(content@[k as int]));
        }
        k = k + 1;
    }
    proof {
        assert(t@ =~= b.subrange(8, b.len() as int));
    }
    Some(t)
}

fn append(a: &mut String, b: &str)
    ensures
        final(a)@ == old(a)@ + b@,
{
    a.append(b);
}

/// The message that reports a gitlink problem for the managed path `path`.
pub open spec fn gitlink_problem_text(p: GitlinkProblem, path: Seq<char>) -> Seq<char> {
    match p {
        GitlinkProblem::NotText => "Git returned an index record that is not UTF-8"@,
        GitlinkProblem::SeveralRecords => "Managed submodule path "@ + path
            + " has unmerged or duplicate index stages"@,
        GitlinkProblem::NotGitlink => "Index path is not a gitlink"@,
        GitlinkProblem::MissingObjectId => "Git returned a gitlink without an object ID"@,
        GitlinkProblem::NotStageZero => "Managed submodule path "@ + path
            + " has an unmerged index entry instead of stage 0"@,
    }
}

/// The message that reports a registration problem for the path `path`.
pub open spec fn registration_problem_text(p: RegistrationProblem, path: Seq<char>) -> Seq<char> {
    match p {
        RegistrationProblem::Malformed => "Git returned a malformed .gitmodules registration"@,
        RegistrationProblem::KeyNotText => "Git returned a registration key that is not UTF-8"@,
        RegistrationProblem::InvalidKey => "Git returned an invalid submodule path key"@,
        RegistrationProblem::Several => "Multiple .gitmodules registrations use path "@ + path,
    }
}

impl GitlinkProblem {
    /// The message that reports the problem for the managed path `path`.
    pub fn message(&self, path: &str) -> (r: String)
        ensures
            r@ == gitlink_problem_text(*self, path@),
    {
        match self {
            GitlinkProblem::NotText => owned("Git returned an index record that is not UTF-8"),
            GitlinkProblem::SeveralRecords => {
                let mut m = owned("Managed submodule path ");
                append(&mut m, path);
                append(&mut m, " has unmerged or duplicate index stages");
                m
            },
            GitlinkProblem::NotGitlink => owned("Index path is not a gitlink"),
            GitlinkProblem::MissingObjectId => owned("Git returned a gitlink without an object ID"),
            GitlinkProblem::NotStageZero => {
                let mut m = owned("Managed submodule path ");
                append(&mut m, path);
                append(&mut m, " has an unmerged index entry instead of stage 0");
                m
            },
        }
    }
}

impl RegistrationProblem {
    /// The message that reports the problem for the path `path`.
    pub fn message(&self, path: &str) -> (r: String)
        ensures
            r@ == registration_problem_text(*self, path@),
    {
        match self {
            RegistrationProblem::Malformed => owned("Git returned a malformed .gitmodules registration"),
            RegistrationProblem::KeyNotText => owned("Git returned a registration key that is not UTF-8"),
            RegistrationProblem::InvalidKey => owned("Git returned an invalid submodule path key"),
            RegistrationProblem::Several => {
                let mut m = owned("Multiple .gitmodules registrations use path ");
                append(&mut m, path);
                m
            },
        }
    }
}

} // verus!
