//! What a reset must not overwrite unseen: an ignored path, or a nested repository among
//! the untracked paths, that lies on a path the reset target tracks.
use vstd::prelude::*;

use crate::gitout::{byte_views, is_byte, nonempty_pieces, split_records};

verus! {

/// The path that a record of `git status --porcelain=v1 -z` names, with whether it is
/// ignored, when the record is an ignored (`!! `) or untracked (`?? `) entry; one
/// trailing `/` is removed from the path.
pub open spec fn untracked_entry(rec: Seq<u8>) -> Option<(Seq<u8>, bool)> {
    if rec.len() < 4 {
        None
    } else if rec[2] == 32u8 && ((rec[0] == 33u8 && rec[1] == 33u8) || (rec[0] == 63u8
        && rec[1] == 63u8)) {
        let rest = rec.subrange(3, rec.len() as int);
        let local = if rest.last() == 47u8 {
            rest.drop_last()
        } else {
            rest
        };
        Some((local, rec[0] == 33u8))
    } else {
        None
    }
}

/// The ignored and untracked entries among `recs`, in order (see [`untracked_entry`]).
pub open spec fn untracked_entries(recs: Seq<Seq<u8>>) -> Seq<(Seq<u8>, bool)>
    decreases recs.len(),
{
    if recs.len() == 0 {
        Seq::empty()
    } else {
        let before = untracked_entries(recs.drop_last());
        match untracked_entry(recs.last()) {
            Some(e) => before.push(e),
            None => before,
        }
    }
}

/// The models of a list of entries.
pub open spec fn entry_views(v: Seq<(Vec<u8>, bool)>) -> Seq<(Seq<u8>, bool)> {
    v.map_values(|e: (Vec<u8>, bool)| (e.0@, e.1))
}

/// The ignored or untracked entry that `rec` is, if any (see [`untracked_entry`]).
pub fn status_entry(rec: &[u8]) -> (r: Option<(Vec<u8>, bool)>)
    ensures
        match r {
            None => untracked_entry(rec@) is None,
            Some(e) => untracked_entry(rec@) == Some((e.0@, e.1)),
        },
{
    if rec.len() < 4 {
        return None;
    }
    let ignored = rec[0] == 33u8 && rec[1] == 33u8;
    let untracked = rec[0] == 63u8 && rec[1] == 63u8;
    if rec[2] != 32u8 || !(ignored || untracked) {
        return None;
    }
    let n = rec.len();
    let end: usize = if rec[n - 1] == 47u8 {
        n - 1
    } else {
        n
    };
    let mut p: Vec<u8> = Vec::new();
    let mut i: usize = 3;
    while i < end
        invariant
            3 <= i <= end <= rec@.len(),
            p@ == rec@.subrange(3, i as int),
        decreases end - i,
    {
        p.push(rec[i]);
        proof {
            assert(rec@.subrange(3, i + 1) =~= rec@.subrange(3, i as int).push(rec@[i as int]));
        }
        i = i + 1;
    }
    proof {
        let rest = rec@.subrange(3, rec@.len() as int);
        assert(rest.last() == rec@[n - 1]);
        if rest.last() == 47u8 {
            assert(p@ =~= rest.drop_last());
        } else {
            assert(p@ =~= rest);
        }
    }
    Some((p, ignored))
}

/// The ignored and untracked entries of the output of
/// `git status --porcelain=v1 -z --untracked-files=all --ignored`, in order.
pub fn status_entries(status: &[u8]) -> (r: Vec<(Vec<u8>, bool)>)
    ensures
        entry_views(r@) == untracked_entries(nonempty_pieces(status@, is_byte(0u8))),
{
    let recs = split_records(status, 0u8);
    let ghost rv = byte_views(recs@);
    let mut out: Vec<(Vec<u8>, bool)> = Vec::new();
    let mut i: usize = 0;
    proof {
        assert(rv.subrange(0, 0).len() == 0);
        assert(entry_views(out@) =~= untracked_entries(rv.subrange(0, 0)));
    }
    while i < recs.len()
        invariant
            i <= recs@.len(),
            rv == byte_views(recs@),
            entry_views(out@) == untracked_entries(rv.subrange(0, i as int)),
        decreases recs@.len() - i,
    {
        let e = status_entry(recs[i].as_slice());
        proof {
            assert(rv.subrange(0, i + 1).drop_last() =~= rv.subrange(0, i as int));
            assert(rv.subrange(0, i + 1).last() == recs@[i as int]@);
        }
        match e {
            Some(entry) => {
                let ghost before = entry_views(out@);
                out.push(entry);
                proof {
                    assert(entry_views(out@) =~= before.push((entry.0@, entry.1)));
                }
            },
            None => {},
        }
        i = i + 1;
    }
    proof {
        assert(rv.subrange(0, recs@.len() as int) =~= rv);
    }
    out
}

/// `a` lies strictly inside the directory `b`: `b`, a `/`, then more.
pub open spec fn strictly_inside(a: Seq<u8>, b: Seq<u8>) -> bool {
    b.len() < a.len() && a.subrange(0, b.len() as int) == b && a[b.len() as int] == 47u8
}

/// Two paths are the same path, or one lies inside the other.
pub open spec fn overlap(a: Seq<u8>, b: Seq<u8>) -> bool {
    a == b || strictly_inside(a, b) || strictly_inside(b, a)
}

/// Whether `a` starts with `b`, then a `/`, then more (see [`strictly_inside`]).
fn inside(a: &[u8], b: &[u8]) -> (r: bool)
    ensures
        r == strictly_inside(a@, b@),
{
    if b.len() >= a.len() {
        return false;
    }
    let mut i: usize = 0;
    while i < b.len()
        invariant
            b@.len() < a@.len(),
            i <= b@.len(),
            forall|j: int| 0 <= j < i ==> a@[j] == b@[j],
        decreases b@.len() - i,
    {
        if a[i] != b[i] {
            proof {
                assert(a@.subrange(0, b@.len() as int)[i as int] != b@[i as int]);
            }
            return false;
        }
        i = i + 1;
    }
    proof {
        assert(a@.subrange(0, b@.len() as int) =~= b@);
    }
    a[b.len()] == 47u8
}

/// Whether two byte strings are equal.
fn same_bytes(a: &[u8], b: &[u8]) -> (r: bool)
    ensures
        r == (a@ == b@),
{
    if a.len() != b.len() {
        return false;
    }
    let mut i: usize = 0;
    while i < a.len()
        invariant
            a@.len() == b@.len(),
            i <= a@.len(),
            forall|j: int| 0 <= j < i ==> a@[j] == b@[j],
        decreases a@.len() - i,
    {
        if a[i] != b[i] {
            return false;
        }
        i = i + 1;
    }
    proof {
        assert(a@ =~= b@);
    }
    true
}

/// Whether two paths are the same or one lies inside the other (see [`overlap`]).
pub fn paths_overlap(a: &[u8], b: &[u8]) -> (r: bool)
    ensures
        r == overlap(a@, b@),
{
    same_bytes(a, b) || inside(a, b) || inside(b, a)
}

/// Some path of `listed` overlaps `local`.
pub open spec fn overlaps_listed(listed: Seq<Seq<u8>>, local: Seq<u8>) -> bool {
    exists|i: int| 0 <= i < listed.len() && #[trigger] overlap(listed[i], local)
}

/// The paths that the NUL-separated listing of a reset target's tree
/// (`git ls-tree -r -z --name-only`) names.
pub open spec fn tree_paths(listing: Seq<u8>) -> Seq<Seq<u8>> {
    nonempty_pieces(listing, is_byte(0u8))
}

/// The position of the first of `candidates` that overlaps a path of the reset target's
/// tree `listing` (see [`tree_paths`]), or `None` when none does. The candidates are the
/// ignored paths and the nested repositories among the untracked paths of a checkout, in
/// the order `git status` gave them.
pub fn first_reset_conflict(listing: &[u8], candidates: &Vec<Vec<u8>>) -> (r: Option<usize>)
    ensures
        match r {
            None => forall|k: int|
                0 <= k < candidates@.len() ==> !overlaps_listed(
                    tree_paths(listing@),
                    #[trigger] candidates@[k]@,
                ),
            Some(k) => {
                &&& k < candidates@.len()
                &&& overlaps_listed(tree_paths(listing@), candidates@[k as int]@)
                &&& forall|j: int|
                    0 <= j < k ==> !overlaps_listed(tree_paths(listing@), #[trigger] candidates@[j]@)
            },
        },
{
    let listed = split_records(listing, 0u8);
    let ghost tv = byte_views(listed@);
    let mut k: usize = 0;
    while k < candidates.len()
        invariant
            k <= candidates@.len(),
            tv == byte_views(listed@),
            tv == tree_paths(listing@),
            forall|j: int|
                0 <= j < k ==> !overlaps_listed(tv, #[trigger] candidates@[j]@),
        decreases candidates@.len() - k,
    {
        let local = candidates[k].as_slice();
        let mut i: usize = 0;
        while i < listed.len()
            invariant
                i <= listed@.len(),
                k < candidates@.len(),
                local@ == candidates@[k as int]@,
                tv == byte_views(listed@),
                tv == tree_paths(listing@),
                forall|j: int|
                    0 <= j < k ==> !overlaps_listed(tv, #[trigger] candidates@[j]@),
                forall|a: int| 0 <= a < i ==> !overlap(#[trigger] tv[a], local@),
            decreases listed@.len() - i,
        {
            if paths_overlap(listed[i].as_slice(), local) {
                proof {
                    assert(tv[i as int] == listed@[i as int]@);
                    assert(overlap(tv[i as int], candidates@[k as int]@));
                    assert(overlaps_listed(tree_paths(listing@), candidates@[k as int]@));
                }
                return Some(k);
            }
            proof {
                assert(tv[i as int] == listed@[i as int]@);
            }
            i = i + 1;
        }
        proof {
            assert(!overlaps_listed(tv, candidates@[k as int]@));
        }
        k = k + 1;
    }
    None
}

} // verus!
