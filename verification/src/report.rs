//! What the listing of submodules shows, which registered submodules no declaration
//! manages, and the order registrations are worked in.
use vstd::prelude::*;

use crate::config::{or_value, texts, Config, EntryView};
use crate::order::{sort_texts, text_order};
use crate::text::{owned, str_eq};
use crate::config::SubmoduleEntry;
use crate::options::{branch_text, SerializableIgnore, SerializableUpdate};

verus! {

/// The checkout path a declaration manages: its path, or its name when it has none.
pub open spec fn declared_path(name: Seq<char>, e: EntryView) -> Seq<char> {
    or_value(e.path, name)
}

/// The checkout paths the declarations of `config` manage, in declaration order.
pub open spec fn declared_paths(config: Config) -> Seq<Seq<char>> {
    config.submodules.names().map_values(|n: Seq<char>| declared_path(n, config.submodules@[n]))
}

fn append(a: &mut String, b: &str)
    ensures
        final(a)@ == old(a)@ + b@,
{
    a.append(b);
}

/// The checkout paths the declarations of `config` manage (see [`declared_paths`]).
pub fn managed_paths(config: &Config) -> (r: Vec<String>)
    ensures
        texts(r@) == declared_paths(*config),
{
    let list = config.submodules.submodule_list();
    let mut out: Vec<String> = Vec::new();
    let mut i: usize = 0;
    let ghost names = config.submodules.names();
    while i < list.len()
        invariant
            i <= list@.len(),
            names == config.submodules.names(),
            list@.len() == names.len(),
            forall|j: int|
                0 <= j < list@.len() ==> list@[j].0@ == names[j] && config.submodules@[names[j]]
                    == list@[j].1@,
            texts(out@) == names.subrange(0, i as int).map_values(
                |n: Seq<char>| declared_path(n, config.submodules@[n]),
            ),
        decreases list@.len() - i,
    {
        let (name, entry) = list[i];
        let p = match &entry.path {
            Some(p) => owned(p.as_str()),
            None => owned(name.as_str()),
        };
        let ghost before = out@;
        out.push(p);
        proof {
            assert(names.subrange(0, i + 1) =~= names.subrange(0, i as int).push(names[i as int]));
            assert(texts(out@) =~= texts(before).push(p@));
            assert(texts(out@) =~= names.subrange(0, i + 1).map_values(
                |n: Seq<char>| declared_path(n, config.submodules@[n]),
            ));
        }
        i = i + 1;
    }
    proof {
        assert(names.subrange(0, names.len() as int) =~= names);
    }
    out
}

/// Whether `s` holds the string `x`.
fn holds(s: &Vec<String>, x: &str) -> (r: bool)
    ensures
        r == texts(s@).contains(x@),
{
    let mut i: usize = 0;
    while i < s.len()
        invariant
            i <= s@.len(),
            forall|k: int| 0 <= k < i ==> s@[k]@ != x@,
        decreases s@.len() - i,
    {
        if str_eq(s[i].as_str(), x) {
            proof {
                assert(texts(s@)[i as int] == x@);
            }
            return true;
        }
        i = i + 1;
    }
    proof {
        if texts(s@).contains(x@) {
            let w = choose|w: int| 0 <= w < texts(s@).len() && texts(s@)[w] == x@;
            assert(s@[w]@ == x@);
        }
    }
    false
}

/// The registered paths (as `.gitmodules` lists them) that no declaration of `config`
/// manages, in the order of strings.
pub open spec fn unmanaged_of(config: Config, registered: Seq<Seq<char>>) -> Seq<Seq<char>> {
    registered.filter(|p: Seq<char>| !declared_paths(config).contains(p)).sort_by(text_order())
}

/// The registered paths that no declaration manages (see [`unmanaged_of`]).
pub fn unmanaged_paths(config: &Config, registered: &Vec<String>) -> (r: Vec<String>)
    ensures
        texts(r@) == unmanaged_of(*config, texts(registered@)),
{
    let declared = managed_paths(config);
    let ghost keep = |p: Seq<char>| !declared_paths(*config).contains(p);
    let mut kept: Vec<String> = Vec::new();
    let mut i: usize = 0;
    proof {
        reveal(Seq::filter);
        assert(texts(registered@).subrange(0, 0) =~= Seq::<Seq<char>>::empty());
    }
    while i < registered.len()
        invariant
            i <= registered@.len(),
            texts(declared@) == declared_paths(*config),
            keep == (|p: Seq<char>| !declared_paths(*config).contains(p)),
            texts(kept@) == texts(registered@).subrange(0, i as int).filter(keep),
        decreases registered@.len() - i,
    {
        let p = registered[i].as_str();
        proof {
            let pre = texts(registered@).subrange(0, i as int);
            assert(texts(registered@).subrange(0, i + 1) =~= pre.push(p@));
            pre.lemma_filter_push(p@, keep);
        }
        if !holds(&declared, p) {
            let ghost before = kept@;
            kept.push(owned(p));
            proof {
                assert(texts(kept@) =~= texts(before).push(p@));
            }
        }
        i = i + 1;
    }
    proof {
        assert(texts(registered@).subrange(0, registered@.len() as int) =~= texts(registered@));
    }
    sort_texts(&kept)
}

/// The line that reports an unmanaged registration.
pub open spec fn unmanaged_text(path: Seq<char>) -> Seq<char> {
    "Unmanaged Git submodule preserved: "@ + path
}

/// The line that reports an unmanaged registration.
pub fn unmanaged_line(path: &str) -> (r: String)
    ensures
        r@ == unmanaged_text(path@),
{
    let mut line = owned("Unmanaged Git submodule preserved: ");
    append(&mut line, path);
    line
}

/// The lines that list declaration `name`: its name and state, its checkout path, and
/// its URL (`<no url>` when it has none).
pub open spec fn entry_lines(name: Seq<char>, e: EntryView) -> Seq<Seq<char>> {
    seq![
        "  "@ + name + " ["@ + (if or_value(e.active, true) {
            "active"@
        } else {
            "disabled"@
        }) + "]"@,
        "    path: "@ + declared_path(name, e),
        "    url:  "@ + or_value(e.url, "<no url>"@),
    ]
}

/// The lines that list the declarations of `names`, in order.
pub open spec fn entries_lines(names: Seq<Seq<char>>, m: Map<Seq<char>, EntryView>) -> Seq<
    Seq<char>,
>
    decreases names.len(),
{
    if names.len() == 0 {
        Seq::empty()
    } else {
        entries_lines(names.drop_last(), m) + entry_lines(names.last(), m[names.last()])
    }
}

/// The paths of a list of registrations, each once, in the order they first occur.
pub open spec fn distinct_paths(ps: Seq<(Seq<char>, bool)>) -> Seq<Seq<char>>
    decreases ps.len(),
{
    if ps.len() == 0 {
        Seq::empty()
    } else {
        let d = distinct_paths(ps.drop_last());
        if d.contains(ps.last().0) {
            d
        } else {
            d.push(ps.last().0)
        }
    }
}

/// Whether the first registration of path `p` is initialized.
pub open spec fn first_flag(ps: Seq<(Seq<char>, bool)>, p: Seq<char>) -> bool
    decreases ps.len(),
{
    if ps.len() == 0 {
        false
    } else if distinct_paths(ps.drop_last()).contains(p) {
        first_flag(ps.drop_last(), p)
    } else {
        ps.last().0 == p && ps.last().1
    }
}

/// The registrations found below the superproject, each path once (with the state of its
/// first registration) in the order of strings.
pub open spec fn found_registrations(ps: Seq<(Seq<char>, bool)>) -> Seq<(Seq<char>, bool)> {
    distinct_paths(ps).sort_by(text_order()).map_values(|p: Seq<char>| (p, first_flag(ps, p)))
}

/// The lines about the registrations found: those no declaration manages, with their
/// state, and then the uninitialized ones, that were not inspected further.
pub open spec fn found_lines(found: Seq<(Seq<char>, bool)>, declared: Seq<Seq<char>>) -> Seq<
    Seq<char>,
> {
    let extra = found.filter(|f: (Seq<char>, bool)| !declared.contains(f.0));
    let skipped = found.filter(|f: (Seq<char>, bool)| !f.1);
    let a: Seq<Seq<char>> = if extra.len() > 0 {
        seq!["Additional submodules found in Git:"@] + extra.map_values(
            |f: (Seq<char>, bool)|
                "  "@ + f.0 + " ["@ + (if f.1 {
                    "initialized"@
                } else {
                    "not inspected: checkout is uninitialized"@
                }) + "]"@,
        )
    } else {
        Seq::empty()
    };
    let b: Seq<Seq<char>> = if skipped.len() > 0 {
        seq!["Recursive inspection skipped for uninitialized checkouts:"@] + skipped.map_values(
            |f: (Seq<char>, bool)| "  "@ + f.0,
        )
    } else {
        Seq::empty()
    };
    a + b
}

/// The listing of the declarations of `config` (and, when `recursive`, of the
/// registrations `found` below the superproject, given as path and whether the checkout
/// is initialized).
pub open spec fn list_lines(config: Config, recursive: bool, found: Seq<(Seq<char>, bool)>) -> Seq<
    Seq<char>,
> {
    let names = config.submodules.names().sort_by(text_order());
    let head: Seq<Seq<char>> = if names.len() == 0 {
        seq!["No submodules configured."@]
    } else {
        seq!["Submodules:"@] + entries_lines(names, config.submodules@)
    };
    if recursive {
        head + found_lines(found_registrations(found), declared_paths(config))
    } else {
        head
    }
}

/// The model of a list of registrations.
pub open spec fn found_views(v: Seq<(String, bool)>) -> Seq<(Seq<char>, bool)> {
    v.map_values(|f: (String, bool)| (f.0@, f.1))
}

/// The registrations found, each path once, in the order of strings (see
/// [`found_registrations`]).
fn order_found(found: &Vec<(String, bool)>) -> (r: Vec<(String, bool)>)
    ensures
        found_views(r@) == found_registrations(found_views(found@)),
{
    let ghost ps = found_views(found@);
    let mut paths: Vec<String> = Vec::new();
    let mut flags: Vec<bool> = Vec::new();
    let mut i: usize = 0;
    proof {
        assert(ps.subrange(0, 0) =~= Seq::<(Seq<char>, bool)>::empty());
        assert(texts(paths@) =~= Seq::<Seq<char>>::empty());
    }
    while i < found.len()
        invariant
            i <= found@.len(),
            ps == found_views(found@),
            texts(paths@) == distinct_paths(ps.subrange(0, i as int)),
            flags@.len() == paths@.len(),
            forall|k: int| 0 <= k < paths@.len() ==> flags@[k] == first_flag(ps.subrange(0, i as int), #[trigger] paths@[k]@),
        decreases found@.len() - i,
    {
        let (p, init) = (&found[i].0, found[i].1);
        let ghost pre = ps.subrange(0, i as int);
        proof {
            assert(ps.subrange(0, i + 1).drop_last() =~= pre);
            assert(ps.subrange(0, i + 1).last() == (p@, init));
        }
        if !holds(&paths, p.as_str()) {
            let ghost before = paths@;
            paths.push(p.clone());
            flags.push(init);
            proof {
                assert(texts(paths@) =~= texts(before).push(p@));
                assert forall|k: int| 0 <= k < paths@.len() implies flags@[k] == first_flag(ps.subrange(0, i + 1), #[trigger] paths@[k]@) by {
                    if k < before.len() {
                        assert(texts(before)[k] == paths@[k]@);
                        assert(distinct_paths(pre).contains(paths@[k]@));
                    }
                }
            }
        } else {
            proof {
                assert forall|k: int| 0 <= k < paths@.len() implies flags@[k] == first_flag(ps.subrange(0, i + 1), #[trigger] paths@[k]@) by {
                    assert(texts(paths@)[k] == paths@[k]@);
                    assert(distinct_paths(pre).contains(paths@[k]@));
                }
            }
        }
        i = i + 1;
    }
    proof {
        assert(ps.subrange(0, found@.len() as int) =~= ps);
    }
    let sorted = sort_texts(&paths);
    let ghost d = texts(paths@);
    let ghost s = texts(sorted@);
    proof {
        crate::order::lemma_text_order_total();
        d.lemma_sort_by_ensures(text_order());
    }
    let mut out: Vec<(String, bool)> = Vec::new();
    let mut j: usize = 0;
    while j < sorted.len()
        invariant
            j <= sorted@.len(),
            s == texts(sorted@),
            d == texts(paths@),
            s == d.sort_by(text_order()),
            flags@.len() == paths@.len(),
            forall|x: Seq<char>| s.contains(x) ==> d.contains(x),
            forall|k: int| 0 <= k < paths@.len() ==> flags@[k] == first_flag(ps, #[trigger] paths@[k]@),
            found_views(out@) == s.subrange(0, j as int).map_values(|p: Seq<char>| (p, first_flag(ps, p))),
        decreases sorted@.len() - j,
    {
        let x = sorted[j].as_str();
        proof {
            assert(s.contains(s[j as int]));
            assert(d.contains(x@));
        }
        let mut k: usize = 0;
        while k < paths.len()
            invariant
                k <= paths@.len(),
                d == texts(paths@),
                d.contains(x@),
                forall|m: int| 0 <= m < k ==> paths@[m]@ != x@,
            ensures
                k <= paths@.len(),
                k < paths@.len() ==> paths@[k as int]@ == x@,
                forall|m: int| 0 <= m < k ==> paths@[m]@ != x@,
            decreases paths@.len() - k,
        {
            if str_eq(paths[k].as_str(), x) {
                break;
            }
            k = k + 1;
        }
        if k >= paths.len() {
            proof {
                let w = choose|w: int| 0 <= w < d.len() && d[w] == x@;
                assert(paths@[w]@ == x@);
                assert(false);
            }
            k = 0;
        }
        let flag = flags[k];
        let ghost before = out@;
        out.push((owned(x), flag));
        proof {
            assert(paths@[k as int]@ == x@);
            assert(s.subrange(0, j + 1) =~= s.subrange(0, j as int).push(x@));
            assert(found_views(out@) =~= found_views(before).push((x@, flag)));
        }
        j = j + 1;
    }
    proof {
        assert(s.subrange(0, s.len() as int) =~= s);
    }
    out
}

/// The listing of the declarations of `config` and, when `recursive`, of the
/// registrations `found` below the superproject (see [`list_lines`]).
pub fn list_report(config: &Config, recursive: bool, found: &Vec<(String, bool)>) -> (r: Vec<String>)
    ensures
        texts(r@) == list_lines(*config, recursive, found_views(found@)),
{
    let names = match config.submodules.submodule_names() {
        Some(v) => v,
        None => Vec::new(),
    };
    let sorted = sort_texts(&names);
    let ghost ns = texts(sorted@);
    let mut lines: Vec<String> = Vec::new();
    if sorted.len() == 0 {
        lines.push(owned("No submodules configured."));
        proof {
            assert(texts(lines@) =~= seq!["No submodules configured."@]);
        }
    } else {
        lines.push(owned("Submodules:"));
        proof {
            crate::order::lemma_text_order_total();
            texts(names@).lemma_sort_by_ensures(text_order());
            assert forall|k: int| 0 <= k < ns.len() implies config.submodules@.contains_key(#[trigger] ns[k]) by {
                assert(ns.contains(ns[k]));
                assert(texts(names@).contains(ns[k]));
            }
            assert(ns.subrange(0, 0) =~= Seq::<Seq<char>>::empty());
            assert(texts(lines@) =~= seq!["Submodules:"@] + entries_lines(ns.subrange(0, 0), config.submodules@));
        }
        let mut i: usize = 0;
        while i < sorted.len()
            invariant
                i <= sorted@.len(),
                ns == texts(sorted@),
                forall|k: int| 0 <= k < ns.len() ==> config.submodules@.contains_key(#[trigger] ns[k]),
                texts(lines@) == seq!["Submodules:"@] + entries_lines(ns.subrange(0, i as int), config.submodules@),
            decreases sorted@.len() - i,
        {
            let name = sorted[i].as_str();
            proof {
                assert(config.submodules@.contains_key(ns[i as int]));
            }
            let entry = config.submodules.get(name).unwrap();
            let mut a = owned("  ");
            append(&mut a, name);
            append(&mut a, " [");
            let active = match entry.active {
                Some(x) => x,
                None => true,
            };
            append(&mut a, if active { "active" } else { "disabled" });
            append(&mut a, "]");
            let mut b = owned("    path: ");
            match &entry.path {
                Some(p) => append(&mut b, p.as_str()),
                None => append(&mut b, name),
            }
            let mut c = owned("    url:  ");
            match &entry.url {
                Some(u) => append(&mut c, u.as_str()),
                None => append(&mut c, "<no url>"),
            }
            let ghost before = texts(lines@);
            lines.push(a);
            lines.push(b);
            lines.push(c);
            proof {
                assert(ns.subrange(0, i + 1).drop_last() =~= ns.subrange(0, i as int));
                assert(ns.subrange(0, i + 1).last() == name@);
                assert(texts(lines@) =~= before + entry_lines(name@, config.submodules@[name@]));
            }
            i = i + 1;
        }
        proof {
            assert(ns.subrange(0, ns.len() as int) =~= ns);
        }
    }
    proof {
        crate::order::lemma_text_order_total();
    }
    if recursive {
        let declared = managed_paths(config);
        let listed = order_found(found);
        let more = found_report(&listed, &declared);
        let ghost before = texts(lines@);
        let mut more = more;
        lines.append(&mut more);
        proof {
            assert(texts(lines@) =~= before + found_lines(
                found_registrations(found_views(found@)),
                declared_paths(*config),
            ));
        }
    }
    lines
}

/// The lines about the registrations found (see [`found_lines`]).
fn found_report(found: &Vec<(String, bool)>, declared: &Vec<String>) -> (r: Vec<String>)
    ensures
        texts(r@) == found_lines(found_views(found@), texts(declared@)),
{
    let ghost fv = found_views(found@);
    let ghost dv = texts(declared@);
    let ghost pe = |f: (Seq<char>, bool)| !dv.contains(f.0);
    let ghost pu = |f: (Seq<char>, bool)| !f.1;
    let ghost le = |f: (Seq<char>, bool)|
        "  "@ + f.0 + " ["@ + (if f.1 {
            "initialized"@
        } else {
            "not inspected: checkout is uninitialized"@
        }) + "]"@;
    let ghost lu = |f: (Seq<char>, bool)| "  "@ + f.0;
    let mut extra: Vec<String> = Vec::new();
    let mut skipped: Vec<String> = Vec::new();
    let mut i: usize = 0;
    proof {
        reveal(Seq::filter);
        assert(fv.subrange(0, 0) =~= Seq::<(Seq<char>, bool)>::empty());
    }
    while i < found.len()
        invariant
            i <= found@.len(),
            fv == found_views(found@),
            dv == texts(declared@),
            pe == (|f: (Seq<char>, bool)| !dv.contains(f.0)),
            pu == (|f: (Seq<char>, bool)| !f.1),
            le == (|f: (Seq<char>, bool)|
                "  "@ + f.0 + " ["@ + (if f.1 {
                    "initialized"@
                } else {
                    "not inspected: checkout is uninitialized"@
                }) + "]"@),
            lu == (|f: (Seq<char>, bool)| "  "@ + f.0),
            texts(extra@) == fv.subrange(0, i as int).filter(pe).map_values(le),
            texts(skipped@) == fv.subrange(0, i as int).filter(pu).map_values(lu),
        decreases found@.len() - i,
    {
        let p = found[i].0.as_str();
        let init = found[i].1;
        let ghost pre = fv.subrange(0, i as int);
        proof {
            assert(fv.subrange(0, i + 1) =~= pre.push((p@, init)));
            pre.lemma_filter_push((p@, init), pe);
            pre.lemma_filter_push((p@, init), pu);
        }
        if !holds(declared, p) {
            let mut l = owned("  ");
            append(&mut l, p);
            append(&mut l, " [");
            append(&mut l, if init { "initialized" } else { "not inspected: checkout is uninitialized" });
            append(&mut l, "]");
            let ghost before = texts(extra@);
            extra.push(l);
            proof {
                assert(texts(extra@) =~= before.push(le((p@, init))));
                assert(pre.filter(pe).push((p@, init)).map_values(le) =~= pre.filter(pe).map_values(le).push(le((p@, init))));
            }
        }
        if !init {
            let mut l = owned("  ");
            append(&mut l, p);
            let ghost before = texts(skipped@);
            skipped.push(l);
            proof {
                assert(texts(skipped@) =~= before.push(lu((p@, init))));
                assert(pre.filter(pu).push((p@, init)).map_values(lu) =~= pre.filter(pu).map_values(lu).push(lu((p@, init))));
            }
        }
        i = i + 1;
    }
    proof {
        assert(fv.subrange(0, found@.len() as int) =~= fv);
    }
    let mut out: Vec<String> = Vec::new();
    if extra.len() > 0 {
        out.push(owned("Additional submodules found in Git:"));
        let ghost before = texts(out@);
        out.append(&mut extra);
        proof {
            assert(texts(out@) =~= before + fv.filter(pe).map_values(le));
        }
    }
    let ghost mid = texts(out@);
    if skipped.len() > 0 {
        out.push(owned("Recursive inspection skipped for uninitialized checkouts:"));
        let ghost before = texts(out@);
        out.append(&mut skipped);
        proof {
            assert(texts(out@) =~= before + fv.filter(pu).map_values(lu));
        }
    }
    proof {
        let a: Seq<Seq<char>> = if fv.filter(pe).len() > 0 {
            seq!["Additional submodules found in Git:"@] + fv.filter(pe).map_values(le)
        } else {
            Seq::empty()
        };
        assert(mid =~= a);
        assert(texts(out@) =~= found_lines(fv, dv));
    }
    out
}

/// The names of `names` whose registration must change (flag set in `changes`) first,
/// then the others, each group in the given order.
pub open spec fn registration_first(names: Seq<Seq<char>>, changes: Seq<bool>) -> Seq<Seq<char>> {
    let idx = Seq::new(names.len(), |i: int| i);
    idx.filter(|i: int| changes[i]).map_values(|i: int| names[i]) + idx.filter(|i: int| !changes[i]).map_values(
        |i: int| names[i],
    )
}

/// The names whose registration must change first (see [`registration_first`]).
pub fn registration_first_order(names: &Vec<String>, changes: &Vec<bool>) -> (r: Vec<String>)
    requires
        names@.len() == changes@.len(),
    ensures
        texts(r@) == registration_first(texts(names@), changes@),
{
    let ghost ns = texts(names@);
    let ghost n = names@.len();
    let ghost idx = Seq::new(n, |i: int| i);
    let ghost pc = |i: int| changes@[i];
    let ghost pn = |i: int| !changes@[i];
    let ghost nm = |i: int| ns[i];
    let mut first: Vec<String> = Vec::new();
    let mut rest: Vec<String> = Vec::new();
    let mut i: usize = 0;
    proof {
        reveal(Seq::filter);
        assert(idx.subrange(0, 0) =~= Seq::<int>::empty());
    }
    while i < names.len()
        invariant
            i <= names@.len(),
            names@.len() == changes@.len(),
            n == names@.len(),
            ns == texts(names@),
            idx == Seq::new(n, |i: int| i),
            pc == (|i: int| changes@[i]),
            pn == (|i: int| !changes@[i]),
            nm == (|i: int| ns[i]),
            texts(first@) == idx.subrange(0, i as int).filter(pc).map_values(nm),
            texts(rest@) == idx.subrange(0, i as int).filter(pn).map_values(nm),
        decreases names@.len() - i,
    {
        let ghost pre = idx.subrange(0, i as int);
        proof {
            assert(idx.subrange(0, i + 1) =~= pre.push(i as int));
            pre.lemma_filter_push(i as int, pc);
            pre.lemma_filter_push(i as int, pn);
        }
        let name = names[i].clone();
        if changes[i] {
            let ghost before = texts(first@);
            first.push(name);
            proof {
                assert(texts(first@) =~= before.push(nm(i as int)));
                assert(pre.filter(pc).push(i as int).map_values(nm) =~= pre.filter(pc).map_values(nm).push(nm(i as int)));
            }
        } else {
            let ghost before = texts(rest@);
            rest.push(name);
            proof {
                assert(texts(rest@) =~= before.push(nm(i as int)));
                assert(pre.filter(pn).push(i as int).map_values(nm) =~= pre.filter(pn).map_values(nm).push(nm(i as int)));
            }
        }
        i = i + 1;
    }
    proof {
        assert(idx.subrange(0, n as int) =~= idx);
    }
    let ghost a = texts(first@);
    let ghost b = texts(rest@);
    first.append(&mut rest);
    proof {
        assert(texts(first@) =~= a + b);
    }
    first
}

/// The line that previews deleting submodule `name` at `path`: a registered submodule
/// loses its checkout (or, with `force`, the selected checkout content), registration and
/// declaration while its repository is retained; an unregistered one only its declaration.
pub open spec fn delete_preview_text(name: Seq<char>, path: Seq<char>, registered: bool, force: bool) -> Seq<char> {
    let scope = if registered {
        if force {
            "discard selected checkout content, retain its repository, and remove its registration and declaration"@
        } else {
            "remove its checkout, registration, and declaration while retaining its repository"@
        }
    } else {
        "remove only its config declaration"@
    };
    "Would delete submodule '"@ + name + "' at '"@ + path + "': "@ + scope + "."@
}

/// The line that previews deleting submodule `name` (see [`delete_preview_text`]).
pub fn delete_preview_line(name: &str, path: &str, registered: bool, force: bool) -> (r: String)
    ensures
        r@ == delete_preview_text(name@, path@, registered, force),
{
    let mut line = owned("Would delete submodule '");
    append(&mut line, name);
    append(&mut line, "' at '");
    append(&mut line, path);
    append(&mut line, "': ");
    if registered {
        if force {
            append(
                &mut line,
                "discard selected checkout content, retain its repository, and remove its registration and declaration",
            );
        } else {
            append(&mut line, "remove its checkout, registration, and declaration while retaining its repository");
        }
    } else {
        append(&mut line, "remove only its config declaration");
    }
    append(&mut line, ".");
    line
}

/// The line that previews changing submodule `name`, moving it when `moved` holds the old
/// and the new path.
pub open spec fn change_preview_text(name: Seq<char>, moved: Option<(Seq<char>, Seq<char>)>) -> Seq<char> {
    match moved {
        Some((from, to)) => "Would change submodule '"@ + name + "' and move it from '"@ + from
            + "' to '"@ + to + "'."@,
        None => "Would change submodule '"@ + name + "' and reconcile its managed Git settings."@,
    }
}

/// The line that previews changing submodule `name` (see [`change_preview_text`]).
pub fn change_preview_line(name: &str, moved: Option<(&str, &str)>) -> (r: String)
    ensures
        r@ == change_preview_text(
            name@,
            match moved {
                Some((a, b)) => Some((a@, b@)),
                None => None,
            },
        ),
{
    let mut line = owned("Would change submodule '");
    append(&mut line, name);
    match moved {
        Some((from, to)) => {
            append(&mut line, "' and move it from '");
            append(&mut line, from);
            append(&mut line, "' to '");
            append(&mut line, to);
            append(&mut line, "'.");
        },
        None => append(&mut line, "' and reconcile its managed Git settings."),
    }
    line
}

/// The line that previews a change of the project defaults: the settings it unsets, as
/// the command line names them, and the branch it sets.
pub open spec fn global_preview_text(unset: Seq<crate::commands::UnsetSetting>, branch: Option<crate::options::BranchView>) -> Seq<char> {
    let items = unset.map_values(|u: crate::commands::UnsetSetting| "unset "@ + crate::commands::unset_name(u));
    let all = match branch {
        Some(b) => items.push("branch="@ + crate::options::branch_text(b)),
        None => items,
    };
    "Would change global defaults: "@ + crate::plan::join(all, ", "@) + "."@
}

/// The line that previews a change of the project defaults (see [`global_preview_text`]).
pub fn global_preview_line(
    unset: &Vec<crate::commands::UnsetSetting>,
    branch: &Option<crate::options::SerializableBranch>,
) -> (r: String)
    ensures
        r@ == global_preview_text(unset@, crate::config::opt_branch(*branch)),
{
    let ghost f = |u: crate::commands::UnsetSetting| "unset "@ + crate::commands::unset_name(u);
    let mut items: Vec<String> = Vec::new();
    let mut i: usize = 0;
    proof {
        assert(texts(items@) =~= unset@.subrange(0, 0).map_values(f));
    }
    while i < unset.len()
        invariant
            i <= unset@.len(),
            f == (|u: crate::commands::UnsetSetting| "unset "@ + crate::commands::unset_name(u)),
            texts(items@) == unset@.subrange(0, i as int).map_values(f),
        decreases unset@.len() - i,
    {
        let mut item = owned("unset ");
        append(&mut item, unset[i].as_str());
        let ghost before = texts(items@);
        items.push(item);
        proof {
            assert(unset@.subrange(0, i + 1) =~= unset@.subrange(0, i as int).push(unset@[i as int]));
            assert(texts(items@) =~= before.push(f(unset@[i as int])));
            assert(unset@.subrange(0, i + 1).map_values(f) =~= unset@.subrange(0, i as int).map_values(f).push(f(unset@[i as int])));
        }
        i = i + 1;
    }
    proof {
        assert(unset@.subrange(0, unset@.len() as int) =~= unset@);
    }
    match branch {
        Some(b) => {
            let mut item = owned("branch=");
            let t = b.display_text();
            append(&mut item, t.as_str());
            let ghost before = texts(items@);
            items.push(item);
            proof {
                assert(texts(items@) =~= before.push(item@));
            }
        },
        None => {},
    }
    let mut line = owned("Would change global defaults: ");
    let joined = crate::plan::join_texts(&items, ", ");
    append(&mut line, joined.as_str());
    append(&mut line, ".");
    line
}

/// The line that reports the result of a lifecycle command on submodule `name`: `verb` is
/// what happened (`Disabled`, `Deleted`, `Updated`).
pub open spec fn done_text(verb: Seq<char>, name: Seq<char>) -> Seq<char> {
    verb + " submodule '"@ + name + "'."@
}

/// The line that reports the result of a lifecycle command (see [`done_text`]).
pub fn done_line(verb: &str, name: &str) -> (r: String)
    ensures
        r@ == done_text(verb@, name@),
{
    let mut line = owned(verb);
    append(&mut line, " submodule '");
    append(&mut line, name);
    append(&mut line, "'.");
    line
}

/// Whether `c` is an ASCII hexadecimal digit.
pub open spec fn is_hex_digit(c: char) -> bool {
    ('0' <= c && c <= '9') || ('a' <= c && c <= 'f') || ('A' <= c && c <= 'F')
}

/// Whether `oid` can name a stash: nonempty, all hexadecimal digits.
pub open spec fn valid_stash_oid(oid: Seq<char>) -> bool {
    oid.len() > 0 && forall|i: int| 0 <= i < oid.len() ==> is_hex_digit(#[trigger] oid[i])
}

/// Whether `oid` can name a stash (see [`valid_stash_oid`]).
pub fn stash_oid_is_valid(oid: &str) -> (r: bool)
    ensures
        r == valid_stash_oid(oid@),
{
    let n = oid.unicode_len();
    if n == 0 {
        return false;
    }
    let mut i: usize = 0;
    while i < n
        invariant
            n == oid@.len(),
            i <= n,
            forall|k: int| 0 <= k < i ==> is_hex_digit(#[trigger] oid@[k]),
        decreases n - i,
    {
        let c = oid.get_char(i);
        if !(('0' <= c && c <= '9') || ('a' <= c && c <= 'f') || ('A' <= c && c <= 'F')) {
            return false;
        }
        i = i + 1;
    }
    true
}

/// The name of the branch that recovers stash `oid` at attempt `suffix`: the stash's
/// first twelve digits after `submod-recovery-`, and `-suffix` from the second attempt on.
pub open spec fn recovery_branch_text(oid: Seq<char>, suffix: nat) -> Seq<char> {
    let short = oid.subrange(0, if oid.len() < 12 { oid.len() as int } else { 12 });
    if suffix == 0 {
        "submod-recovery-"@ + short
    } else {
        "submod-recovery-"@ + short + "-"@ + crate::plan::decimal(suffix)
    }
}

/// The name of the branch that recovers stash `oid` at attempt `suffix` (see
/// [`recovery_branch_text`]).
pub fn recovery_branch(oid: &str, suffix: usize) -> (r: String)
    ensures
        r@ == recovery_branch_text(oid@, suffix as nat),
{
    let n = oid.unicode_len();
    let k = if n < 12 { n } else { 12 };
    let mut name = owned("submod-recovery-");
    append(&mut name, oid.substring_char(0, k));
    if suffix > 0 {
        append(&mut name, "-");
        crate::plan::push_decimal(&mut name, suffix);
    }
    name
}

/// The command that recovers stash `oid` on branch `branch`.
pub open spec fn recovery_command_text(branch: Seq<char>, oid: Seq<char>) -> Seq<char> {
    "git stash branch "@ + branch + " "@ + oid
}

/// The command that recovers stash `oid` on branch `branch`.
pub fn recovery_command(branch: &str, oid: &str) -> (r: String)
    ensures
        r@ == recovery_command_text(branch@, oid@),
{
    let mut line = owned("git stash branch ");
    append(&mut line, branch);
    append(&mut line, " ");
    append(&mut line, oid);
    line
}

/// An update strategy as its `Debug` rendering names it.
pub open spec fn update_name(u: SerializableUpdate) -> Seq<char> {
    match u {
        SerializableUpdate::Checkout => "Checkout"@,
        SerializableUpdate::Rebase => "Rebase"@,
        SerializableUpdate::Merge => "Merge"@,
        SerializableUpdate::Nothing => "Nothing"@,
        SerializableUpdate::Unspecified => "Unspecified"@,
    }
}

/// An ignore setting as its `Debug` rendering names it.
pub open spec fn ignore_name(i: SerializableIgnore) -> Seq<char> {
    match i {
        SerializableIgnore::All => "All"@,
        SerializableIgnore::Dirty => "Dirty"@,
        SerializableIgnore::Untracked => "Untracked"@,
        SerializableIgnore::Nothing => "Nothing"@,
        SerializableIgnore::Unspecified => "Unspecified"@,
    }
}

/// An optional value written as `Some(..)` or `None`.
pub open spec fn optional_text(o: Option<Seq<char>>) -> Seq<char> {
    match o {
        Some(t) => "Some("@ + t + ")"@,
        None => "None"@,
    }
}

/// A flag written as `true` or `false`.
pub open spec fn flag_text(b: bool) -> Seq<char> {
    if b {
        "true"@
    } else {
        "false"@
    }
}

/// The detail a verbose listing shows of a submodule's effective settings.
pub open spec fn verbose_text(e: EntryView) -> Seq<char> {
    "effective: branch="@ + match e.branch {
        Some(b) => branch_text(b),
        None => "<remote-default>"@,
    } + ", update="@ + optional_text(
        match e.update {
            Some(u) => Some(update_name(u)),
            None => None,
        },
    ) + ", ignore="@ + optional_text(
        match e.ignore {
            Some(i) => Some(ignore_name(i)),
            None => None,
        },
    ) + ", active="@ + flag_text(or_value(e.active, true)) + ", shallow="@ + flag_text(
        or_value(e.shallow, false),
    ) + ", sparse_paths="@ + crate::check::debug_list_text(or_value(e.sparse_paths, Seq::empty()))
}

fn push_optional(line: &mut String, name: Option<&'static str>)
    ensures
        final(line)@ == old(line)@ + optional_text(
            match name {
                Some(n) => Some(n@),
                None => None,
            },
        ),
{
    match name {
        Some(n) => {
            line.append("Some(");
            line.append(n);
            line.append(")");
        },
        None => line.append("None"),
    }
}

fn push_flag(line: &mut String, b: bool)
    ensures
        final(line)@ == old(line)@ + flag_text(b),
{
    line.append(if b { "true" } else { "false" });
}

/// The detail a verbose listing shows of a submodule's effective settings (see
/// [`verbose_text`]).
pub fn verbose_detail(effective: &SubmoduleEntry) -> (r: String)
    ensures
        r@ == verbose_text(effective@),
{
    let mut line = owned("effective: branch=");
    match &effective.branch {
        Some(b) => {
            let t = b.display_text();
            line.append(t.as_str());
        },
        None => line.append("<remote-default>"),
    }
    line.append(", update=");
    let update: Option<&'static str> = match effective.update {
        Some(SerializableUpdate::Checkout) => Some("Checkout"),
        Some(SerializableUpdate::Rebase) => Some("Rebase"),
        Some(SerializableUpdate::Merge) => Some("Merge"),
        Some(SerializableUpdate::Nothing) => Some("Nothing"),
        Some(SerializableUpdate::Unspecified) => Some("Unspecified"),
        None => None,
    };
    push_optional(&mut line, update);
    line.append(", ignore=");
    let ignore: Option<&'static str> = match effective.ignore {
        Some(SerializableIgnore::All) => Some("All"),
        Some(SerializableIgnore::Dirty) => Some("Dirty"),
        Some(SerializableIgnore::Untracked) => Some("Untracked"),
        Some(SerializableIgnore::Nothing) => Some("Nothing"),
        Some(SerializableIgnore::Unspecified) => Some("Unspecified"),
        None => None,
    };
    push_optional(&mut line, ignore);
    line.append(", active=");
    push_flag(&mut line, match effective.active { Some(a) => a, None => true });
    line.append(", shallow=");
    push_flag(&mut line, match effective.shallow { Some(a) => a, None => false });
    line.append(", sparse_paths=");
    let none: Vec<String> = Vec::new();
    let listed = match &effective.sparse_paths {
        Some(v) => crate::check::debug_list(v),
        None => crate::check::debug_list(&none),
    };
    line.append(listed.as_str());
    proof {
        assert(texts(none@) =~= Seq::<Seq<char>>::empty());
    }
    line
}

} // verus!
