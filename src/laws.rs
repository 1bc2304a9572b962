//! What holds of every walk: a model of the walk over a directory tree,
//! built from the per-entry decision, and the laws proved of it.
use vstd::prelude::*;
use vstd::multiset::Multiset;
use crate::exclusion::{excluded, texts};
use crate::extension_filter::normalize;
use crate::filter::{reported, step_of, EntryKind, PathFilter, Step};

verus! {

/// A directory entry and, for a directory, the entries inside it.
pub struct Tree {
    pub path: Seq<char>,
    pub kind: EntryKind,
    pub children: Seq<Tree>,
}

/// The paths a walk reports under `t`, counted with multiplicity and in no
/// particular order.
pub open spec fn walk_tree(patterns: Seq<Seq<char>>, exts: Set<Seq<char>>, t: Tree) -> Multiset<Seq<char>>
    decreases t,
{
    match step_of(patterns, exts, false, t.path, t.kind) {
        Step::Accept => Multiset::singleton(t.path),
        Step::Pass => if t.kind == EntryKind::Dir {
            walk_forest(patterns, exts, t.children)
        } else {
            Multiset::empty()
        },
        _ => Multiset::empty(),
    }
}

/// The paths a walk reports under each of `ts`.
pub open spec fn walk_forest(
    patterns: Seq<Seq<char>>,
    exts: Set<Seq<char>>,
    ts: Seq<Tree>,
) -> Multiset<Seq<char>>
    decreases ts,
{
    if ts.len() == 0 {
        Multiset::empty()
    } else {
        walk_forest(patterns, exts, ts.drop_last()).add(walk_tree(patterns, exts, ts.last()))
    }
}

/// `d` is visited by a walk from `t`: it is `t`, or it lies below a
/// directory of `t` that no pattern excludes.
pub open spec fn reaches(patterns: Seq<Seq<char>>, t: Tree, d: Tree) -> bool
    decreases t,
{
    d == t || (t.kind == EntryKind::Dir && !excluded(patterns, t.path) && exists|i: int|
        0 <= i < t.children.len() && reaches(patterns, #[trigger] t.children[i], d))
}

/// An entry is accepted exactly when it is a regular file, not excluded,
/// with an allowed extension.
pub proof fn lemma_accept_iff_reported(
    patterns: Seq<Seq<char>>,
    exts: Set<Seq<char>>,
    path: Seq<char>,
    kind: EntryKind,
)
    ensures
        (step_of(patterns, exts, false, path, kind) == Step::Accept) == reported(patterns, exts, path, kind),
{
}

/// A path is reported by a walk from `t` iff some visited entry with that
/// path is a regular file, not excluded, with an allowed extension.
pub proof fn lemma_walk_exhaustive(patterns: Seq<Seq<char>>, exts: Set<Seq<char>>, t: Tree, p: Seq<char>)
    ensures
        walk_tree(patterns, exts, t).count(p) > 0 <==> exists|d: Tree|
            reaches(patterns, t, d) && d.path == p && reported(patterns, exts, d.path, d.kind),
    decreases t,
{
    let found = exists|d: Tree|
        reaches(patterns, t, d) && d.path == p && reported(patterns, exts, d.path, d.kind);
    let s = step_of(patterns, exts, false, t.path, t.kind);
    lemma_forest_exhaustive(patterns, exts, t.children, p);
    if s == Step::Accept {
        assert(reaches(patterns, t, t));
    } else if s == Step::Pass && t.kind == EntryKind::Dir {
        assert(!excluded(patterns, t.path));
        if walk_tree(patterns, exts, t).count(p) > 0 {
            let (i, d) = choose|i: int, d: Tree|
                0 <= i < t.children.len() && reaches(patterns, t.children[i], d) && d.path == p
                    && reported(patterns, exts, d.path, d.kind);
            assert(reaches(patterns, t, d));
        }
        if found {
            let d = choose|d: Tree|
                reaches(patterns, t, d) && d.path == p && reported(patterns, exts, d.path, d.kind);
            assert(d != t);
            let i = choose|i: int|
                0 <= i < t.children.len() && reaches(patterns, #[trigger] t.children[i], d);
            assert(walk_forest(patterns, exts, t.children).count(p) > 0);
        }
    } else {
        if found {
            let d = choose|d: Tree|
                reaches(patterns, t, d) && d.path == p && reported(patterns, exts, d.path, d.kind);
            assert(d != t);
        }
    }
}

/// A path is reported by a walk from the roots `ts` iff some entry visited
/// from one of them has that path and is reported.
pub proof fn lemma_forest_exhaustive(
    patterns: Seq<Seq<char>>,
    exts: Set<Seq<char>>,
    ts: Seq<Tree>,
    p: Seq<char>,
)
    ensures
        walk_forest(patterns, exts, ts).count(p) > 0 <==> exists|i: int, d: Tree|
            0 <= i < ts.len() && reaches(patterns, ts[i], d) && d.path == p && reported(
                patterns,
                exts,
                d.path,
                d.kind,
            ),
    decreases ts,
{
    if ts.len() > 0 {
        let init = ts.drop_last();
        let last = ts.last();
        assert(decreases_to!(ts => ts[ts.len() - 1]));
        lemma_forest_exhaustive(patterns, exts, init, p);
        lemma_walk_exhaustive(patterns, exts, last, p);
        if walk_forest(patterns, exts, ts).count(p) > 0 {
            if walk_forest(patterns, exts, init).count(p) > 0 {
                let (i, d) = choose|i: int, d: Tree|
                    0 <= i < init.len() && reaches(patterns, init[i], d) && d.path == p && reported(
                        patterns,
                        exts,
                        d.path,
                        d.kind,
                    );
                assert(ts[i] == init[i]);
            } else {
                let d = choose|d: Tree|
                    reaches(patterns, last, d) && d.path == p && reported(patterns, exts, d.path, d.kind);
                assert(ts[ts.len() - 1] == last);
            }
        }
        if exists|i: int, d: Tree|
            0 <= i < ts.len() && reaches(patterns, ts[i], d) && d.path == p && reported(
                patterns,
                exts,
                d.path,
                d.kind,
            ) {
            let (i, d) = choose|i: int, d: Tree|
                0 <= i < ts.len() && reaches(patterns, ts[i], d) && d.path == p && reported(
                    patterns,
                    exts,
                    d.path,
                    d.kind,
                );
            if i < ts.len() - 1 {
                assert(init[i] == ts[i]);
            }
        }
    }
}

/// An excluded directory is pruned: nothing below it is visited, and the
/// walk reports nothing from it, however deep its subtree.
pub proof fn lemma_excluded_dir_pruned(patterns: Seq<Seq<char>>, exts: Set<Seq<char>>, t: Tree)
    requires
        t.kind == EntryKind::Dir,
        excluded(patterns, t.path),
    ensures
        walk_tree(patterns, exts, t) == Multiset::<Seq<char>>::empty(),
        forall|d: Tree| reaches(patterns, t, d) ==> d == t,
{
}

/// Once cancellation is observed, every entry makes the worker stop.
pub proof fn lemma_cancelled_quits(
    patterns: Seq<Seq<char>>,
    exts: Set<Seq<char>>,
    path: Seq<char>,
    kind: EntryKind,
)
    ensures
        step_of(patterns, exts, true, path, kind) == Step::Quit,
{
}

/// Two filters built from the same patterns and extensions decide every
/// entry alike, and so report the same multiset of paths from any tree,
/// whatever order the walk takes.
pub proof fn lemma_same_config_same_walk(
    a: PathFilter,
    b: PathFilter,
    exclusion_patterns: Seq<String>,
    extensions: Seq<String>,
    cancelled: bool,
    t: Tree,
)
    requires
        a.patterns() == texts(exclusion_patterns),
        b.patterns() == texts(exclusion_patterns),
        forall|e: Seq<char>|
            a.extensions().contains(e) <==> exists|i: int|
                0 <= i < extensions.len() && e == normalize(#[trigger] extensions[i]@),
        forall|e: Seq<char>|
            b.extensions().contains(e) <==> exists|i: int|
                0 <= i < extensions.len() && e == normalize(#[trigger] extensions[i]@),
    ensures
        forall|path: Seq<char>, kind: EntryKind|
            step_of(a.patterns(), a.extensions(), cancelled, path, kind) == step_of(
                b.patterns(),
                b.extensions(),
                cancelled,
                path,
                kind,
            ),
        walk_tree(a.patterns(), a.extensions(), t) == walk_tree(b.patterns(), b.extensions(), t),
{
    assert(a.extensions() =~= b.extensions());
}

} // verus!
