//! Source findings grouped by path and kind, each group becoming one WIP object.
use vstd::prelude::*;

use crate::text::{decimal, eq_text, owned, push_decimal};
use crate::wip::model::{
    kind_index, kind_index_exec, kind_name, kind_name_exec, standing_rank, strs, wip_views,
    GitHubSnapshot, SourceFinding, Standing, WipKind, WipObject, WipView,
};
use crate::wip::order::{
    insert_sorted, lemma_insert_sorted, lemma_lex_irrefl, lemma_listing_exists, lists, lemma_lex_total, lemma_lex_trans,
    lemma_sorted_listing, lemma_str_order, lex_lt, sorted_by, sorted_listing, str_lt, str_order,
    strict_total,
};
use crate::wip::source::{finding_id, finding_id_of};
use crate::wip::analyze::{
    dependents_for, dependents_of, edge_views, source_closure, source_closure_conditions,
    standing_rank_exec,
};

verus! {

// ---------------------------------------------------------------------------
// Source findings, grouped by path and kind
// ---------------------------------------------------------------------------
/// Order of group keys: by path, then by kind.
pub open spec fn group_order() -> spec_fn((Seq<char>, WipKind), (Seq<char>, WipKind)) -> bool {
    |a: (Seq<char>, WipKind), b: (Seq<char>, WipKind)|
        lex_lt(a.0, b.0) || (a.0 == b.0 && kind_index(a.1) < kind_index(b.1))
}

pub proof fn lemma_group_order()
    ensures
        strict_total(group_order()),
{
    assert forall|a: (Seq<char>, WipKind)| !#[trigger] group_order()(a, a) by {
        lemma_lex_irrefl(a.0);
    }
    assert forall|a: (Seq<char>, WipKind), b: (Seq<char>, WipKind), c: (Seq<char>, WipKind)|
        #[trigger] group_order()(a, b) && #[trigger] group_order()(b, c) implies group_order()(a, c) by {
        if lex_lt(a.0, b.0) && lex_lt(b.0, c.0) {
            lemma_lex_trans(a.0, b.0, c.0);
        }
    }
    assert forall|a: (Seq<char>, WipKind), b: (Seq<char>, WipKind)|
        a != b implies #[trigger] group_order()(a, b) || group_order()(b, a) by {
        if a.0 != b.0 {
            lemma_lex_total(a.0, b.0);
        } else {
            assert(a.1 != b.1);
        }
    }
}

pub open spec fn finding_key(f: SourceFinding) -> (Seq<char>, WipKind) {
    (f.path@, f.kind)
}

/// The findings among the first `n` whose key is `key`, in order.
pub open spec fn group_of(fs: Seq<SourceFinding>, key: (Seq<char>, WipKind), n: int) -> Seq<SourceFinding>
    decreases n,
{
    if n <= 0 {
        Seq::empty()
    } else {
        let prev = group_of(fs, key, n - 1);
        if finding_key(fs[n - 1]) == key {
            prev.push(fs[n - 1])
        } else {
            prev
        }
    }
}

/// The distinct keys of the findings, in increasing order.
pub open spec fn group_keys(fs: Seq<SourceFinding>) -> Seq<(Seq<char>, WipKind)> {
    sorted_listing(
        |k: (Seq<char>, WipKind)| exists|i: int| 0 <= i < fs.len() && finding_key(#[trigger] fs[i]) == k,
        group_order(),
    )
}

/// The standing of the most severe finding among the first `n` (the last such on ties).
pub open spec fn max_standing(g: Seq<SourceFinding>, n: int) -> Standing
    decreases n,
{
    if n <= 0 {
        Standing::Unknown
    } else {
        let p = max_standing(g, n - 1);
        if standing_rank(g[n - 1].standing) >= standing_rank(p) {
            g[n - 1].standing
        } else {
            p
        }
    }
}

/// The distinct markers of a group, in increasing order.
pub open spec fn group_markers(g: Seq<SourceFinding>) -> Seq<Seq<char>> {
    sorted_listing(|m: Seq<char>| exists|i: int| 0 <= i < g.len() && (#[trigger] g[i]).marker@ == m, str_order())
}

/// The parts joined with `sep` between them.
pub open spec fn join(q: Seq<Seq<char>>, sep: Seq<char>) -> Seq<char>
    decreases q.len(),
{
    if q.len() == 0 {
        Seq::empty()
    } else if q.len() == 1 {
        q[0]
    } else {
        join(q.drop_last(), sep) + sep + q.last()
    }
}

pub open spec fn finding_evidence(f: SourceFinding) -> Seq<char> {
    f.path@ + ":"@ + decimal(f.line as nat) + ":"@ + f.marker@
}

/// The one WIP object a non-empty group of findings becomes.
pub open spec fn group_object(
    repository: Seq<char>,
    edges: Seq<(Seq<char>, Seq<char>)>,
    key: (Seq<char>, WipKind),
    g: Seq<SourceFinding>,
) -> WipView {
    let id = finding_id_of(key.0, 0, kind_name(key.1));
    let standing = max_standing(g, g.len() as int);
    WipView {
        id: id,
        repository: repository,
        kind: key.1,
        standing: standing,
        title: decimal(g.len()) + " source WIP finding(s) in "@ + key.0 + " ["@ + join(group_markers(g), ", "@)
            + "]"@,
        origin: "source.scan"@,
        created_at: None,
        last_activity_at: None,
        age_seconds: 0,
        blockers: if standing == Standing::Blocked {
            seq![g[0].message@]
        } else {
            Seq::empty()
        },
        dependents: dependents_of(edges, id, repository),
        evidence: g.map_values(|f: SourceFinding| finding_evidence(f)),
        closure_conditions: source_closure(key.1),
    }
}

/// One WIP object per (path, kind) group of findings, in key order.
pub open spec fn collapsed(repository: Seq<char>, edges: Seq<(Seq<char>, Seq<char>)>, fs: Seq<SourceFinding>) -> Seq<WipView> {
    group_keys(fs).map_values(
        |k: (Seq<char>, WipKind)| group_object(repository, edges, k, group_of(fs, k, fs.len() as int)),
    )
}

/// The repository that source findings belong to.
pub open spec fn source_repository(snap: GitHubSnapshot) -> Seq<char> {
    match snap.workspace_repository {
        Some(r) => r@,
        None => if snap.repositories@.len() == 1 {
            snap.repositories@[0].full_name@
        } else {
            "local-workspace"@
        },
    }
}

/// The keys of the findings are listed, in strictly increasing order, by `group_keys`.
pub proof fn lemma_group_keys(fs: Seq<SourceFinding>)
    ensures
        sorted_by(group_keys(fs), group_order()),
        forall|k: (Seq<char>, WipKind)| #[trigger] group_keys(fs).contains(k) <==> exists|i: int|
            0 <= i < fs.len() && finding_key(#[trigger] fs[i]) == k,
{
    lemma_group_order();
    let xs = fs.map_values(|f: SourceFinding| finding_key(f));
    lemma_listing_exists(xs, group_order());
    let p = |k: (Seq<char>, WipKind)| exists|i: int| 0 <= i < fs.len() && finding_key(#[trigger] fs[i]) == k;
    let q = choose|q: Seq<(Seq<char>, WipKind)>| sorted_by(q, group_order()) && forall|x: (Seq<char>, WipKind)|
        #[trigger] q.contains(x) <==> xs.contains(x);
    assert forall|k: (Seq<char>, WipKind)| #[trigger] q.contains(k) <==> p(k) by {
        if xs.contains(k) {
            let j = choose|j: int| 0 <= j < xs.len() && xs[j] == k;
            assert(finding_key(fs[j]) == k);
        }
        if p(k) {
            let i = choose|i: int| 0 <= i < fs.len() && finding_key(#[trigger] fs[i]) == k;
            assert(xs[i] == k);
        }
    }
    assert(lists(q, p));
    lemma_sorted_listing(q, p, group_order());
}

proof fn lemma_group_of(fs: Seq<SourceFinding>, key: (Seq<char>, WipKind), n: int)
    requires
        0 <= n <= fs.len(),
    ensures
        forall|j: int| 0 <= j < group_of(fs, key, n).len() ==> finding_key(#[trigger] group_of(fs, key, n)[j]) == key,
        forall|i: int| 0 <= i < n && finding_key(#[trigger] fs[i]) == key ==> group_of(fs, key, n).contains(fs[i]),
    decreases n,
{
    if n > 0 {
        lemma_group_of(fs, key, n - 1);
        let prev = group_of(fs, key, n - 1);
        let g = group_of(fs, key, n);
        assert forall|j: int| 0 <= j < g.len() implies finding_key(#[trigger] g[j]) == key by {
            if j < prev.len() {
                assert(g[j] == prev[j]);
            }
        }
        assert forall|i: int| 0 <= i < n && finding_key(#[trigger] fs[i]) == key implies g.contains(fs[i]) by {
            if i < n - 1 {
                let j = choose|j: int| 0 <= j < prev.len() && prev[j] == fs[i];
                assert(g[j] == fs[i]);
            } else {
                assert(g[g.len() - 1] == fs[i]);
            }
        }
    }
}

proof fn lemma_max_standing(g: Seq<SourceFinding>, n: int)
    requires
        1 <= n <= g.len(),
    ensures
        forall|i: int| 0 <= i < n ==> standing_rank((#[trigger] g[i]).standing) <= standing_rank(max_standing(g, n)),
        exists|i: int| 0 <= i < n && (#[trigger] g[i]).standing == max_standing(g, n),
    decreases n,
{
    if n > 1 {
        lemma_max_standing(g, n - 1);
        let i = choose|i: int| 0 <= i < n - 1 && (#[trigger] g[i]).standing == max_standing(g, n - 1);
        if standing_rank(g[n - 1].standing) >= standing_rank(max_standing(g, n - 1)) {
            assert(g[n - 1].standing == max_standing(g, n));
        } else {
            assert(g[i].standing == max_standing(g, n));
        }
    } else {
        assert(g[0].standing == max_standing(g, 1));
    }
}

/// Source findings collapse to one WIP object per distinct (path, kind), in
/// increasing (path, kind) order. The object for a key gathers every finding
/// with that key (one evidence entry each), takes the standing of greatest
/// severity among them, and has origin `source.scan`, age zero and the given
/// repository.
pub proof fn lemma_collapse_grouping(repository: Seq<char>, edges: Seq<(Seq<char>, Seq<char>)>, fs: Seq<SourceFinding>)
    ensures
        ({
            let keys = group_keys(fs);
            let objs = collapsed(repository, edges, fs);
            &&& sorted_by(keys, group_order())
            &&& forall|k: (Seq<char>, WipKind)| #[trigger] keys.contains(k) <==> exists|i: int|
                0 <= i < fs.len() && finding_key(#[trigger] fs[i]) == k
            &&& objs.len() == keys.len()
            &&& forall|j: int| 0 <= j < objs.len() ==> {
                let o = #[trigger] objs[j];
                let g = group_of(fs, keys[j], fs.len() as int);
                &&& o.kind == keys[j].1
                &&& o.origin == "source.scan"@ && o.age_seconds == 0 && o.repository == repository
                &&& g.len() >= 1 && o.evidence.len() == g.len()
                &&& forall|m: int| 0 <= m < g.len() ==> finding_key(#[trigger] g[m]) == keys[j]
                &&& forall|i: int| 0 <= i < fs.len() && finding_key(#[trigger] fs[i]) == keys[j] ==> g.contains(fs[i])
                &&& forall|m: int| 0 <= m < g.len() ==> standing_rank((#[trigger] g[m]).standing) <= standing_rank(o.standing)
                &&& exists|m: int| 0 <= m < g.len() && (#[trigger] g[m]).standing == o.standing
            }
        }),
{
    lemma_group_keys(fs);
    let keys = group_keys(fs);
    let objs = collapsed(repository, edges, fs);
    assert forall|j: int| 0 <= j < objs.len() implies {
        let o = #[trigger] objs[j];
        let g = group_of(fs, keys[j], fs.len() as int);
        &&& o.kind == keys[j].1
        &&& o.origin == "source.scan"@ && o.age_seconds == 0 && o.repository == repository
        &&& g.len() >= 1 && o.evidence.len() == g.len()
        &&& forall|m: int| 0 <= m < g.len() ==> finding_key(#[trigger] g[m]) == keys[j]
        &&& forall|i: int| 0 <= i < fs.len() && finding_key(#[trigger] fs[i]) == keys[j] ==> g.contains(fs[i])
        &&& forall|m: int| 0 <= m < g.len() ==> standing_rank((#[trigger] g[m]).standing) <= standing_rank(o.standing)
        &&& exists|m: int| 0 <= m < g.len() && (#[trigger] g[m]).standing == o.standing
    } by {
        let k = keys[j];
        let g = group_of(fs, k, fs.len() as int);
        assert(keys.contains(k));
        lemma_group_of(fs, k, fs.len() as int);
        let i = choose|i: int| 0 <= i < fs.len() && finding_key(#[trigger] fs[i]) == k;
        assert(g.contains(fs[i]));
        assert(objs[j] == group_object(repository, edges, k, g));
        lemma_max_standing(g, g.len() as int);
    }
}

pub proof fn lemma_group_absent(fs: Seq<SourceFinding>, key: (Seq<char>, WipKind), n: int)
    requires
        0 <= n <= fs.len(),
        forall|j: int| 0 <= j < n ==> finding_key(#[trigger] fs[j]) != key,
    ensures
        group_of(fs, key, n) == Seq::<SourceFinding>::empty(),
    decreases n,
{
    if n > 0 {
        lemma_group_absent(fs, key, n - 1);
    }
}

pub open spec fn picks(fs: Seq<SourceFinding>, idx: Seq<usize>) -> Seq<SourceFinding> {
    idx.map_values(|j: usize| fs[j as int])
}

pub open spec fn key_views(gs: Seq<(String, WipKind, Vec<usize>)>) -> Seq<(Seq<char>, WipKind)> {
    gs.map_values(|g: (String, WipKind, Vec<usize>)| (g.0@, g.1))
}

pub(crate) fn key_lt_exec(ap: &str, ak: WipKind, bp: &str, bk: WipKind) -> (r: bool)
    ensures
        r == group_order()((ap@, ak), (bp@, bk)),
{
    str_lt(ap, bp) || (eq_text(ap, bp) && kind_index_exec(ak) < kind_index_exec(bk))
}

/// Groups the findings by key: each group's indices, in increasing key order.
pub(crate) fn group_findings(fs: &Vec<SourceFinding>) -> (gs: Vec<(String, WipKind, Vec<usize>)>)
    ensures
        key_views(gs@) == group_keys(fs@),
        forall|k: int|
            0 <= k < gs@.len() ==> picks(fs@, (#[trigger] gs@[k]).2@) == group_of(
                fs@,
                (gs@[k].0@, gs@[k].1),
                fs@.len() as int,
            ),
        forall|k: int| 0 <= k < gs@.len() ==> (#[trigger] gs@[k]).2@.len() > 0,
        forall|k: int, j: int| 0 <= k < gs@.len() && 0 <= j < gs@[k].2@.len() ==> (#[trigger] gs@[k].2@[j]) < fs@.len(),
{
    let mut gs: Vec<(String, WipKind, Vec<usize>)> = Vec::new();
    let mut i: usize = 0;
    proof {
        lemma_group_order();
    }
    while i < fs.len()
        invariant
            i <= fs@.len(),
            strict_total(group_order()),
            sorted_by(key_views(gs@), group_order()),
            forall|key: (Seq<char>, WipKind)|
                #[trigger] key_views(gs@).contains(key) <==> exists|j: int| 0 <= j < i && finding_key(#[trigger] fs@[j]) == key,
            forall|k: int|
                0 <= k < gs@.len() ==> picks(fs@, (#[trigger] gs@[k]).2@) == group_of(
                    fs@,
                    (gs@[k].0@, gs@[k].1),
                    i as int,
                ),
            forall|k: int| 0 <= k < gs@.len() ==> (#[trigger] gs@[k]).2@.len() > 0,
            forall|k: int, j: int| 0 <= k < gs@.len() && 0 <= j < gs@[k].2@.len() ==> (#[trigger] gs@[k].2@[j]) < i,
        decreases fs@.len() - i,
    {
        let f = &fs[i];
        let ghost key = finding_key(fs@[i as int]);
        let ghost q = key_views(gs@);
        let mut pos: usize = 0;
        while pos < gs.len() && key_lt_exec(gs[pos].0.as_str(), gs[pos].1, f.path.as_str(), f.kind)
            invariant
                pos <= gs@.len(),
                q == key_views(gs@),
                key == finding_key(fs@[i as int]),
                key == (f.path@, f.kind),
                forall|j: int| 0 <= j < pos ==> group_order()(#[trigger] q[j], key),
            decreases gs@.len() - pos,
        {
            assert(q[pos as int] == (gs@[pos as int].0@, gs@[pos as int].1));
            pos = pos + 1;
        }
        let found = pos < gs.len() && eq_text(gs[pos].0.as_str(), f.path.as_str()) && gs[pos].1 == f.kind;
        let ghost old_gs = gs@;
        if found {
            assert(q[pos as int] == key);
            let mut g = gs.remove(pos);
            g.2.push(i);
            gs.insert(pos, g);
            proof {
                assert(key_views(gs@) =~= q);
                assert forall|k: int|
                    0 <= k < gs@.len() implies picks(fs@, (#[trigger] gs@[k]).2@) == group_of(
                        fs@,
                        (gs@[k].0@, gs@[k].1),
                        i + 1,
                    ) by {
                    if k == pos {
                        assert(picks(fs@, gs@[k].2@) =~= picks(fs@, old_gs[k].2@).push(fs@[i as int]));
                    } else {
                        assert(gs@[k] == old_gs[k]);
                        assert(q[k] != key) by {
                            if k < pos {
                                assert(group_order()(q[k], q[pos as int]));
                            } else {
                                assert(group_order()(q[pos as int], q[k]));
                            }
                        }
                    }
                }
                assert forall|k: int, j: int| 0 <= k < gs@.len() && 0 <= j < gs@[k].2@.len() implies (#[trigger] gs@[k].2@[j]) < i + 1 by {
                    if k != pos {
                        assert(gs@[k] == old_gs[k]);
                    } else if j < old_gs[k].2@.len() {
                        assert(gs@[k].2@[j] == old_gs[k].2@[j]);
                    }
                }
                assert forall|key2: (Seq<char>, WipKind)|
                    #[trigger] key_views(gs@).contains(key2) <==> exists|j: int| 0 <= j < i + 1 && finding_key(#[trigger] fs@[j]) == key2 by {
                    if key_views(gs@).contains(key2) && !(exists|j: int| 0 <= j < i && finding_key(#[trigger] fs@[j]) == key2) {
                    }
                    if exists|j: int| 0 <= j < i + 1 && finding_key(#[trigger] fs@[j]) == key2 {
                        let j = choose|j: int| 0 <= j < i + 1 && finding_key(#[trigger] fs@[j]) == key2;
                        if j == i {
                            assert(q[pos as int] == key2);
                        }
                    }
                }
            }
        } else {
            proof {
                assert(!q.contains(key)) by {
                    if q.contains(key) {
                        let k = choose|k: int| 0 <= k < q.len() && q[k] == key;
                        if k < pos {
                            assert(group_order()(q[k], key));
                        } else if pos < q.len() {
                            assert(q[pos as int] == (gs@[pos as int].0@, gs@[pos as int].1));
                            if k > pos {
                                assert(group_order()(q[pos as int], q[k]));
                                assert(!group_order()(q[pos as int], key));
                            }
                        }
                    }
                }
                assert forall|j: int| pos <= j < q.len() implies group_order()(key, #[trigger] q[j]) by {
                    assert(q[pos as int] == (gs@[pos as int].0@, gs@[pos as int].1));
                    assert(q[pos as int] != key);
                    if j > pos {
                        assert(group_order()(q[pos as int], q[j]));
                    }
                }
                lemma_insert_sorted(q, pos as int, key, group_order());
                assert forall|j: int| 0 <= j < i implies finding_key(#[trigger] fs@[j]) != key by {
                    if finding_key(fs@[j]) == key {
                        assert(q.contains(key));
                    }
                }
                lemma_group_absent(fs@, key, i as int);
            }
            let g = (f.path.clone(), f.kind, vec![i]);
            gs.insert(pos, g);
            proof {
                assert(key_views(gs@) =~= q.insert(pos as int, key));
                assert forall|k: int|
                    0 <= k < gs@.len() implies picks(fs@, (#[trigger] gs@[k]).2@) == group_of(
                        fs@,
                        (gs@[k].0@, gs@[k].1),
                        i + 1,
                    ) by {
                    if k == pos {
                        assert(picks(fs@, gs@[k].2@) =~= seq![fs@[i as int]]);
                        assert(group_of(fs@, key, i + 1) =~= Seq::<SourceFinding>::empty().push(fs@[i as int]));
                    } else {
                        let ok = if k < pos { k } else { k - 1 };
                        assert(gs@[k] == old_gs[ok]);
                        assert(q[ok] != key);
                    }
                }
                assert forall|k: int, j: int| 0 <= k < gs@.len() && 0 <= j < gs@[k].2@.len() implies (#[trigger] gs@[k].2@[j]) < i + 1 by {
                    if k < pos {
                        assert(gs@[k] == old_gs[k]);
                    } else if k > pos {
                        assert(gs@[k] == old_gs[k - 1]);
                    }
                }
                assert forall|k: int| 0 <= k < gs@.len() implies (#[trigger] gs@[k]).2@.len() > 0 by {
                    if k < pos {
                        assert(gs@[k] == old_gs[k]);
                    } else if k > pos {
                        assert(gs@[k] == old_gs[k - 1]);
                    }
                }
                assert forall|key2: (Seq<char>, WipKind)|
                    #[trigger] key_views(gs@).contains(key2) <==> exists|j: int| 0 <= j < i + 1 && finding_key(#[trigger] fs@[j]) == key2 by {
                    if exists|j: int| 0 <= j < i + 1 && finding_key(#[trigger] fs@[j]) == key2 {
                        let j = choose|j: int| 0 <= j < i + 1 && finding_key(#[trigger] fs@[j]) == key2;
                        if j < i {
                            assert(q.contains(key2));
                        }
                    }
                    if key_views(gs@).contains(key2) && key2 == key {
                        assert(finding_key(fs@[i as int]) == key2);
                    }
                }
            }
        }
        i = i + 1;
    }
    proof {
        lemma_sorted_listing(
            key_views(gs@),
            |k: (Seq<char>, WipKind)| exists|i: int| 0 <= i < fs@.len() && finding_key(#[trigger] fs@[i]) == k,
            group_order(),
        );
    }
    gs
}

pub(crate) fn join_strs(q: &Vec<String>, sep: &str) -> (r: String)
    ensures
        r@ == join(strs(q@), sep@),
{
    let ghost v = strs(q@);
    let mut r = String::new();
    let mut k: usize = 0;
    assert(r@ =~= join(v.take(0), sep@));
    while k < q.len()
        invariant
            k <= q@.len(),
            v == strs(q@),
            r@ == join(v.take(k as int), sep@),
        decreases q@.len() - k,
    {
        if k > 0 {
            r.append(sep);
        }
        r.append(q[k].as_str());
        proof {
            let t = v.take(k + 1);
            assert(t.drop_last() =~= v.take(k as int));
            assert(t.last() == q@[k as int]@);
            if k == 0 {
                assert(t.len() == 1);
            }
        }
        k = k + 1;
    }
    assert(v.take(k as int) =~= v);
    r
}

pub(crate) fn make_group_object(
    repository: &str,
    edges: &Vec<(String, String)>,
    fs: &Vec<SourceFinding>,
    path: &str,
    kind: WipKind,
    idx: &Vec<usize>,
) -> (o: WipObject)
    requires
        idx@.len() > 0,
        forall|j: int| 0 <= j < idx@.len() ==> (#[trigger] idx@[j]) < fs@.len(),
    ensures
        o@ == group_object(repository@, edge_views(edges@), (path@, kind), picks(fs@, idx@)),
{
    let ghost g = picks(fs@, idx@);
    let mut standing = Standing::Unknown;
    let mut markers: Vec<String> = Vec::new();
    let mut evidence: Vec<String> = Vec::new();
    let mut k: usize = 0;
    assert(strs(markers@) =~= Seq::<Seq<char>>::empty());
    while k < idx.len()
        invariant
            k <= idx@.len(),
            g == picks(fs@, idx@),
            forall|j: int| 0 <= j < idx@.len() ==> (#[trigger] idx@[j]) < fs@.len(),
            standing == max_standing(g, k as int),
            sorted_by(strs(markers@), str_order()),
            forall|m: Seq<char>| #[trigger] strs(markers@).contains(m) <==> exists|i: int| 0 <= i < k && (#[trigger] g[i]).marker@ == m,
            strs(evidence@) == g.take(k as int).map_values(|f: SourceFinding| finding_evidence(f)),
        decreases idx@.len() - k,
    {
        let f = &fs[idx[k]];
        assert(g[k as int] == *f);
        if standing_rank_exec(f.standing) >= standing_rank_exec(standing) {
            standing = f.standing;
        }
        let ghost m0 = strs(markers@);
        insert_sorted(&mut markers, f.marker.as_str());
        let mut e = owned(f.path.as_str());
        e.append(":");
        push_decimal(&mut e, f.line);
        e.append(":");
        e.append(f.marker.as_str());
        let ghost e0 = evidence@;
        evidence.push(e);
        proof {
            assert(strs(evidence@) =~= strs(e0).push(finding_evidence(g[k as int])));
            assert(g.take(k + 1) =~= g.take(k as int).push(g[k as int]));
            assert forall|m: Seq<char>| #[trigger] strs(markers@).contains(m) <==> exists|i: int| 0 <= i < k + 1 && (#[trigger] g[i]).marker@ == m by {
                if exists|i: int| 0 <= i < k + 1 && (#[trigger] g[i]).marker@ == m {
                    let i = choose|i: int| 0 <= i < k + 1 && (#[trigger] g[i]).marker@ == m;
                    if i < k {
                        assert(m0.contains(m));
                    }
                }
            }
        }
        k = k + 1;
    }
    proof {
        assert(g.take(k as int) =~= g);
        lemma_str_order();
        lemma_sorted_listing(strs(markers@), |m: Seq<char>| exists|i: int| 0 <= i < g.len() && (#[trigger] g[i]).marker@ == m, str_order());
    }
    let joined = join_strs(&markers, ", ");
    let id = finding_id(path, 0, kind_name_exec(kind));
    let mut title = String::new();
    push_decimal(&mut title, idx.len());
    title.append(" source WIP finding(s) in ");
    title.append(path);
    title.append(" [");
    title.append(joined.as_str());
    title.append("]");
    let blockers = if standing == Standing::Blocked {
        vec![fs[idx[0]].message.clone()]
    } else {
        Vec::new()
    };
    let dependents = dependents_for(edges, id.as_str(), repository);
    let o = WipObject {
        id: id,
        repository: owned(repository),
        kind: kind,
        standing: standing,
        title: title,
        origin: owned("source.scan"),
        created_at: None,
        last_activity_at: None,
        age_seconds: 0,
        blockers: blockers,
        dependents: dependents,
        evidence: evidence,
        closure_conditions: source_closure_conditions(kind),
    };
    assert(o@ =~= group_object(repository@, edge_views(edges@), (path@, kind), g)) by {
        assert(strs(o.blockers@) =~= group_object(repository@, edge_views(edges@), (path@, kind), g).blockers);
        assert(o.title@ =~= group_object(repository@, edge_views(edges@), (path@, kind), g).title);
    }
    o
}

pub(crate) fn collapse_source_findings(
    snapshot: &GitHubSnapshot,
    edges: &Vec<(String, String)>,
    findings: &Vec<SourceFinding>,
) -> (r: Vec<WipObject>)
    ensures
        wip_views(r@) == collapsed(source_repository(*snapshot), edge_views(edges@), findings@),
{
    let repository = match &snapshot.workspace_repository {
        Some(name) => name.clone(),
        None => if snapshot.repositories.len() == 1 {
            snapshot.repositories[0].full_name.clone()
        } else {
            owned("local-workspace")
        },
    };
    let gs = group_findings(findings);
    let ghost keys = key_views(gs@);
    let ghost spec = collapsed(source_repository(*snapshot), edge_views(edges@), findings@);
    let mut r: Vec<WipObject> = Vec::new();
    let mut k: usize = 0;
    while k < gs.len()
        invariant
            k <= gs@.len(),
            keys == key_views(gs@),
            keys == group_keys(findings@),
            repository@ == source_repository(*snapshot),
            spec == collapsed(source_repository(*snapshot), edge_views(edges@), findings@),
            forall|j: int|
                0 <= j < gs@.len() ==> picks(findings@, (#[trigger] gs@[j]).2@) == group_of(
                    findings@,
                    (gs@[j].0@, gs@[j].1),
                    findings@.len() as int,
                ),
            forall|j: int| 0 <= j < gs@.len() ==> (#[trigger] gs@[j]).2@.len() > 0,
            forall|a: int, b: int| 0 <= a < gs@.len() && 0 <= b < gs@[a].2@.len() ==> (#[trigger] gs@[a].2@[b]) < findings@.len(),
            wip_views(r@) == spec.take(k as int),
        decreases gs@.len() - k,
    {
        let g = &gs[k];
        proof {
            let gg = group_of(findings@, (g.0@, g.1), findings@.len() as int);
            assert(picks(findings@, g.2@) == gg);
            assert forall|j: int| 0 <= j < g.2@.len() implies (#[trigger] g.2@[j]) < findings@.len() by {
                assert(gs@[k as int].2@[j] < findings@.len());
            }
        }
        let o = make_group_object(repository.as_str(), edges, findings, g.0.as_str(), g.1, &g.2);
        let ghost before = r@;
        r.push(o);
        proof {
            assert(keys[k as int] == (g.0@, g.1));
            assert(spec[k as int] == group_object(source_repository(*snapshot), edge_views(edges@), keys[k as int], group_of(findings@, keys[k as int], findings@.len() as int)));
            assert(wip_views(r@) =~= wip_views(before).push(o@));
            assert(spec.take(k + 1) =~= spec.take(k as int).push(spec[k as int]));
        }
        k = k + 1;
    }
    assert(spec.take(k as int) =~= spec);
    r
}


} // verus!
