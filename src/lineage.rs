//! From a Deployment to its live ReplicaSet generation, and from that to the
//! Pods it controls.
use crate::kinds::{deployment_kind_spec, replicaset_kind_spec};
use crate::order::{lemma_meta_lt_strict, lemma_meta_lt_total, meta_lt, meta_tied, precedes};
use crate::resource::{Deployment, Pod, ReplicaSet};
use crate::template::{optional_templates_match, templates_match};
use crate::ownership::controlled_by;
use vstd::prelude::*;

verus! {

/// `rs` is controlled by `d` and its template matches `d`'s.
pub open spec fn is_candidate(d: Deployment, rs: ReplicaSet) -> bool {
    &&& controlled_by(rs.metadata, deployment_kind_spec(), d.metadata.name@)
    &&& templates_match(rs.template, d.template)
}

/// Entry `i` comes no later than entry `j`: strictly before it in creation
/// order, or tied with it and not after it in the list.
pub open spec fn no_later(rss: Seq<ReplicaSet>, i: int, j: int) -> bool {
    meta_lt(rss[i].metadata, rss[j].metadata) || (meta_tied(rss[i].metadata, rss[j].metadata) && i
        <= j)
}

/// Entry `i` is the live generation: the first candidate in creation order.
pub open spec fn is_live(d: Deployment, rss: Seq<ReplicaSet>, i: int) -> bool {
    &&& 0 <= i < rss.len()
    &&& is_candidate(d, rss[i])
    &&& forall|j: int| 0 <= j < rss.len() && #[trigger] is_candidate(d, rss[j]) ==> no_later(rss, i, j)
}

/// The index of the live generation among `rss`, if there is one.
pub open spec fn live_index(d: Deployment, rss: Seq<ReplicaSet>) -> Option<int> {
    if exists|i: int| is_live(d, rss, i) {
        Some(choose|i: int| is_live(d, rss, i))
    } else {
        None
    }
}

/// `p` is controlled by `rs`.
pub open spec fn pod_of(rs: ReplicaSet, p: Pod) -> bool {
    controlled_by(p.metadata, replicaset_kind_spec(), rs.metadata.name@)
}

/// The Pods of `pods` that `rs` controls, in their order.
pub open spec fn pods_of(rs: ReplicaSet, pods: Seq<Pod>) -> Seq<Pod> {
    pods.filter(|p: Pod| pod_of(rs, p))
}

/// What resolution yields for `d` from the ReplicaSets and Pods of its
/// namespace: nothing without a live generation, else the Pods it controls.
pub open spec fn resolved(d: Deployment, rss: Seq<ReplicaSet>, pods: Seq<Pod>) -> Option<Seq<Pod>> {
    match live_index(d, rss) {
        None => None,
        Some(i) => Some(pods_of(rss[i], pods)),
    }
}

/// The view of an optional list of Pods.
pub open spec fn pods_view(r: Option<Vec<Pod>>) -> Option<Seq<Pod>> {
    match r {
        None => None,
        Some(v) => Some(v@),
    }
}

/// At most one entry is the live generation.
pub proof fn lemma_live_unique(d: Deployment, rss: Seq<ReplicaSet>, i: int, j: int)
    requires
        is_live(d, rss, i),
        is_live(d, rss, j),
    ensures
        i == j,
{
    assert(no_later(rss, i, j));
    assert(no_later(rss, j, i));
    lemma_meta_lt_strict(rss[i].metadata, rss[j].metadata, rss[i].metadata);
    lemma_meta_lt_strict(rss[j].metadata, rss[i].metadata, rss[j].metadata);
    if meta_tied(rss[i].metadata, rss[j].metadata) {
        lemma_meta_lt_strict(rss[i].metadata, rss[i].metadata, rss[i].metadata);
    }
}

/// Whether `rs` is controlled by `deployment` and carries a template that
/// matches the Deployment's once the generation label is left out of both.
pub fn is_candidate_generation(deployment: &Deployment, rs: &ReplicaSet) -> (r: bool)
    ensures
        r == is_candidate(*deployment, *rs),
{
    rs.is_controlled_by(deployment) && optional_templates_match(&rs.template, &deployment.template)
}

/// The index of the live generation of `deployment` among `replicasets`: of
/// those it controls whose template matches its own, the oldest, names
/// breaking ties of creation time and list order ties of both.
pub fn select_live_replicaset(deployment: &Deployment, replicasets: &Vec<ReplicaSet>) -> (r: Option<
    usize,
>)
    ensures
        index_view(r) == live_index(*deployment, replicasets@),
        r is None <==> forall|j: int|
            0 <= j < replicasets@.len() ==> !#[trigger] is_candidate(*deployment, replicasets@[j]),
{
    let ghost d = *deployment;
    let ghost rss = replicasets@;
    let mut best: Option<usize> = None;
    let mut i: usize = 0;
    while i < replicasets.len()
        invariant
            i <= replicasets.len(),
            rss == replicasets@,
            d == *deployment,
            best is None ==> forall|j: int| 0 <= j < i ==> !#[trigger] is_candidate(d, rss[j]),
            best is Some ==> {
                let b = best->Some_0 as int;
                &&& 0 <= b < i
                &&& is_candidate(d, rss[b])
                &&& forall|j: int| 0 <= j < i && #[trigger] is_candidate(d, rss[j]) ==> no_later(rss, b, j)
            },
        decreases replicasets.len() - i,
    {
        if is_candidate_generation(deployment, &replicasets[i]) {
            match best {
                None => {
                    best = Some(i);
                    assert(meta_tied(rss[i as int].metadata, rss[i as int].metadata));
                },
                Some(b) => {
                    if precedes(&replicasets[i].metadata, &replicasets[b].metadata) {
                        best = Some(i);
                        assert forall|j: int|
                            0 <= j <= i && #[trigger] is_candidate(d, rss[j]) implies no_later(rss, i as int, j) by {
                            if j < i {
                                assert(no_later(rss, b as int, j));
                                lemma_meta_lt_strict(rss[i as int].metadata, rss[b as int].metadata, rss[j].metadata);
                                if meta_tied(rss[b as int].metadata, rss[j].metadata) {
                                    assert(rss[b as int].metadata.name@ == rss[j].metadata.name@);
                                }
                            } else {
                                assert(meta_tied(rss[i as int].metadata, rss[i as int].metadata));
                            }
                        }
                    } else {
                        proof {
                            lemma_meta_lt_total(rss[i as int].metadata, rss[b as int].metadata);
                            if meta_tied(rss[i as int].metadata, rss[b as int].metadata) {
                                assert(meta_tied(rss[b as int].metadata, rss[i as int].metadata));
                            }
                            assert(no_later(rss, b as int, i as int));
                        }
                    }
                },
            }
        }
        i = i + 1;
    }
    match best {
        None => {
            assert(!exists|k: int| is_live(d, rss, k));
        },
        Some(b) => {
            assert(is_live(d, rss, b as int));
            proof {
                lemma_live_unique(d, rss, b as int, choose|k: int| is_live(d, rss, k));
            }
        },
    }
    best
}

/// The view of an optional index.
pub open spec fn index_view(r: Option<usize>) -> Option<int> {
    match r {
        None => None,
        Some(i) => Some(i as int),
    }
}

/// The Pods of `pods` that `replicaset` controls, in their order.
pub fn pods_controlled_by(replicaset: &ReplicaSet, pods: Vec<Pod>) -> (r: Vec<Pod>)
    ensures
        r@ == pods_of(*replicaset, pods@),
{
    let ghost all = pods@;
    let total = pods.len();
    let mut rest = pods;
    let mut out: Vec<Pod> = Vec::new();
    let mut i: usize = 0;
    while rest.len() > 0
        invariant
            i <= all.len(),
            all.len() == total,
            rest@ == all.subrange(i as int, all.len() as int),
            out@ == pods_of(*replicaset, all.subrange(0, i as int)),
        decreases rest.len(),
    {
        let p = rest.remove(0);
        let ghost prefix = all.subrange(0, i as int);
        let ghost next = all.subrange(0, i + 1);
        proof {
            assert(p == all[i as int]);
            assert(next.drop_last() == prefix);
            assert(next.last() == p);
            reveal(Seq::filter);
        }
        if p.is_controlled_by(replicaset) {
            out.push(p);
        }
        proof {
            assert(rest@ == all.subrange(i + 1, all.len() as int));
        }
        i = i + 1;
    }
    assert(all.subrange(0, all.len() as int) == all);
    out
}

/// The Pods of `deployment`'s live generation among the ReplicaSets and Pods
/// of its namespace; `None` where no ReplicaSet is its live generation.
pub fn resolve_live_pods(deployment: &Deployment, replicasets: &Vec<ReplicaSet>, pods: Vec<Pod>) -> (r:
    Option<Vec<Pod>>)
    ensures
        pods_view(r) == resolved(*deployment, replicasets@, pods@),
{
    match select_live_replicaset(deployment, replicasets) {
        None => None,
        Some(i) => Some(pods_controlled_by(&replicasets[i], pods)),
    }
}

/// Among the first `n` entries, one that is a candidate and comes no later
/// than any other candidate, where some candidate is there.
proof fn lemma_first_candidate(d: Deployment, rss: Seq<ReplicaSet>, n: int) -> (b: int)
    requires
        0 <= n <= rss.len(),
        exists|j: int| 0 <= j < n && #[trigger] is_candidate(d, rss[j]),
    ensures
        0 <= b < n,
        is_candidate(d, rss[b]),
        forall|j: int| 0 <= j < n && #[trigger] is_candidate(d, rss[j]) ==> no_later(rss, b, j),
    decreases n,
{
    let last = n - 1;
    if exists|j: int| 0 <= j < last && #[trigger] is_candidate(d, rss[j]) {
        let b0 = lemma_first_candidate(d, rss, last);
        if is_candidate(d, rss[last]) && meta_lt(rss[last].metadata, rss[b0].metadata) {
            assert forall|j: int| 0 <= j < n && #[trigger] is_candidate(d, rss[j]) implies no_later(
                rss,
                last,
                j,
            ) by {
                if j < last {
                    assert(no_later(rss, b0, j));
                    lemma_meta_lt_strict(rss[last].metadata, rss[b0].metadata, rss[j].metadata);
                    if meta_tied(rss[b0].metadata, rss[j].metadata) {
                        assert(rss[b0].metadata.name@ == rss[j].metadata.name@);
                    }
                } else {
                    assert(meta_tied(rss[last].metadata, rss[last].metadata));
                }
            }
            last
        } else {
            if is_candidate(d, rss[last]) {
                lemma_meta_lt_total(rss[last].metadata, rss[b0].metadata);
                if meta_tied(rss[last].metadata, rss[b0].metadata) {
                    assert(meta_tied(rss[b0].metadata, rss[last].metadata));
                }
                assert(no_later(rss, b0, last));
            }
            b0
        }
    } else {
        assert(meta_tied(rss[last].metadata, rss[last].metadata));
        last
    }
}

/// Where some ReplicaSet is a candidate, there is a live generation.
pub proof fn lemma_candidate_gives_live(d: Deployment, rss: Seq<ReplicaSet>, c: int)
    requires
        0 <= c < rss.len(),
        is_candidate(d, rss[c]),
    ensures
        live_index(d, rss) is Some,
        is_live(d, rss, live_index(d, rss)->Some_0),
{
    let b = lemma_first_candidate(d, rss, rss.len() as int);
    assert(is_live(d, rss, b));
}

/// A Deployment with no ReplicaSets in its namespace resolves to nothing.
pub proof fn lemma_no_replicasets_nothing(d: Deployment, pods: Seq<Pod>)
    ensures
        resolved(d, Seq::empty(), pods) is None,
{
}

/// Of two candidates, the one created strictly earlier wins over the other:
/// the later one is never the live generation, and where they are the only
/// ReplicaSets, the earlier one is.
pub proof fn lemma_oldest_generation_selected(d: Deployment, rss: Seq<ReplicaSet>, a: int, b: int)
    requires
        0 <= a < rss.len(),
        0 <= b < rss.len(),
        is_candidate(d, rss[a]),
        is_candidate(d, rss[b]),
        crate::order::timestamp_lt(rss[a].metadata.creation_timestamp, rss[b].metadata.creation_timestamp),
    ensures
        live_index(d, rss) is Some,
        live_index(d, rss) != Some(b),
        rss.len() == 2 ==> live_index(d, rss) == Some(a),
{
    lemma_candidate_gives_live(d, rss, a);
    let l = live_index(d, rss)->Some_0;
    if l == b {
        assert(no_later(rss, b, a));
        lemma_meta_lt_strict(rss[a].metadata, rss[b].metadata, rss[a].metadata);
    }
}

/// Resolving twice over the same ReplicaSets and Pods gives the same Pods.
pub proof fn lemma_resolution_deterministic(
    d: Deployment,
    rss: Seq<ReplicaSet>,
    pods: Seq<Pod>,
    first: Option<Vec<Pod>>,
    second: Option<Vec<Pod>>,
)
    requires
        pods_view(first) == resolved(d, rss, pods),
        pods_view(second) == resolved(d, rss, pods),
    ensures
        pods_view(first) == pods_view(second),
        first is Some <==> second is Some,
{
}

} // verus!
