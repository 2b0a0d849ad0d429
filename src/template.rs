//! Pod templates compared with the generation label left out.
use crate::kinds::{unique_label_key, unique_label_key_spec};
use crate::resource::PodTemplate;
use vstd::prelude::*;

verus! {

/// The label entry is not the generation label.
pub open spec fn kept_label(p: (String, String)) -> bool {
    p.0@ != unique_label_key_spec()
}

/// The labels with the generation label's entries taken out, in their order.
pub open spec fn normalized_labels(labels: Seq<(String, String)>) -> Seq<(String, String)> {
    labels.filter(|p: (String, String)| kept_label(p))
}

/// `labels` holds an entry with key `k` and value `v`.
pub open spec fn has_label(labels: Seq<(String, String)>, k: Seq<char>, v: Seq<char>) -> bool {
    exists|i: int| 0 <= i < labels.len() && (#[trigger] labels[i]).0@ == k && labels[i].1@ == v
}

/// Two templates are equivalent: the same payload, and the same set of
/// label entries once the generation label is left out.
pub open spec fn equivalent(a: PodTemplate, b: PodTemplate) -> bool {
    &&& a.spec@ == b.spec@
    &&& forall|k: Seq<char>, v: Seq<char>|
        k != unique_label_key_spec() ==> (#[trigger] has_label(a.labels@, k, v) <==> #[trigger] has_label(
            b.labels@,
            k,
            v,
        ))
}

/// Two optional templates match: both absent, or both present and equivalent.
pub open spec fn templates_match(a: Option<PodTemplate>, b: Option<PodTemplate>) -> bool {
    match (a, b) {
        (None, None) => true,
        (Some(x), Some(y)) => equivalent(x, y),
        _ => false,
    }
}

/// A copy of `template` without the generation label; every other label,
/// in its order, and the payload are kept.
pub fn normalize(template: &PodTemplate) -> (r: PodTemplate)
    ensures
        r.labels@ == normalized_labels(template.labels@),
        r.spec == template.spec,
        forall|k: Seq<char>, v: Seq<char>|
            #[trigger] has_label(r.labels@, k, v) <==> (has_label(template.labels@, k, v) && k
                != unique_label_key_spec()),
{
    let key = unique_label_key();
    let src = &template.labels;
    let mut labels: Vec<(String, String)> = Vec::new();
    let mut i: usize = 0;
    while i < src.len()
        invariant
            i <= src.len(),
            src == template.labels,
            key@ == unique_label_key_spec(),
            labels@ == normalized_labels(src@.subrange(0, i as int)),
            forall|k: Seq<char>, v: Seq<char>|
                #[trigger] has_label(labels@, k, v) <==> (has_label(src@.subrange(0, i as int), k, v)
                    && k != unique_label_key_spec()),
        decreases src.len() - i,
    {
        let entry = &src[i];
        let ghost before = labels@;
        let ghost prefix = src@.subrange(0, i as int);
        let ghost next = src@.subrange(0, i + 1);
        proof {
            assert(next.drop_last() == prefix);
            assert(next.last() == src@[i as int]);
            reveal(Seq::filter);
        }
        if !(entry.0 == key) {
            labels.push((entry.0.clone(), entry.1.clone()));
            assert(labels@ == before.push(src@[i as int]));
        } else {
            assert(src@[i as int].0@ == unique_label_key_spec());
        }
        proof {
            assert(next == prefix.push(src@[i as int]));
            lemma_has_label_push(prefix, src@[i as int]);
            lemma_has_label_push(before, src@[i as int]);
        }
        i = i + 1;
    }
    assert(src@.subrange(0, src@.len() as int) == src@);
    PodTemplate { labels, spec: template.spec.clone() }
}

proof fn lemma_has_label_push(s: Seq<(String, String)>, x: (String, String))
    ensures
        forall|k: Seq<char>, v: Seq<char>|
            #[trigger] has_label(s.push(x), k, v) <==> (has_label(s, k, v) || (x.0@ == k && x.1@
                == v)),
{
    assert forall|k: Seq<char>, v: Seq<char>|
        #[trigger] has_label(s.push(x), k, v) <==> (has_label(s, k, v) || (x.0@ == k && x.1@
            == v)) by {
        let t = s.push(x);
        if has_label(s, k, v) {
            let j = choose|j: int| 0 <= j < s.len() && (#[trigger] s[j]).0@ == k && s[j].1@ == v;
            assert(t[j] == s[j]);
        }
        if x.0@ == k && x.1@ == v {
            assert(t[s.len() as int] == x);
        }
        if has_label(t, k, v) {
            let j = choose|j: int| 0 <= j < t.len() && (#[trigger] t[j]).0@ == k && t[j].1@ == v;
            if j < s.len() {
                assert(t[j] == s[j]);
            }
        }
    }
}

/// Every entry of `a` is also an entry of `b`.
fn labels_included(a: &Vec<(String, String)>, b: &Vec<(String, String)>) -> (r: bool)
    ensures
        r <==> forall|k: Seq<char>, v: Seq<char>|
            #[trigger] has_label(a@, k, v) ==> has_label(b@, k, v),
{
    let mut i: usize = 0;
    while i < a.len()
        invariant
            i <= a.len(),
            forall|j: int| 0 <= j < i ==> has_label(b@, (#[trigger] a@[j]).0@, a@[j].1@),
        decreases a.len() - i,
    {
        let mut found = false;
        let mut m: usize = 0;
        while m < b.len()
            invariant
                m <= b.len(),
                i < a.len(),
                found ==> has_label(b@, a@[i as int].0@, a@[i as int].1@),
                !found ==> forall|j: int|
                    0 <= j < m ==> !((#[trigger] b@[j]).0@ == a@[i as int].0@ && b@[j].1@
                        == a@[i as int].1@),
            decreases b.len() - m,
        {
            if b[m].0 == a[i].0 && b[m].1 == a[i].1 {
                found = true;
            }
            m = m + 1;
        }
        if !found {
            assert(!has_label(b@, a@[i as int].0@, a@[i as int].1@));
            assert(has_label(a@, a@[i as int].0@, a@[i as int].1@));
            return false;
        }
        i = i + 1;
    }
    true
}

/// Whether `a` and `b` are equivalent once the generation label is left out
/// of both: the payloads are equal and the label entries are the same set.
pub fn templates_equivalent(a: &PodTemplate, b: &PodTemplate) -> (r: bool)
    ensures
        r == equivalent(*a, *b),
{
    let na = normalize(a);
    let nb = normalize(b);
    let same = na.spec == nb.spec && labels_included(&na.labels, &nb.labels) && labels_included(
        &nb.labels,
        &na.labels,
    );
    proof {
        if same {
            assert forall|k: Seq<char>, v: Seq<char>|
                k != unique_label_key_spec() implies (#[trigger] has_label(a.labels@, k, v)
                <==> #[trigger] has_label(b.labels@, k, v)) by {
                if has_label(a.labels@, k, v) {
                    assert(has_label(na.labels@, k, v));
                }
                if has_label(b.labels@, k, v) {
                    assert(has_label(nb.labels@, k, v));
                }
            }
        }
        if !same && a.spec@ == b.spec@ {
            if !labels_included_spec(na.labels@, nb.labels@) {
                let (k, v) = choose|k: Seq<char>, v: Seq<char>|
                    #[trigger] has_label(na.labels@, k, v) && !has_label(nb.labels@, k, v);
                assert(k != unique_label_key_spec());
                assert(has_label(a.labels@, k, v));
                assert(!has_label(b.labels@, k, v));
            } else {
                let (k, v) = choose|k: Seq<char>, v: Seq<char>|
                    #[trigger] has_label(nb.labels@, k, v) && !has_label(na.labels@, k, v);
                assert(k != unique_label_key_spec());
                assert(has_label(b.labels@, k, v));
                assert(!has_label(a.labels@, k, v));
            }
        }
    }
    same
}

spec fn labels_included_spec(a: Seq<(String, String)>, b: Seq<(String, String)>) -> bool {
    forall|k: Seq<char>, v: Seq<char>| #[trigger] has_label(a, k, v) ==> has_label(b, k, v)
}

/// Whether two optional templates match: both absent, or both present and
/// equivalent.
pub fn optional_templates_match(a: &Option<PodTemplate>, b: &Option<PodTemplate>) -> (r: bool)
    ensures
        r == templates_match(*a, *b),
{
    match (a, b) {
        (None, None) => true,
        (Some(x), Some(y)) => templates_equivalent(x, y),
        _ => false,
    }
}

/// Templates that differ only in the value of the generation label are
/// equivalent.
pub proof fn lemma_generation_label_value_ignored(a: PodTemplate, b: PodTemplate)
    requires
        a.spec@ == b.spec@,
        a.labels@.len() == b.labels@.len(),
        forall|i: int|
            0 <= i < a.labels@.len() ==> (#[trigger] a.labels@[i]).0@ == b.labels@[i].0@ && (
            a.labels@[i].0@ != unique_label_key_spec() ==> a.labels@[i].1@ == b.labels@[i].1@),
    ensures
        equivalent(a, b),
{
    assert forall|k: Seq<char>, v: Seq<char>|
        k != unique_label_key_spec() implies (#[trigger] has_label(a.labels@, k, v)
        <==> #[trigger] has_label(b.labels@, k, v)) by {
        if has_label(a.labels@, k, v) {
            let j = choose|j: int|
                0 <= j < a.labels@.len() && (#[trigger] a.labels@[j]).0@ == k && a.labels@[j].1@ == v;
            assert(b.labels@[j].0@ == k);
        }
        if has_label(b.labels@, k, v) {
            let j = choose|j: int|
                0 <= j < b.labels@.len() && (#[trigger] b.labels@[j]).0@ == k && b.labels@[j].1@ == v;
            assert(a.labels@[j].0@ == k);
        }
    }
}

/// Templates whose payloads differ, or where one has a label entry other
/// than the generation label that the other lacks, are not equivalent.
pub proof fn lemma_other_difference_breaks_equivalence(a: PodTemplate, b: PodTemplate)
    requires
        a.spec@ != b.spec@ || exists|k: Seq<char>, v: Seq<char>|
            k != unique_label_key_spec() && #[trigger] has_label(a.labels@, k, v) != #[trigger] has_label(
                b.labels@,
                k,
                v,
            ),
    ensures
        !equivalent(a, b),
{
}

} // verus!
