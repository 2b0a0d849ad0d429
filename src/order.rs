//! The order in which ReplicaSet generations are considered: by creation
//! time, oldest first, then by name.
use crate::resource::ObjectMeta;
use vstd::prelude::*;
use vstd::string::StrSliceExecFns;

verus! {

/// `a` comes before `b` in lexicographic order of characters.
pub open spec fn name_lt(a: Seq<char>, b: Seq<char>) -> bool
    decreases a.len(),
{
    if a.len() == 0 {
        b.len() > 0
    } else if b.len() == 0 {
        false
    } else if a[0] != b[0] {
        a[0] < b[0]
    } else {
        name_lt(a.drop_first(), b.drop_first())
    }
}

/// An absent creation time comes before any present one.
pub open spec fn timestamp_lt(a: Option<i64>, b: Option<i64>) -> bool {
    match (a, b) {
        (None, Some(_)) => true,
        (Some(x), Some(y)) => x < y,
        _ => false,
    }
}

/// `a` comes strictly before `b`: created earlier, or at the same time and
/// with a name that sorts first.
pub open spec fn meta_lt(a: ObjectMeta, b: ObjectMeta) -> bool {
    timestamp_lt(a.creation_timestamp, b.creation_timestamp) || (a.creation_timestamp
        == b.creation_timestamp && name_lt(a.name@, b.name@))
}

/// `a` and `b` share their place in the order.
pub open spec fn meta_tied(a: ObjectMeta, b: ObjectMeta) -> bool {
    a.creation_timestamp == b.creation_timestamp && a.name@ == b.name@
}

proof fn lemma_name_lt_irreflexive(a: Seq<char>)
    ensures
        !name_lt(a, a),
    decreases a.len(),
{
    if a.len() > 0 {
        lemma_name_lt_irreflexive(a.drop_first());
    }
}

proof fn lemma_name_lt_transitive(a: Seq<char>, b: Seq<char>, c: Seq<char>)
    requires
        name_lt(a, b),
        name_lt(b, c),
    ensures
        name_lt(a, c),
    decreases a.len(),
{
    if a.len() > 0 && b.len() > 0 && c.len() > 0 && a[0] == b[0] && b[0] == c[0] {
        lemma_name_lt_transitive(a.drop_first(), b.drop_first(), c.drop_first());
    }
}

proof fn lemma_name_lt_total(a: Seq<char>, b: Seq<char>)
    requires
        a != b,
    ensures
        name_lt(a, b) || name_lt(b, a),
    decreases a.len(),
{
    if a.len() > 0 && b.len() > 0 && a[0] == b[0] {
        if a.drop_first() == b.drop_first() {
            assert(a == seq![a[0]] + a.drop_first());
            assert(b == seq![b[0]] + b.drop_first());
        }
        lemma_name_lt_total(a.drop_first(), b.drop_first());
    }
    if a.len() == 0 && b.len() == 0 {
        assert(a == b);
    }
}

/// `meta_lt` is a strict order.
pub proof fn lemma_meta_lt_strict(a: ObjectMeta, b: ObjectMeta, c: ObjectMeta)
    ensures
        !meta_lt(a, a),
        meta_lt(a, b) && meta_lt(b, c) ==> meta_lt(a, c),
        meta_lt(a, b) ==> !meta_lt(b, a),
{
    lemma_name_lt_irreflexive(a.name@);
    if meta_lt(a, b) && meta_lt(b, c) && a.creation_timestamp == b.creation_timestamp
        && b.creation_timestamp == c.creation_timestamp {
        lemma_name_lt_transitive(a.name@, b.name@, c.name@);
    }
    if meta_lt(a, b) && meta_lt(b, a) {
        lemma_name_lt_transitive(a.name@, b.name@, a.name@);
    }
}

/// Any two entries are ordered one way or the other, or tied.
pub proof fn lemma_meta_lt_total(a: ObjectMeta, b: ObjectMeta)
    ensures
        meta_lt(a, b) || meta_lt(b, a) || meta_tied(a, b),
{
    if a.name@ != b.name@ {
        lemma_name_lt_total(a.name@, b.name@);
    }
}

/// Whether `a` sorts before `b` by name.
fn name_less(a: &String, b: &String) -> (r: bool)
    ensures
        r == name_lt(a@, b@),
{
    let sa = a.as_str();
    let sb = b.as_str();
    let la = sa.unicode_len();
    let lb = sb.unicode_len();
    let mut i: usize = 0;
    assert(a@.subrange(0, la as int) == a@);
    assert(b@.subrange(0, lb as int) == b@);
    while i < la && i < lb
        invariant
            i <= la,
            i <= lb,
            la == a@.len(),
            lb == b@.len(),
            sa@ == a@,
            sb@ == b@,
            name_lt(a@, b@) == name_lt(a@.subrange(i as int, la as int), b@.subrange(i as int, lb as int)),
        decreases la - i,
    {
        let ca = sa.get_char(i);
        let cb = sb.get_char(i);
        let ghost ta = a@.subrange(i as int, la as int);
        let ghost tb = b@.subrange(i as int, lb as int);
        assert(ta[0] == ca && tb[0] == cb);
        if ca != cb {
            return ca < cb;
        }
        assert(ta.drop_first() == a@.subrange(i + 1, la as int));
        assert(tb.drop_first() == b@.subrange(i + 1, lb as int));
        i = i + 1;
    }
    i < lb
}

/// Whether `a` comes strictly before `b` in creation order, names breaking
/// ties.
pub fn precedes(a: &ObjectMeta, b: &ObjectMeta) -> (r: bool)
    ensures
        r == meta_lt(*a, *b),
{
    match (a.creation_timestamp, b.creation_timestamp) {
        (None, Some(_)) => true,
        (Some(x), Some(y)) => {
            if x < y {
                true
            } else if x == y {
                name_less(&a.name, &b.name)
            } else {
                false
            }
        },
        (None, None) => name_less(&a.name, &b.name),
        (Some(_), None) => false,
    }
}

} // verus!
