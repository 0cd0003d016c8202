//! The order of the final list: records sorted by path, byte by byte.
//!
//! The order is the lexicographic order of the paths as byte strings. The
//! separator is a byte like any other, so `x-1/f.rar` comes before
//! `x/f.rar`; the paths are not compared component by component.

use vstd::prelude::*;
use crate::record::{DiscoveredFile, Record, records};

verus! {

/// Whether `a`, from index `i` on, comes no later than `b` from index `i` on
/// in lexicographic order.
pub open spec fn lex_le_from(a: Seq<u8>, b: Seq<u8>, i: int) -> bool
    decreases a.len() - i,
{
    if i < 0 || i >= a.len() {
        true
    } else if i >= b.len() {
        false
    } else if a[i] != b[i] {
        a[i] < b[i]
    } else {
        lex_le_from(a, b, i + 1)
    }
}

/// Lexicographic order on byte strings: `a` comes no later than `b`.
pub open spec fn lex_le(a: Seq<u8>, b: Seq<u8>) -> bool {
    lex_le_from(a, b, 0)
}

/// Whether the paths of `s` never decrease from one record to the next.
pub open spec fn sorted_by_path(s: Seq<Record>) -> bool {
    forall|i: int, j: int| 0 <= i < j < s.len() ==> lex_le(#[trigger] s[i].path, #[trigger] s[j].path)
}

/// Whether no two records of `s` have the same path.
pub open spec fn distinct_paths(s: Seq<Record>) -> bool {
    forall|i: int, j: int|
        0 <= i < j < s.len() ==> (#[trigger] s[i]).path != (#[trigger] s[j]).path
}

/// Whether the records of `s` that stand under one path are the same
/// record: a path may occur more than once, as under overlapping roots, but
/// not with two sizes or two times.
pub open spec fn paths_decide(s: Seq<Record>) -> bool {
    forall|i: int, j: int|
        0 <= i < s.len() && 0 <= j < s.len() && (#[trigger] s[i]).path == (#[trigger] s[j]).path
            ==> s[i] == s[j]
}

/// `x` put into `s` in front of the first record whose path is not smaller.
pub open spec fn insert_by_path(s: Seq<Record>, x: Record) -> Seq<Record>
    decreases s.len(),
{
    if s.len() == 0 {
        seq![x]
    } else if lex_le(x.path, s[0].path) {
        seq![x] + s
    } else {
        seq![s[0]] + insert_by_path(s.drop_first(), x)
    }
}

/// The records of `s` in ascending order of path; records with the same path
/// keep the order in which they stand in `s`.
pub open spec fn sort_by_path_spec(s: Seq<Record>) -> Seq<Record>
    decreases s.len(),
{
    if s.len() == 0 {
        Seq::empty()
    } else {
        insert_by_path(sort_by_path_spec(s.drop_first()), s[0])
    }
}

/// Compares two paths byte by byte.
pub fn path_le(a: &[u8], b: &[u8]) -> (r: bool)
    ensures
        r == lex_le(a@, b@),
{
    let mut i: usize = 0;
    while i < a.len()
        invariant
            0 <= i <= a@.len(),
            lex_le(a@, b@) == lex_le_from(a@, b@, i as int),
        decreases a@.len() - i,
    {
        if i >= b.len() {
            return false;
        }
        if a[i] != b[i] {
            return a[i] < b[i];
        }
        i += 1;
    }
    true
}

/// The place at which `insert_by_path` puts `x`: the first index whose record
/// has a path that is not smaller.
pub open spec fn insertion_point(s: Seq<Record>, x: Record) -> int
    decreases s.len(),
{
    if s.len() == 0 || lex_le(x.path, s[0].path) {
        0
    } else {
        1 + insertion_point(s.drop_first(), x)
    }
}

proof fn lemma_insertion_point(s: Seq<Record>, x: Record)
    ensures
        0 <= insertion_point(s, x) <= s.len(),
        insert_by_path(s, x) == s.insert(insertion_point(s, x), x),
        forall|k: int| 0 <= k < insertion_point(s, x) ==> !lex_le(x.path, #[trigger] s[k].path),
        insertion_point(s, x) < s.len() ==> lex_le(x.path, s[insertion_point(s, x)].path),
    decreases s.len(),
{
    if s.len() == 0 {
        assert(seq![x] =~= s.insert(0, x));
    } else if lex_le(x.path, s[0].path) {
        assert(seq![x] + s =~= s.insert(0, x));
    } else {
        let t = s.drop_first();
        lemma_insertion_point(t, x);
        let p = insertion_point(t, x);
        assert(seq![s[0]] + t.insert(p, x) =~= s.insert(p + 1, x));
        assert forall|k: int| 0 <= k < p + 1 implies !lex_le(x.path, #[trigger] s[k].path) by {
            if k > 0 {
                assert(s[k] == t[k - 1]);
            }
        }
        if p + 1 < s.len() {
            assert(s[p + 1] == t[p]);
        }
    }
}

/// Sorts the files by path in ascending lexicographic order. Files with the
/// same path keep their order of arrival.
pub fn sort_by_path(files: Vec<DiscoveredFile>) -> (sorted: Vec<DiscoveredFile>)
    ensures
        records(sorted@) == sort_by_path_spec(records(files@)),
{
    let ghost all = records(files@);
    let mut rest = files;
    let mut sorted: Vec<DiscoveredFile> = Vec::new();
    assert(all.subrange(all.len() as int, all.len() as int) =~= Seq::<Record>::empty());
    assert(records(sorted@) =~= Seq::<Record>::empty());
    while rest.len() > 0
        invariant
            rest@.len() <= all.len(),
            records(rest@) == all.subrange(0, rest@.len() as int),
            records(sorted@) == sort_by_path_spec(
                all.subrange(rest@.len() as int, all.len() as int),
            ),
        decreases rest@.len(),
    {
        let ghost n = rest@.len() as int;
        let ghost before = rest@;
        let ghost done = records(sorted@);
        let x = rest.pop().unwrap();
        proof {
            assert(before[n - 1] == x);
            assert(records(before)[n - 1] == x@);
            assert(all[n - 1] == x@);
            assert(records(rest@) =~= all.subrange(0, n - 1));
            let tail = all.subrange(n - 1, all.len() as int);
            assert(tail.drop_first() =~= all.subrange(n, all.len() as int));
            assert(tail[0] == x@);
            lemma_insertion_point(done, x@);
        }
        let mut j: usize = 0;
        let mut placed = false;
        while j < sorted.len() && !placed
            invariant
                0 <= j <= sorted@.len(),
                done == records(sorted@),
                done.len() == sorted@.len(),
                forall|k: int| 0 <= k < j ==> !lex_le(x@.path, #[trigger] done[k].path),
                placed ==> j < done.len() && lex_le(x@.path, done[j as int].path),
            decreases sorted@.len() - j + (if placed { 0int } else { 1int }),
        {
            assert(done[j as int] == sorted@[j as int]@);
            if path_le(x.path.as_slice(), sorted[j].path.as_slice()) {
                placed = true;
            } else {
                j += 1;
            }
        }
        proof {
            let p = insertion_point(done, x@);
            if p < j {
                assert(!lex_le(x@.path, done[p].path));
            }
            if j < p {
                assert(!lex_le(x@.path, done[j as int].path));
            }
        }
        let ghost prev = sorted@;
        sorted.insert(j, x);
        assert(records(sorted@) =~= records(prev).insert(j as int, x@));
    }
    assert(all.subrange(0, all.len() as int) =~= all);
    sorted
}

/// Of two byte strings one comes no later than the other.
pub proof fn lemma_lex_total(a: Seq<u8>, b: Seq<u8>, i: int)
    requires
        0 <= i,
    ensures
        lex_le_from(a, b, i) || lex_le_from(b, a, i),
    decreases a.len() - i,
{
    if i < a.len() && i < b.len() && a[i] == b[i] {
        lemma_lex_total(a, b, i + 1);
    }
}

/// The lexicographic order is transitive.
pub proof fn lemma_lex_transitive(a: Seq<u8>, b: Seq<u8>, c: Seq<u8>, i: int)
    requires
        0 <= i,
        lex_le_from(a, b, i),
        lex_le_from(b, c, i),
    ensures
        lex_le_from(a, c, i),
    decreases a.len() - i,
{
    if i < a.len() {
        if a[i] == b[i] && b[i] == c[i] {
            lemma_lex_transitive(a, b, c, i + 1);
        }
    }
}

/// Two byte strings that agree before `i` and come no later than each other
/// from `i` on are the same string.
pub proof fn lemma_lex_antisymmetric(a: Seq<u8>, b: Seq<u8>, i: int)
    requires
        0 <= i <= a.len(),
        i <= b.len(),
        a.subrange(0, i) == b.subrange(0, i),
        lex_le_from(a, b, i),
        lex_le_from(b, a, i),
    ensures
        a == b,
    decreases a.len() - i,
{
    if i < a.len() {
        assert(a.subrange(0, i + 1) =~= a.subrange(0, i).push(a[i]));
        assert(b.subrange(0, i + 1) =~= b.subrange(0, i).push(b[i]));
        lemma_lex_antisymmetric(a, b, i + 1);
    } else {
        assert(a =~= a.subrange(0, i));
        assert(b =~= b.subrange(0, i));
    }
}

proof fn lemma_insert_keeps_sorted(s: Seq<Record>, x: Record)
    requires
        sorted_by_path(s),
    ensures
        sorted_by_path(insert_by_path(s, x)),
{
    lemma_insertion_point(s, x);
    let p = insertion_point(s, x);
    let t = s.insert(p, x);
    assert forall|i: int, j: int| 0 <= i < j < t.len() implies lex_le(
        #[trigger] t[i].path,
        #[trigger] t[j].path,
    ) by {
        if j < p {
            assert(t[i] == s[i] && t[j] == s[j]);
        } else if j == p {
            assert(t[i] == s[i]);
            assert(!lex_le(x.path, s[i].path));
            lemma_lex_total(x.path, s[i].path, 0);
        } else if i < p {
            assert(t[i] == s[i] && t[j] == s[j - 1]);
        } else if i == p {
            assert(t[j] == s[j - 1]);
            if j - 1 > p {
                assert(lex_le(s[p].path, s[j - 1].path));
                lemma_lex_transitive(x.path, s[p].path, s[j - 1].path, 0);
            }
        } else {
            assert(t[i] == s[i - 1] && t[j] == s[j - 1]);
        }
    }
}

/// The sorted list is in ascending order of path.
pub proof fn lemma_sort_is_sorted(s: Seq<Record>)
    ensures
        sorted_by_path(sort_by_path_spec(s)),
    decreases s.len(),
{
    if s.len() > 0 {
        lemma_sort_is_sorted(s.drop_first());
        lemma_insert_keeps_sorted(sort_by_path_spec(s.drop_first()), s[0]);
    }
}

proof fn lemma_insert_multiset(s: Seq<Record>, p: int, x: Record)
    requires
        0 <= p <= s.len(),
    ensures
        s.insert(p, x).to_multiset() == s.to_multiset().insert(x),
{
    broadcast use vstd::seq_lib::group_to_multiset_ensures;

    let t = s.insert(p, x);
    assert(t.remove(p) =~= s);
    assert(t[p] == x);
    assert(t.contains(x));
    assert(t.to_multiset() =~= s.to_multiset().insert(x));
}

proof fn lemma_drop_first_multiset(s: Seq<Record>)
    requires
        s.len() > 0,
    ensures
        s.to_multiset() == s.drop_first().to_multiset().insert(s[0]),
{
    assert(Seq::<Record>::empty().push(s[0]) + s.drop_first() =~= s);
    assert(s.drop_first().insert(0, s[0]) =~= s);
    lemma_insert_multiset(s.drop_first(), 0, s[0]);
}

/// Sorting loses no record and adds none: the sorted list holds each record
/// as often as the list that was sorted.
pub proof fn lemma_sort_is_permutation(s: Seq<Record>)
    ensures
        sort_by_path_spec(s).to_multiset() == s.to_multiset(),
        sort_by_path_spec(s).len() == s.len(),
    decreases s.len(),
{
    broadcast use vstd::seq_lib::group_to_multiset_ensures;

    if s.len() > 0 {
        let t = sort_by_path_spec(s.drop_first());
        lemma_sort_is_permutation(s.drop_first());
        lemma_insertion_point(t, s[0]);
        lemma_insert_multiset(t, insertion_point(t, s[0]), s[0]);
        lemma_drop_first_multiset(s);
    } else {
        assert(sort_by_path_spec(s) =~= s);
    }
}

/// A list in ascending order of path, in which a path decides the record,
/// is determined by the records it holds: any sorted list of the same
/// records is that list.
pub proof fn lemma_sorted_unique(a: Seq<Record>, b: Seq<Record>)
    requires
        sorted_by_path(a),
        sorted_by_path(b),
        paths_decide(a),
        a.to_multiset() == b.to_multiset(),
    ensures
        a == b,
    decreases a.len(),
{
    broadcast use vstd::seq_lib::group_to_multiset_ensures;

    a.to_multiset_ensures();
    b.to_multiset_ensures();
    assert(a.len() == b.len());
    if a.len() == 0 {
        assert(a =~= b);
    } else {
        assert(a.contains(a[0]));
        assert(b.contains(b[0]));
        assert(b.to_multiset().count(a[0]) > 0);
        assert(a.to_multiset().count(b[0]) > 0);
        assert(b.contains(a[0]));
        assert(a.contains(b[0]));
        let j = choose|j: int| 0 <= j < b.len() && b[j] == a[0];
        let i = choose|i: int| 0 <= i < a.len() && a[i] == b[0];
        lemma_lex_total(a[0].path, a[0].path, 0);
        lemma_lex_total(b[0].path, b[0].path, 0);
        assert(lex_le(b[0].path, b[j].path));
        assert(lex_le(a[0].path, a[i].path));
        assert(a[0].path.subrange(0, 0) =~= b[0].path.subrange(0, 0));
        lemma_lex_antisymmetric(a[0].path, b[0].path, 0);
        assert(a[i].path == a[0].path);
        assert(a[i] == a[0]);
        assert(a[0] == b[0]);
        let ta = a.drop_first();
        let tb = b.drop_first();
        lemma_drop_first_multiset(a);
        lemma_drop_first_multiset(b);
        assert(ta.to_multiset() =~= a.to_multiset().remove(a[0]));
        assert(tb.to_multiset() =~= b.to_multiset().remove(b[0]));
        assert forall|x: int, y: int| 0 <= x < y < ta.len() implies lex_le(
            #[trigger] ta[x].path,
            #[trigger] ta[y].path,
        ) by {
            assert(ta[x] == a[x + 1] && ta[y] == a[y + 1]);
        }
        assert forall|x: int, y: int|
            0 <= x < ta.len() && 0 <= y < ta.len() && (#[trigger] ta[x]).path == (
            #[trigger] ta[y]).path implies ta[x] == ta[y] by {
            assert(ta[x] == a[x + 1] && ta[y] == a[y + 1]);
        }
        assert forall|x: int, y: int| 0 <= x < y < tb.len() implies lex_le(
            #[trigger] tb[x].path,
            #[trigger] tb[y].path,
        ) by {
            assert(tb[x] == b[x + 1] && tb[y] == b[y + 1]);
        }
        lemma_sorted_unique(ta, tb);
        assert(a =~= seq![a[0]] + ta);
        assert(b =~= seq![b[0]] + tb);
    }
}

/// Every record of the sorted list is a record of the list that was sorted.
pub proof fn lemma_sort_members(s: Seq<Record>)
    ensures
        forall|k: int|
            0 <= k < sort_by_path_spec(s).len() ==> s.contains(#[trigger] sort_by_path_spec(s)[k]),
    decreases s.len(),
{
    if s.len() > 0 {
        let tail = s.drop_first();
        lemma_sort_members(tail);
        let t = sort_by_path_spec(tail);
        lemma_insertion_point(t, s[0]);
        let p = insertion_point(t, s[0]);
        let u = t.insert(p, s[0]);
        assert(u == sort_by_path_spec(s));
        assert forall|k: int| 0 <= k < u.len() implies s.contains(#[trigger] u[k]) by {
            if k == p {
                assert(s[0] == u[k]);
            } else {
                let k0 = if k < p { k } else { k - 1 };
                assert(u[k] == t[k0]);
                assert(tail.contains(t[k0]));
                let m = choose|m: int| 0 <= m < tail.len() && tail[m] == t[k0];
                assert(s[m + 1] == u[k]);
            }
        }
    }
}

/// A list without a path twice is a list in which a path decides the
/// record.
pub proof fn lemma_distinct_paths_decide(s: Seq<Record>)
    requires
        distinct_paths(s),
    ensures
        paths_decide(s),
{
    assert forall|i: int, j: int|
        0 <= i < s.len() && 0 <= j < s.len() && (#[trigger] s[i]).path == (#[trigger] s[j]).path
        implies s[i] == s[j] by {
        if i < j {
            assert(s[i].path != s[j].path);
        }
        if j < i {
            assert(s[j].path != s[i].path);
        }
    }
}

/// The sorted list does not depend on the order of arrival: two lists that
/// hold the same records, in which a path decides the record, sort to the
/// same list.
pub proof fn lemma_sort_ignores_arrival_order(a: Seq<Record>, b: Seq<Record>)
    requires
        paths_decide(a),
        a.to_multiset() == b.to_multiset(),
    ensures
        sort_by_path_spec(a) == sort_by_path_spec(b),
{
    lemma_sort_is_sorted(a);
    lemma_sort_is_sorted(b);
    lemma_sort_is_permutation(a);
    lemma_sort_is_permutation(b);
    lemma_sort_members(a);
    let sa = sort_by_path_spec(a);
    assert forall|x: int, y: int|
        0 <= x < sa.len() && 0 <= y < sa.len() && (#[trigger] sa[x]).path == (
        #[trigger] sa[y]).path implies sa[x] == sa[y] by {
        assert(a.contains(sa[x]));
        assert(a.contains(sa[y]));
        let i = choose|i: int| 0 <= i < a.len() && a[i] == sa[x];
        let j = choose|j: int| 0 <= j < a.len() && a[j] == sa[y];
        assert(a[i].path == a[j].path);
    }
    lemma_sorted_unique(sa, sort_by_path_spec(b));
}

/// Sorting a list that is in order already changes nothing.
pub proof fn lemma_sort_of_sorted(s: Seq<Record>)
    requires
        sorted_by_path(s),
    ensures
        sort_by_path_spec(s) == s,
    decreases s.len(),
{
    if s.len() == 0 {
        assert(sort_by_path_spec(s) =~= s);
    } else {
        let tail = s.drop_first();
        assert forall|x: int, y: int| 0 <= x < y < tail.len() implies lex_le(
            #[trigger] tail[x].path,
            #[trigger] tail[y].path,
        ) by {
            assert(tail[x] == s[x + 1] && tail[y] == s[y + 1]);
        }
        lemma_sort_of_sorted(tail);
        if tail.len() > 0 {
            assert(tail[0] == s[1]);
            assert(lex_le(s[0].path, s[1].path));
        }
        assert(seq![s[0]] + tail =~= s);
        if tail.len() == 0 {
            assert(seq![s[0]] =~= s);
        }
    }
}

/// Sorting twice gives what sorting once gives.
pub proof fn lemma_sort_idempotent(s: Seq<Record>)
    ensures
        sort_by_path_spec(sort_by_path_spec(s)) == sort_by_path_spec(s),
{
    lemma_sort_is_sorted(s);
    lemma_sort_of_sorted(sort_by_path_spec(s));
}

} // verus!
