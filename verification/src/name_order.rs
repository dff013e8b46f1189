//! Ordering serial device snapshots by name, as byte strings compare
//! (the order of `String`).
use vstd::prelude::*;
use crate::fields::utf8;
use crate::serial_state::{snapshot_views, SerialDeviceSnapshot, SnapshotView};

verus! {

/// `a` comes no later than `b` in lexicographic byte order.
pub open spec fn bytes_le(a: Seq<u8>, b: Seq<u8>) -> bool
    decreases a.len(),
{
    if a.len() == 0 {
        true
    } else if b.len() == 0 {
        false
    } else if a[0] != b[0] {
        a[0] < b[0]
    } else {
        bytes_le(a.drop_first(), b.drop_first())
    }
}

/// `a` comes strictly before `b`.
pub open spec fn bytes_lt(a: Seq<u8>, b: Seq<u8>) -> bool {
    !bytes_le(b, a)
}

pub proof fn lemma_bytes_le_total(a: Seq<u8>, b: Seq<u8>)
    ensures
        bytes_le(a, b) || bytes_le(b, a),
    decreases a.len(),
{
    if a.len() > 0 && b.len() > 0 && a[0] == b[0] {
        lemma_bytes_le_total(a.drop_first(), b.drop_first());
    }
}

pub proof fn lemma_bytes_le_transitive(a: Seq<u8>, b: Seq<u8>, c: Seq<u8>)
    requires
        bytes_le(a, b),
        bytes_le(b, c),
    ensures
        bytes_le(a, c),
    decreases a.len(),
{
    if a.len() > 0 && b.len() > 0 && c.len() > 0 && a[0] == b[0] && b[0] == c[0] {
        lemma_bytes_le_transitive(a.drop_first(), b.drop_first(), c.drop_first());
    }
}

/// The sort key of a snapshot: the bytes of its name.
pub open spec fn name_key(s: SnapshotView) -> Seq<u8> {
    utf8(s.name)
}

/// Snapshots are in name order.
pub open spec fn sorted_by_name(s: Seq<SnapshotView>) -> bool {
    forall|i: int, j: int| 0 <= i < j < s.len() ==> bytes_le(name_key(s[i]), name_key(s[j]))
}

/// Where `x` goes in `t`: after every snapshot whose name does not come
/// after its own.
pub open spec fn insert_position(t: Seq<SnapshotView>, x: SnapshotView) -> int
    decreases t.len(),
{
    if t.len() == 0 {
        0
    } else if bytes_lt(name_key(x), name_key(t.last())) {
        insert_position(t.drop_last(), x)
    } else {
        t.len() as int
    }
}

/// The snapshots in name order, equal names kept in the order given.
pub open spec fn sorted_by_name_stable(s: Seq<SnapshotView>) -> Seq<SnapshotView>
    decreases s.len(),
{
    if s.len() == 0 {
        seq![]
    } else {
        let t = sorted_by_name_stable(s.drop_last());
        t.insert(insert_position(t, s.last()), s.last())
    }
}

proof fn lemma_insert_position(t: Seq<SnapshotView>, x: SnapshotView)
    requires
        sorted_by_name(t),
    ensures
        0 <= insert_position(t, x) <= t.len(),
        forall|i: int|
            0 <= i < insert_position(t, x) ==> bytes_le(name_key(#[trigger] t[i]), name_key(x)),
        forall|i: int|
            insert_position(t, x) <= i < t.len() ==> bytes_lt(name_key(x), name_key(#[trigger] t[i])),
    decreases t.len(),
{
    if t.len() > 0 {
        let last = t.last();
        if bytes_lt(name_key(x), name_key(last)) {
            let u = t.drop_last();
            assert(sorted_by_name(u));
            lemma_insert_position(u, x);
            assert forall|i: int| 0 <= i < insert_position(t, x) implies bytes_le(
                name_key(#[trigger] t[i]),
                name_key(x),
            ) by {
                assert(t[i] == u[i]);
            }
            assert forall|i: int| insert_position(t, x) <= i < t.len() implies bytes_lt(
                name_key(x),
                name_key(#[trigger] t[i]),
            ) by {
                if i < t.len() - 1 {
                    assert(t[i] == u[i]);
                }
            }
        } else {
            lemma_bytes_le_total(name_key(x), name_key(last));
            assert forall|i: int| 0 <= i < insert_position(t, x) implies bytes_le(
                name_key(#[trigger] t[i]),
                name_key(x),
            ) by {
                if i < t.len() - 1 {
                    lemma_bytes_le_transitive(name_key(t[i]), name_key(last), name_key(x));
                }
            }
        }
    }
}

/// Sorting by name yields the same snapshots, in name order.
pub proof fn lemma_sort_by_name(s: Seq<SnapshotView>)
    ensures
        sorted_by_name(sorted_by_name_stable(s)),
        sorted_by_name_stable(s).to_multiset() == s.to_multiset(),
    decreases s.len(),
{
    broadcast use vstd::seq_lib::to_multiset_insert, vstd::seq_lib::to_multiset_build;

    if s.len() > 0 {
        let t = sorted_by_name_stable(s.drop_last());
        let x = s.last();
        lemma_sort_by_name(s.drop_last());
        lemma_insert_position(t, x);
        let p = insert_position(t, x);
        let r = t.insert(p, x);
        assert forall|i: int, j: int| 0 <= i < j < r.len() implies bytes_le(
            name_key(r[i]),
            name_key(r[j]),
        ) by {
            if i < p && j < p {
            } else if i < p && j == p {
                assert(r[i] == t[i]);
            } else if i < p {
                assert(r[i] == t[i] && r[j] == t[j - 1]);
                lemma_bytes_le_total(name_key(x), name_key(t[j - 1]));
                lemma_bytes_le_transitive(name_key(t[i]), name_key(x), name_key(t[j - 1]));
            } else if i == p {
                assert(r[j] == t[j - 1]);
                lemma_bytes_le_total(name_key(x), name_key(t[j - 1]));
            } else {
                assert(r[i] == t[i - 1] && r[j] == t[j - 1]);
            }
        }
        assert(s =~= s.drop_last().push(x));
        vstd::seq_lib::to_multiset_insert(t, p, x);
        vstd::seq_lib::to_multiset_build(s.drop_last(), x);
        assert(sorted_by_name_stable(s) == r);
        assert(r.to_multiset() == t.to_multiset().insert(x));
        assert(s.to_multiset() == s.drop_last().to_multiset().insert(x));
    } else {
        assert(s =~= Seq::<SnapshotView>::empty());
        assert(sorted_by_name_stable(s) =~= s);
    }
}

/// Whether name `a` comes strictly before name `b`.
fn name_before(a: &String, b: &String) -> (r: bool)
    ensures
        r == bytes_lt(utf8(a@), utf8(b@)),
{
    let x = a.as_str().as_bytes();
    let y = b.as_str().as_bytes();
    let mut i: usize = 0;
    assert(x@.skip(0) =~= x@);
    assert(y@.skip(0) =~= y@);
    while i < x.len() && i < y.len() && x[i] == y[i]
        invariant
            i <= x@.len(),
            i <= y@.len(),
            x@ == utf8(a@),
            y@ == utf8(b@),
            bytes_le(y@, x@) == bytes_le(y@.skip(i as int), x@.skip(i as int)),
        decreases x@.len() - i,
    {
        assert(y@.skip(i as int).drop_first() =~= y@.skip(i + 1));
        assert(x@.skip(i as int).drop_first() =~= x@.skip(i + 1));
        i = i + 1;
    }
    if i == y.len() {
        false
    } else if i == x.len() {
        true
    } else {
        y[i] >= x[i]
    }
}

/// Sorts snapshots by name, keeping snapshots with equal names in the order
/// given.
pub fn sort_snapshots_by_name(devices: &Vec<SerialDeviceSnapshot>) -> (r: Vec<SerialDeviceSnapshot>)
    ensures
        snapshot_views(r@) == sorted_by_name_stable(snapshot_views(devices@)),
{
    let ghost all = snapshot_views(devices@);
    let mut result: Vec<SerialDeviceSnapshot> = Vec::new();
    let mut i: usize = 0;
    assert(all.take(0) =~= Seq::<SnapshotView>::empty());
    while i < devices.len()
        invariant
            i <= devices@.len(),
            all == snapshot_views(devices@),
            snapshot_views(result@) == sorted_by_name_stable(all.take(i as int)),
        decreases devices@.len() - i,
    {
        let x = devices[i].clone();
        let ghost placed = snapshot_views(result@);
        let mut j: usize = result.len();
        assert(placed.take(j as int) =~= placed);
        while j > 0 && name_before(&x.name, &result[j - 1].name)
            invariant
                j <= result@.len(),
                placed == snapshot_views(result@),
                insert_position(placed, x@) == insert_position(placed.take(j as int), x@),
            decreases j,
        {
            assert(placed.take(j as int).drop_last() =~= placed.take(j - 1));
            j = j - 1;
        }
        proof {
            if j == 0 {
                assert(placed.take(0) =~= Seq::<SnapshotView>::empty());
            }
            assert(placed.take(j as int).len() == j);
        }
        result.insert(j, x);
        proof {
            assert(snapshot_views(result@) =~= placed.insert(j as int, x@));
            assert(all.take(i + 1).drop_last() =~= all.take(i as int));
            assert(all.take(i + 1).last() == x@);
        }
        i = i + 1;
    }
    assert(all.take(devices@.len() as int) =~= all);
    result
}

} // verus!
