use vstd::prelude::*;

use crate::reading::{is_latest, newer, Reading};
use crate::store::{insert_step, Store};

verus! {

/// At most one stored reading is the latest.
pub proof fn lemma_latest_unique(rows: Seq<Reading>, a: Reading, b: Reading)
    requires
        is_latest(rows, a),
        is_latest(rows, b),
    ensures
        a == b,
{
    if a != b {
        let ka = choose|k: int| 0 <= k < rows.len() && rows[k] == a;
        let kb = choose|k: int| 0 <= k < rows.len() && rows[k] == b;
        assert(newer(a, rows[kb]));
        assert(newer(b, rows[ka]));
    }
}

/// A reading that is not older than any stored reading becomes, once
/// inserted, the one reading that the status query reports.
pub proof fn law_status_after_insert(before: Store, after: Store, r: Reading)
    requires
        before.wf(),
        insert_step(before@, after@, r),
        forall|k: int| 0 <= k < before@.len() ==> #[trigger] before@[k].timestamp <= r.timestamp,
    ensures
        is_latest(after@, r),
        forall|l: Reading| #[trigger] is_latest(after@, l) ==> l == r,
{
    assert(after@.contains(r));
    assert forall|k: int| 0 <= k < after@.len() && after@[k] != r implies newer(r, #[trigger] after@[k]) by {
        let x = after@[k];
        assert(after@.contains(x));
        let j = choose|j: int| 0 <= j < before@.len() && before@[j] == x;
        assert(before@[j].id <= before@.len());
    }
    assert forall|l: Reading| #[trigger] is_latest(after@, l) implies l == r by {
        lemma_latest_unique(after@, l, r);
    }
}

/// Of two readings with different timestamps inserted into an empty store,
/// in either order, the status query reports the one with the greater
/// timestamp.
pub proof fn law_latest_is_greatest_timestamp(
    s0: Store,
    s1: Store,
    s2: Store,
    a: Reading,
    b: Reading,
)
    requires
        s0@.len() == 0,
        insert_step(s0@, s1@, a),
        insert_step(s1@, s2@, b),
        a.timestamp != b.timestamp,
    ensures
        forall|l: Reading|
            #[trigger] is_latest(s2@, l) <==> l == (if a.timestamp < b.timestamp {
                b
            } else {
                a
            }),
{
    let m = if a.timestamp < b.timestamp { b } else { a };
    assert(!s0@.contains(a) && !s0@.contains(b));
    assert(s1@.contains(a));
    assert(s2@.contains(a) && s2@.contains(b));
    assert forall|k: int| 0 <= k < s2@.len() && s2@[k] != m implies newer(m, #[trigger] s2@[k]) by {
        let x = s2@[k];
        assert(s2@.contains(x));
        if s1@.contains(x) {
            assert(!s0@.contains(x));
        }
    }
    assert(is_latest(s2@, m));
    assert forall|l: Reading| #[trigger] is_latest(s2@, l) <==> l == m by {
        if is_latest(s2@, l) {
            lemma_latest_unique(s2@, l, m);
        }
    }
}

} // verus!
