//! Ordering of the collected records: once a scan has read every entry, the
//! whole list is rearranged into scan output order (directories first, then
//! byte-wise by name).

use crate::order::{lemma_record_le_total, lemma_record_le_trans, record_le, record_le_exec,
    sorted_recs};
use crate::record::EntryRecord;
use vstd::prelude::*;

verus! {

broadcast use vstd::seq_lib::group_to_multiset_ensures;

/// Rearranges the records into scan output order. The result holds exactly
/// the given records (as a multiset) and is sorted by the record order.
pub fn sort_records(records: Vec<EntryRecord>) -> (r: Vec<EntryRecord>)
    ensures
        sorted_recs(r@),
        r@.to_multiset() == records@.to_multiset(),
        r@.len() == records@.len(),
{
    let ghost orig = records@;
    let mut v = records;
    if v.len() == 0 {
        return v;
    }
    let mut i: usize = 1;
    while i < v.len()
        invariant
            1 <= i <= v@.len(),
            v@.len() == orig.len(),
            sorted_recs(v@.subrange(0, i as int)),
            v@.to_multiset() == orig.to_multiset(),
        decreases v@.len() - i,
    {
        let ghost before = v@;
        let mut p: usize = 0;
        while p < i && record_le_exec(&v[p], &v[i])
            invariant
                p <= i < v@.len(),
                v@ == before,
                forall|k: int| 0 <= k < p ==> record_le(v@[k], v@[i as int]),
            decreases i - p,
        {
            p = p + 1;
        }
        if p < i {
            let ghost x = before[i as int];
            let moved = v.remove(i);
            v.insert(p, moved);
            proof {
                let now = v@;
                assert(now =~= before.remove(i as int).insert(p as int, x));
                // index facts for the rearranged prefix
                assert(forall|k: int| 0 <= k < p ==> now[k] == before[k]);
                assert(now[p as int] == x);
                assert(forall|k: int| p < k <= i ==> now[k] == before[k - 1]);
                assert(!record_le(before[p as int], x));
                lemma_record_le_total(before[p as int], x);
                let pre = before.subrange(0, i as int);
                assert(forall|k: int| 0 <= k < i ==> pre[k] == before[k]);
                assert forall|k: int, l: int| 0 <= k < l < i + 1 implies record_le(
                    now[k],
                    now[l],
                ) by {
                    if l < p {
                        assert(record_le(pre[k], pre[l]));
                    } else if l == p {
                        assert(record_le(before[k], x));
                    } else {
                        if k < p {
                            assert(record_le(pre[k], pre[l - 1]));
                        } else if k == p {
                            if l - 1 > p {
                                assert(record_le(pre[p as int], pre[l - 1]));
                                lemma_record_le_trans(x, before[p as int], before[l - 1]);
                            }
                        } else {
                            assert(record_le(pre[k - 1], pre[l - 1]));
                        }
                    }
                }
                assert(sorted_recs(now.subrange(0, i as int + 1))) by {
                    assert(forall|k: int| 0 <= k < i + 1
                        ==> now.subrange(0, i as int + 1)[k] == now[k]);
                }
                // the move keeps the contents: remove then insert of the same record
                assert(before.to_multiset().contains(x)) by {
                    assert(before[i as int] == x);
                    assert(before.contains(x));
                }
                assert(now.to_multiset() =~= before.to_multiset());
            }
        } else {
            proof {
                assert forall|k: int, l: int| 0 <= k < l < i + 1 implies record_le(
                    v@[k],
                    v@[l],
                ) by {
                    if l < i {
                        assert(record_le(v@.subrange(0, i as int)[k], v@.subrange(0, i as int)[l]));
                    } else {
                        assert(record_le(v@[k], v@[i as int]));
                    }
                }
                assert(sorted_recs(v@.subrange(0, i as int + 1))) by {
                    assert(forall|k: int| 0 <= k < i + 1
                        ==> v@.subrange(0, i as int + 1)[k] == v@[k]);
                }
            }
        }
        i = i + 1;
    }
    proof {
        assert(v@.subrange(0, v@.len() as int) =~= v@);
    }
    v
}

} // verus!
