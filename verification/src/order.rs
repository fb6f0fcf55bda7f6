//! The total order in which a scan reports its records: directories before
//! files, and within the same kind by plain byte-wise name comparison, with
//! no locale-aware or case-insensitive collation.

use crate::record::EntryRecord;
use vstd::prelude::*;

verus! {

/// Byte-wise lexicographic "less than or equal" on names.
pub open spec fn lex_le(a: Seq<u8>, b: Seq<u8>) -> bool
    decreases a.len(),
{
    if a.len() == 0 {
        true
    } else if b.len() == 0 {
        false
    } else if a[0] < b[0] {
        true
    } else if a[0] > b[0] {
        false
    } else {
        lex_le(a.drop_first(), b.drop_first())
    }
}

/// The scan's record order: a directory precedes every file; records of the
/// same kind are ordered by name.
pub open spec fn record_le(a: EntryRecord, b: EntryRecord) -> bool {
    if a.is_dir != b.is_dir {
        a.is_dir
    } else {
        lex_le(a.name@, b.name@)
    }
}

/// A sequence of records in scan output order.
pub open spec fn sorted_recs(s: Seq<EntryRecord>) -> bool {
    forall|i: int, j: int| 0 <= i < j < s.len() ==> #[trigger] record_le(s[i], s[j])
}

/// Any two names are comparable.
pub proof fn lemma_lex_le_total(a: Seq<u8>, b: Seq<u8>)
    ensures
        lex_le(a, b) || lex_le(b, a),
    decreases a.len(),
{
    if a.len() > 0 && b.len() > 0 && a[0] == b[0] {
        lemma_lex_le_total(a.drop_first(), b.drop_first());
    }
}

/// Name comparison is transitive.
pub proof fn lemma_lex_le_trans(a: Seq<u8>, b: Seq<u8>, c: Seq<u8>)
    requires
        lex_le(a, b),
        lex_le(b, c),
    ensures
        lex_le(a, c),
    decreases a.len(),
{
    if a.len() > 0 {
        if a[0] == b[0] && b[0] == c[0] {
            lemma_lex_le_trans(a.drop_first(), b.drop_first(), c.drop_first());
        }
    }
}

/// Any two records are comparable.
pub proof fn lemma_record_le_total(a: EntryRecord, b: EntryRecord)
    ensures
        record_le(a, b) || record_le(b, a),
{
    if a.is_dir == b.is_dir {
        lemma_lex_le_total(a.name@, b.name@);
    }
}

/// The record order is transitive.
pub proof fn lemma_record_le_trans(a: EntryRecord, b: EntryRecord, c: EntryRecord)
    requires
        record_le(a, b),
        record_le(b, c),
    ensures
        record_le(a, c),
{
    if a.is_dir == b.is_dir && b.is_dir == c.is_dir {
        lemma_lex_le_trans(a.name@, b.name@, c.name@);
    }
}

/// In scan output order, no file ever precedes a directory, and records of
/// the same kind stand in lexicographic name order.
pub proof fn lemma_sorted_pairs(s: Seq<EntryRecord>, i: int, j: int)
    requires
        sorted_recs(s),
        0 <= i < j < s.len(),
    ensures
        !(s[j].is_dir && !s[i].is_dir),
        s[i].is_dir == s[j].is_dir ==> lex_le(s[i].name@, s[j].name@),
{
    assert(record_le(s[i], s[j]));
}

/// Byte-wise name comparison, matching `lex_le` on the views.
pub fn lex_le_bytes(a: &Vec<u8>, b: &Vec<u8>) -> (r: bool)
    ensures
        r == lex_le(a@, b@),
{
    let mut i: usize = 0;
    proof {
        assert(a@.skip(0) =~= a@);
        assert(b@.skip(0) =~= b@);
    }
    while i < a.len() && i < b.len()
        invariant
            i <= a.len(),
            i <= b.len(),
            lex_le(a@, b@) == lex_le(a@.skip(i as int), b@.skip(i as int)),
        decreases a.len() - i,
    {
        let x = a[i];
        let y = b[i];
        proof {
            assert(a@.skip(i as int)[0] == a@[i as int]);
            assert(b@.skip(i as int)[0] == b@[i as int]);
            assert(a@.skip(i as int).drop_first() =~= a@.skip(i as int + 1));
            assert(b@.skip(i as int).drop_first() =~= b@.skip(i as int + 1));
        }
        if x < y {
            return true;
        }
        if x > y {
            return false;
        }
        i = i + 1;
    }
    proof {
        if i == a.len() {
            assert(a@.skip(i as int).len() == 0);
        } else {
            assert(b@.skip(i as int).len() == 0);
            assert(a@.skip(i as int).len() > 0);
        }
    }
    a.len() <= b.len()
}

/// The record order, matching `record_le` on the values.
pub fn record_le_exec(a: &EntryRecord, b: &EntryRecord) -> (r: bool)
    ensures
        r == record_le(*a, *b),
{
    if a.is_dir != b.is_dir {
        a.is_dir
    } else {
        lex_le_bytes(&a.name, &b.name)
    }
}

} // verus!
