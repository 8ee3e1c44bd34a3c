use vstd::prelude::*;

use crate::text::{contains_string, is_listed, views};

verus! {

/// One extracted source file, as stored on a line of a record file.
#[derive(Clone, Debug)]
pub struct Record {
    pub text: String,
    pub id: String,
    pub file_extension: String,
    pub category: String,
    pub file_path: String,
    pub size_in_bytes: u64,
    pub file_name: String,
    pub tokens: usize,
}

/// The ids, in order, of the records whose flag in `keep` is set.
pub open spec fn kept_ids(records: Seq<Record>, keep: Seq<bool>) -> Seq<Seq<char>>
    decreases records.len(),
{
    if records.len() == 0 || keep.len() == 0 {
        Seq::empty()
    } else {
        let rest = kept_ids(records.drop_last(), keep.drop_last());
        if keep.last() {
            rest.push(records.last().id@)
        } else {
            rest
        }
    }
}

/// Every kept id is the id of some record, and there are at most as many
/// kept ids as records.
pub proof fn lemma_kept_ids_subset(records: Seq<Record>, keep: Seq<bool>)
    requires
        keep.len() == records.len(),
    ensures
        kept_ids(records, keep).len() <= records.len(),
        forall|t: int|
            0 <= t < kept_ids(records, keep).len() ==> #[trigger] is_some_id(
                records,
                kept_ids(records, keep)[t],
            ),
    decreases records.len(),
{
    if records.len() > 0 {
        let rs = records.drop_last();
        let ks = keep.drop_last();
        lemma_kept_ids_subset(rs, ks);
        let prev = kept_ids(rs, ks);
        assert forall|t: int|
            0 <= t < kept_ids(records, keep).len() implies #[trigger] is_some_id(
            records,
            kept_ids(records, keep)[t],
        ) by {
            if t < prev.len() {
                assert(is_some_id(rs, prev[t]));
                let i = choose|i: int| 0 <= i < rs.len() && #[trigger] rs[i].id@ == prev[t];
                assert(records[i] == rs[i]);
            } else {
                assert(records[records.len() - 1].id@ == kept_ids(records, keep)[t]);
            }
        }
    }
}

/// `id` is the id of one of the records.
pub open spec fn is_some_id(records: Seq<Record>, id: Seq<char>) -> bool {
    exists|i: int| 0 <= i < records.len() && #[trigger] records[i].id@ == id
}

/// The ids of the records whose flag in `keep` is set, in input order.
pub fn select_ids(records: &Vec<Record>, keep: &Vec<bool>) -> (ids: Vec<String>)
    requires
        keep@.len() == records@.len(),
    ensures
        views(ids@) == kept_ids(records@, keep@),
{
    let mut ids: Vec<String> = Vec::new();
    let mut i: usize = 0;
    assert(records@.subrange(0, 0).len() == 0);
    while i < records.len()
        invariant
            i <= records@.len(),
            keep@.len() == records@.len(),
            views(ids@) == kept_ids(records@.subrange(0, i as int), keep@.subrange(
                0,
                i as int,
            )),
        decreases records@.len() - i,
    {
        if keep[i] {
            ids.push(records[i].id.clone());
        }
        proof {
            let rs = records@.subrange(0, i + 1);
            let ks = keep@.subrange(0, i + 1);
            assert(rs.drop_last() =~= records@.subrange(0, i as int));
            assert(ks.drop_last() =~= keep@.subrange(0, i as int));
            assert(views(ids@) =~= kept_ids(rs, ks));
        }
        i = i + 1;
    }
    assert(records@.subrange(0, i as int) =~= records@);
    assert(keep@.subrange(0, i as int) =~= keep@);
    ids
}

/// Marks the records whose id is one of `ids`.
pub fn retained_by_ids(records: &Vec<Record>, ids: &Vec<String>) -> (keep: Vec<bool>)
    ensures
        keep@.len() == records@.len(),
        forall|i: int|
            0 <= i < records@.len() ==> #[trigger] keep@[i] == is_listed(ids@, records@[i].id@),
{
    let mut keep: Vec<bool> = Vec::new();
    let mut i: usize = 0;
    while i < records.len()
        invariant
            i <= records@.len(),
            keep@.len() == i,
            forall|j: int| 0 <= j < i ==> #[trigger] keep@[j] == is_listed(ids@, records@[j].id@),
        decreases records@.len() - i,
    {
        keep.push(contains_string(ids, &records[i].id));
        i = i + 1;
    }
    keep
}

} // verus!
