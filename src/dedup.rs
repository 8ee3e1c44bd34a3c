use vstd::prelude::*;
use vstd::utf8::encode_utf8;

use crate::digest::{md5_digest, md5_of};
use crate::fuzzy::{
    chained, compute_signatures, is_clustering, is_similar, near_duplicate_clusters, sig_views,
    signature_of,
};
use crate::record::{kept_ids, select_ids, Record};
use crate::text::views;

verus! {

/// The content hash of a record: the MD5 digest of its text's UTF-8 bytes.
pub open spec fn content_hash(r: Record) -> Seq<u8> {
    md5_of(encode_utf8(r.text@))
}

/// Record `i` is the first of its content hash.
pub open spec fn first_of_hash(records: Seq<Record>, i: int) -> bool {
    forall|j: int| 0 <= j < i ==> content_hash(#[trigger] records[j]) != content_hash(records[i])
}

/// The content hash of a record's text.
pub fn text_hash(r: &Record) -> (h: Vec<u8>)
    ensures
        h@ == content_hash(*r),
{
    md5_digest(r.text.as_str().as_bytes())
}

fn bytes_equal(a: &Vec<u8>, b: &Vec<u8>) -> (r: bool)
    ensures
        r == (a@ == b@),
{
    if a.len() != b.len() {
        return false;
    }
    let mut i: usize = 0;
    while i < a.len()
        invariant
            i <= a@.len(),
            a@.len() == b@.len(),
            a@.subrange(0, i as int) == b@.subrange(0, i as int),
        decreases a@.len() - i,
    {
        if a[i] != b[i] {
            assert(a@[i as int] != b@[i as int]);
            return false;
        }
        i = i + 1;
        assert(a@.subrange(0, i as int) =~= b@.subrange(0, i as int)) by {
            assert forall|k: int| 0 <= k < i implies a@[k] == b@[k] by {
                if k < i - 1 {
                    assert(a@.subrange(0, i - 1)[k] == b@.subrange(0, i - 1)[k]);
                }
            }
        }
    }
    assert(a@ =~= a@.subrange(0, i as int));
    assert(b@ =~= b@.subrange(0, i as int));
    true
}

/// Marks, for each record, whether it is the first record with its content
/// hash: exactly one record of each distinct hash is marked.
pub fn unique_content_mask(records: &Vec<Record>) -> (keep: Vec<bool>)
    ensures
        keep@.len() == records@.len(),
        forall|i: int| 0 <= i < records@.len() ==> #[trigger] keep@[i] == first_of_hash(records@, i),
{
    let mut hashes: Vec<Vec<u8>> = Vec::new();
    let mut keep: Vec<bool> = Vec::new();
    let mut i: usize = 0;
    while i < records.len()
        invariant
            i <= records@.len(),
            hashes@.len() == i,
            keep@.len() == i,
            forall|j: int| 0 <= j < i ==> #[trigger] hashes@[j]@ == content_hash(records@[j]),
            forall|j: int| 0 <= j < i ==> #[trigger] keep@[j] == first_of_hash(records@, j),
        decreases records@.len() - i,
    {
        let h = text_hash(&records[i]);
        let mut first = true;
        let mut j: usize = 0;
        while j < i
            invariant
                i < records@.len(),
                j <= i,
                hashes@.len() == i,
                h@ == content_hash(records@[i as int]),
                forall|j: int| 0 <= j < i ==> #[trigger] hashes@[j]@ == content_hash(records@[j]),
                first == forall|k: int|
                    0 <= k < j ==> content_hash(#[trigger] records@[k]) != content_hash(
                        records@[i as int],
                    ),
            decreases i - j,
        {
            if bytes_equal(&hashes[j], &h) {
                first = false;
            }
            j = j + 1;
        }
        hashes.push(h);
        keep.push(first);
        i = i + 1;
    }
    keep
}

/// The ids of the records kept by exact deduplication: the first record of
/// each distinct content hash.
pub fn get_unique_ids(records: &Vec<Record>) -> (ids: Vec<String>)
    ensures
        exists|keep: Seq<bool>|
            keep.len() == records@.len() && (forall|i: int|
                0 <= i < records@.len() ==> #[trigger] keep[i] == first_of_hash(records@, i))
                && views(ids@) == kept_ids(records@, keep),
{
    let keep = unique_content_mask(records);
    let ids = select_ids(records, &keep);
    assert(views(ids@) == kept_ids(records@, keep@));
    ids
}

/// Exact deduplication keeps one record per content hash: no two kept
/// records share a hash, and every record shares its hash with a kept record
/// at or before it.
pub proof fn lemma_exact_dedup_invariant(records: Seq<Record>, keep: Seq<bool>)
    requires
        keep.len() == records.len(),
        forall|i: int| 0 <= i < records.len() ==> #[trigger] keep[i] == first_of_hash(records, i),
    ensures
        forall|i: int, j: int|
            0 <= i < j < records.len() && #[trigger] keep[i] && #[trigger] keep[j] ==> content_hash(
                records[i],
            ) != content_hash(records[j]),
        forall|i: int| 0 <= i < records.len() ==> #[trigger] has_kept_twin(records, keep, i),
{
    assert forall|i: int| 0 <= i < records.len() implies #[trigger] has_kept_twin(
        records,
        keep,
        i,
    ) by {
        lemma_first_of_hash_exists(records, keep, i, i);
    }
}

/// Some kept record at or before `i` has the content hash of record `i`.
pub open spec fn has_kept_twin(records: Seq<Record>, keep: Seq<bool>, i: int) -> bool {
    exists|j: int|
        0 <= j <= i && keep[j] && content_hash(#[trigger] records[j]) == content_hash(records[i])
}

proof fn lemma_first_of_hash_exists(records: Seq<Record>, keep: Seq<bool>, i: int, m: int)
    requires
        keep.len() == records.len(),
        forall|i: int| 0 <= i < records.len() ==> #[trigger] keep[i] == first_of_hash(records, i),
        0 <= m <= i < records.len(),
        content_hash(records[m]) == content_hash(records[i]),
    ensures
        has_kept_twin(records, keep, i),
    decreases m,
{
    if keep[m] {
        assert(content_hash(records[m]) == content_hash(records[i]));
    } else {
        assert(!first_of_hash(records, m));
        let k = choose|k: int|
            0 <= k < m && content_hash(#[trigger] records[k]) == content_hash(records[m]);
        lemma_first_of_hash_exists(records, keep, i, k);
    }
}

/// The MinHash signatures of the records' texts.
pub open spec fn record_signatures(records: Seq<Record>, k: nat, n: nat) -> Seq<Seq<u64>> {
    Seq::new(records.len(), |i: int| signature_of(records[i].text@, k, n))
}

/// `cluster` groups the records into near-duplicate clusters, each named by
/// its smallest index: records whose signatures reach the estimated
/// similarity `num / den` share a cluster, records share a cluster only when
/// a chain of such similar records joins them, and no two records that name
/// their own cluster are that similar.
pub open spec fn near_duplicate_clustering(
    records: Seq<Record>,
    num: nat,
    den: nat,
    k: nat,
    n: nat,
    cluster: Seq<usize>,
) -> bool {
    &&& is_clustering(cluster, records.len())
    &&& forall|i: int, j: int|
        0 <= i < j < records.len() && is_similar(
            signature_of(#[trigger] records[i].text@, k, n),
            signature_of(#[trigger] records[j].text@, k, n),
            num,
            den,
        ) ==> cluster[i] == cluster[j]
    &&& forall|i: int, j: int|
        0 <= i < j < records.len() && #[trigger] cluster[i] == i && #[trigger] cluster[j] == j
            ==> !is_similar(signature_of(records[i].text@, k, n), signature_of(records[j].text@, k, n), num, den)
    &&& forall|i: int, j: int|
        0 <= i < records.len() && 0 <= j < records.len() && #[trigger] cluster[i]
            == #[trigger] cluster[j] ==> chained(record_signatures(records, k, n), num, den, i, j)
}

/// The records that name their own cluster.
pub open spec fn representatives_of(cluster: Seq<usize>) -> Seq<bool> {
    Seq::new(cluster.len(), |i: int| cluster[i] == i)
}

/// Clusters near-duplicate records: record `i` gets the smallest index of
/// its cluster. Records whose MinHash signatures (`signature_size` hash
/// functions over `ngram_size`-grams) reach the estimated similarity
/// `num / den` share a cluster, so no two retained records (those that name
/// their own cluster) are that similar; records share a cluster only when a
/// chain of such similar records joins them, and every record's cluster is
/// named by a retained record.
pub fn fuzzy_clusters(
    records: &Vec<Record>,
    num: u64,
    den: u64,
    signature_size: usize,
    ngram_size: usize,
) -> (cluster: Vec<usize>)
    requires
        ngram_size > 0,
    ensures
        is_clustering(cluster@, records@.len()),
        forall|i: int, j: int|
            0 <= i < j < records@.len() && is_similar(
                signature_of(#[trigger] records@[i].text@, signature_size as nat, ngram_size as nat),
                signature_of(#[trigger] records@[j].text@, signature_size as nat, ngram_size as nat),
                num as nat,
                den as nat,
            ) ==> cluster@[i] == cluster@[j],
        forall|i: int, j: int|
            0 <= i < j < records@.len() && #[trigger] cluster@[i] == i && #[trigger] cluster@[j] == j
                ==> !is_similar(
                signature_of(records@[i].text@, signature_size as nat, ngram_size as nat),
                signature_of(records@[j].text@, signature_size as nat, ngram_size as nat),
                num as nat,
                den as nat,
            ),
        forall|i: int, j: int|
            0 <= i < records@.len() && 0 <= j < records@.len() && #[trigger] cluster@[i]
                == #[trigger] cluster@[j] ==> chained(
                record_signatures(records@, signature_size as nat, ngram_size as nat),
                num as nat,
                den as nat,
                i,
                j,
            ),
        near_duplicate_clustering(
            records@,
            num as nat,
            den as nat,
            signature_size as nat,
            ngram_size as nat,
            cluster@,
        ),
{
    let sigs = compute_signatures(records, signature_size, ngram_size);
    assert(sig_views(sigs@) =~= record_signatures(
        records@,
        signature_size as nat,
        ngram_size as nat,
    ));
    assert forall|i: int| 0 <= i < sigs@.len() implies #[trigger] sigs@[i]@.len() == sigs@[0]@.len() by {
    }
    let cluster = near_duplicate_clusters(&sigs, num, den);
    proof {
        assert forall|i: int, j: int|
            0 <= i < j < records@.len() && is_similar(
                signature_of(#[trigger] records@[i].text@, signature_size as nat, ngram_size as nat),
                signature_of(#[trigger] records@[j].text@, signature_size as nat, ngram_size as nat),
                num as nat,
                den as nat,
            ) implies cluster@[i] == cluster@[j] by {
            assert(sigs@[i]@ == signature_of(records@[i].text@, signature_size as nat, ngram_size as nat));
            assert(sigs@[j]@ == signature_of(records@[j].text@, signature_size as nat, ngram_size as nat));
        }
        assert forall|i: int, j: int|
            0 <= i < j < records@.len() && #[trigger] cluster@[i] == i && #[trigger] cluster@[j] == j
                implies !is_similar(
                signature_of(records@[i].text@, signature_size as nat, ngram_size as nat),
                signature_of(records@[j].text@, signature_size as nat, ngram_size as nat),
                num as nat,
                den as nat,
            ) by {
            assert(sigs@[i]@ == signature_of(records@[i].text@, signature_size as nat, ngram_size as nat));
            assert(sigs@[j]@ == signature_of(records@[j].text@, signature_size as nat, ngram_size as nat));
        }
    }
    cluster
}

/// The ids kept by near-duplicate removal: those of the records that name
/// their own cluster, in input order. So no two kept records reach the
/// estimated similarity `num / den`, and every record's cluster is named by
/// a kept record at or before it.
pub fn fuzzy_unique_ids(
    records: &Vec<Record>,
    num: u64,
    den: u64,
    signature_size: usize,
    ngram_size: usize,
) -> (ids: Vec<String>)
    requires
        ngram_size > 0,
    ensures
        exists|cluster: Seq<usize>|
            #[trigger] near_duplicate_clustering(
                records@,
                num as nat,
                den as nat,
                signature_size as nat,
                ngram_size as nat,
                cluster,
            ) && views(ids@) == kept_ids(records@, representatives_of(cluster)),
{
    let cluster = fuzzy_clusters(records, num, den, signature_size, ngram_size);
    let keep = cluster_representatives(&cluster);
    assert(keep@ =~= representatives_of(cluster@));
    let ids = select_ids(records, &keep);
    assert(near_duplicate_clustering(
        records@,
        num as nat,
        den as nat,
        signature_size as nat,
        ngram_size as nat,
        cluster@,
    ));
    ids
}

/// Marks the records that name their own cluster.
pub fn cluster_representatives(cluster: &Vec<usize>) -> (keep: Vec<bool>)
    ensures
        keep@.len() == cluster@.len(),
        forall|i: int| 0 <= i < cluster@.len() ==> #[trigger] keep@[i] == (cluster@[i] == i),
{
    let mut keep: Vec<bool> = Vec::new();
    let mut i: usize = 0;
    while i < cluster.len()
        invariant
            i <= cluster@.len(),
            keep@.len() == i,
            forall|j: int| 0 <= j < i ==> #[trigger] keep@[j] == (cluster@[j] == j),
        decreases cluster@.len() - i,
    {
        keep.push(cluster[i] == i);
        i = i + 1;
    }
    keep
}

} // verus!
