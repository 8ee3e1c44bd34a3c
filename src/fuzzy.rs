use vstd::prelude::*;
use vstd::utf8::encode_utf8;

use crate::digest::{le_bytes, le_u64_prefix, le_value, md5_digest, md5_of, u64_le_bytes};
use crate::record::Record;
use crate::text::{chars_of, substring, views};
use crate::union_find::UnionFind;

verus! {

/// The character n-grams of `t`: every window of `n` consecutive characters,
/// left to right, or `t` itself when it is shorter than `n`.
pub open spec fn ngrams(t: Seq<char>, n: nat) -> Seq<Seq<char>> {
    if t.len() < n {
        seq![t]
    } else {
        Seq::new((t.len() - n + 1) as nat, |i: int| t.subrange(i, i + n))
    }
}

/// The hash of one shingle under hash function number `seed`: the first
/// eight bytes, read little-endian, of the MD5 digest of the seed's eight
/// little-endian bytes followed by the shingle's UTF-8 bytes.
pub open spec fn shingle_hash(seed: nat, s: Seq<char>) -> nat {
    le_value(md5_of(le_bytes(seed, 8) + encode_utf8(s)).subrange(0, 8))
}

/// The smallest hash under `seed` over a non-empty list of shingles.
pub open spec fn min_hash(seed: nat, shingles: Seq<Seq<char>>) -> nat
    decreases shingles.len(),
{
    if shingles.len() <= 1 {
        shingle_hash(seed, shingles[0])
    } else {
        let m = min_hash(seed, shingles.drop_last());
        let h = shingle_hash(seed, shingles.last());
        if h < m {
            h
        } else {
            m
        }
    }
}

/// The MinHash signature of a text: entry `i` is the smallest hash, under
/// hash function `i`, over the text's `n`-grams.
pub open spec fn signature_of(t: Seq<char>, k: nat, n: nat) -> Seq<u64> {
    Seq::new(k, |i: int| min_hash(i as nat, ngrams(t, n)) as u64)
}

/// The number of positions below `i` at which `a` and `b` agree.
pub open spec fn agree_upto(a: Seq<u64>, b: Seq<u64>, i: nat) -> nat
    decreases i,
{
    if i == 0 {
        0
    } else {
        agree_upto(a, b, (i - 1) as nat) + if a[i - 1] == b[i - 1] {
            1nat
        } else {
            0nat
        }
    }
}

/// The number of positions at which two signatures agree.
pub open spec fn agreements(a: Seq<u64>, b: Seq<u64>) -> nat {
    agree_upto(a, b, a.len())
}

/// The estimated Jaccard similarity of two signatures, `agreements / len`,
/// reaches the threshold `num / den`.
pub open spec fn is_similar(a: Seq<u64>, b: Seq<u64>, num: nat, den: nat) -> bool {
    agreements(a, b) * den >= num * a.len()
}

/// All signatures have the same length.
pub open spec fn same_length(sigs: Seq<Vec<u64>>) -> bool {
    forall|i: int| 0 <= i < sigs.len() ==> #[trigger] sigs[i]@.len() == sigs[0]@.len()
}

/// A partition of `0..n` into clusters, each named by its smallest member.
pub open spec fn is_clustering(cluster: Seq<usize>, n: nat) -> bool {
    &&& cluster.len() == n
    &&& forall|i: int|
        0 <= i < n ==> #[trigger] cluster[i] <= i && cluster[cluster[i] as int] == cluster[i]
}

/// Some listed pair joins `x` and `y`, in either order.
pub open spec fn adjacent(pairs: Seq<(usize, usize)>, x: int, y: int) -> bool {
    exists|t: int|
        0 <= t < pairs.len() && ((#[trigger] pairs[t].0 == x && pairs[t].1 == y) || (pairs[t].0
            == y && pairs[t].1 == x))
}

/// A non-empty walk along listed pairs.
pub open spec fn is_walk(pairs: Seq<(usize, usize)>, w: Seq<int>) -> bool {
    &&& w.len() >= 1
    &&& forall|k: int| 0 <= k < w.len() - 1 ==> adjacent(pairs, #[trigger] w[k], w[k + 1])
}

/// A walk along listed pairs leads from `a` to `b`.
pub open spec fn linked(pairs: Seq<(usize, usize)>, a: int, b: int) -> bool {
    exists|w: Seq<int>| #[trigger] is_walk(pairs, w) && w[0] == a && w.last() == b
}

proof fn lemma_linked_refl(pairs: Seq<(usize, usize)>, a: int)
    ensures
        linked(pairs, a, a),
{
    let w = seq![a];
    assert(is_walk(pairs, w));
}

proof fn lemma_linked_pair(pairs: Seq<(usize, usize)>, t: int)
    requires
        0 <= t < pairs.len(),
    ensures
        linked(pairs, pairs[t].0 as int, pairs[t].1 as int),
{
    let w = seq![pairs[t].0 as int, pairs[t].1 as int];
    assert(adjacent(pairs, w[0], w[1]));
    assert(is_walk(pairs, w));
}

proof fn lemma_linked_symmetric(pairs: Seq<(usize, usize)>, a: int, b: int)
    requires
        linked(pairs, a, b),
    ensures
        linked(pairs, b, a),
{
    let w = choose|w: Seq<int>| #[trigger] is_walk(pairs, w) && w[0] == a && w.last() == b;
    let r = w.reverse();
    assert forall|k: int| 0 <= k < r.len() - 1 implies adjacent(pairs, #[trigger] r[k], r[k + 1]) by {
        let m = w.len() - 2 - k;
        assert(adjacent(pairs, w[m], w[m + 1]));
        let t = choose|t: int|
            0 <= t < pairs.len() && ((#[trigger] pairs[t].0 == w[m] && pairs[t].1 == w[m + 1]) || (
            pairs[t].0 == w[m + 1] && pairs[t].1 == w[m]));
        assert(r[k] == w[m + 1] && r[k + 1] == w[m]);
    }
    assert(is_walk(pairs, r));
}

proof fn lemma_linked_transitive(pairs: Seq<(usize, usize)>, a: int, b: int, c: int)
    requires
        linked(pairs, a, b),
        linked(pairs, b, c),
    ensures
        linked(pairs, a, c),
{
    let w1 = choose|w: Seq<int>| #[trigger] is_walk(pairs, w) && w[0] == a && w.last() == b;
    let w2 = choose|w: Seq<int>| #[trigger] is_walk(pairs, w) && w[0] == b && w.last() == c;
    let w = w1 + w2.drop_first();
    assert forall|k: int| 0 <= k < w.len() - 1 implies adjacent(pairs, #[trigger] w[k], w[k + 1]) by {
        if k < w1.len() - 1 {
            assert(w[k] == w1[k] && w[k + 1] == w1[k + 1]);
        } else {
            let m = k - (w1.len() - 1);
            assert(w[k] == w2[m]);
            assert(w[k + 1] == w2[m + 1]);
            assert(adjacent(pairs, w2[m], w2[m + 1]));
        }
    }
    assert(is_walk(pairs, w));
    if w2.len() == 1 {
        assert(w.last() == w1.last());
    } else {
        assert(w.last() == w2.last());
    }
}

/// Signatures `x` and `y` exist and one's estimated similarity to the other
/// reaches `num / den`.
pub open spec fn similar_step(sigs: Seq<Seq<u64>>, num: nat, den: nat, x: int, y: int) -> bool {
    &&& 0 <= x < sigs.len()
    &&& 0 <= y < sigs.len()
    &&& (is_similar(sigs[x], sigs[y], num, den) || is_similar(sigs[y], sigs[x], num, den))
}

/// A non-empty walk whose consecutive signatures are similar.
pub open spec fn is_similar_walk(sigs: Seq<Seq<u64>>, num: nat, den: nat, w: Seq<int>) -> bool {
    &&& w.len() >= 1
    &&& forall|k: int| 0 <= k < w.len() - 1 ==> similar_step(sigs, num, den, #[trigger] w[k], w[k + 1])
}

/// A chain of pairwise similar signatures leads from `a` to `b`.
pub open spec fn chained(sigs: Seq<Seq<u64>>, num: nat, den: nat, a: int, b: int) -> bool {
    exists|w: Seq<int>| #[trigger] is_similar_walk(sigs, num, den, w) && w[0] == a && w.last() == b
}

/// The views of a sequence of signatures.
pub open spec fn sig_views(v: Seq<Vec<u64>>) -> Seq<Seq<u64>> {
    Seq::new(v.len(), |i: int| v[i]@)
}

proof fn lemma_linked_chained(
    sigs: Seq<Seq<u64>>,
    num: nat,
    den: nat,
    pairs: Seq<(usize, usize)>,
    a: int,
    b: int,
)
    requires
        linked(pairs, a, b),
        forall|t: int|
            0 <= t < pairs.len() ==> {
                let (i, j) = #[trigger] pairs[t];
                &&& i < j < sigs.len()
                &&& is_similar(sigs[i as int], sigs[j as int], num, den)
            },
    ensures
        chained(sigs, num, den, a, b),
{
    let w = choose|w: Seq<int>| #[trigger] is_walk(pairs, w) && w[0] == a && w.last() == b;
    assert forall|k: int| 0 <= k < w.len() - 1 implies similar_step(
        sigs,
        num,
        den,
        #[trigger] w[k],
        w[k + 1],
    ) by {
        assert(adjacent(pairs, w[k], w[k + 1]));
        let t = choose|t: int|
            0 <= t < pairs.len() && ((#[trigger] pairs[t].0 == w[k] && pairs[t].1 == w[k + 1]) || (
            pairs[t].0 == w[k + 1] && pairs[t].1 == w[k]));
        let (i, j) = pairs[t];
        assert(i < j < sigs.len());
    }
    assert(is_similar_walk(sigs, num, den, w));
}

proof fn lemma_agree_upto_bound(a: Seq<u64>, b: Seq<u64>, i: nat)
    ensures
        agree_upto(a, b, i) <= i,
    decreases i,
{
    if i > 0 {
        lemma_agree_upto_bound(a, b, (i - 1) as nat);
    }
}

/// Character n-grams ("shingles") of `text`; the whole text when it is
/// shorter than `n`.
pub fn generate_ngrams(text: &str, n: usize) -> (r: Vec<String>)
    requires
        n > 0,
    ensures
        r@.len() == ngrams(text@, n as nat).len(),
        forall|i: int| 0 <= i < r@.len() ==> #[trigger] r@[i]@ == ngrams(text@, n as nat)[i],
{
    let cs = chars_of(text);
    let len = cs.len();
    let mut r: Vec<String> = Vec::new();
    if len < n {
        r.push(substring(&cs, 0, len));
        assert(cs@.subrange(0, len as int) =~= text@);
        return r;
    }
    let mut i: usize = 0;
    while i <= len - n
        invariant
            n > 0,
            n <= len,
            len == cs@.len(),
            cs@ == text@,
            i <= len - n + 1,
            r@.len() == i,
            forall|j: int| 0 <= j < i ==> #[trigger] r@[j]@ == cs@.subrange(j, j + n),
        decreases len - i,
    {
        r.push(substring(&cs, i, i + n));
        i = i + 1;
    }
    r
}

/// The hash of `shingle` under hash function number `seed`.
fn shingle_hash_of(seed: u64, shingle: &String) -> (h: u64)
    ensures
        h == shingle_hash(seed as nat, shingle@),
{
    let mut input = u64_le_bytes(seed);
    let bytes = shingle.as_str().as_bytes();
    let ghost prefix = input@;
    let mut i: usize = 0;
    while i < bytes.len()
        invariant
            i <= bytes@.len(),
            bytes@ == encode_utf8(shingle@),
            input@ == prefix + bytes@.subrange(0, i as int),
        decreases bytes@.len() - i,
    {
        input.push(bytes[i]);
        i = i + 1;
        assert(input@ =~= prefix + bytes@.subrange(0, i as int));
    }
    assert(bytes@.subrange(0, i as int) =~= bytes@);
    let digest = md5_digest(input.as_slice());
    le_u64_prefix(&digest)
}

/// The smallest hash under `seed` over a non-empty list of shingles.
fn min_hash_of(seed: u64, shingles: &Vec<String>) -> (m: u64)
    requires
        shingles@.len() > 0,
    ensures
        m == min_hash(seed as nat, views(shingles@)),
{
    let ghost ss = views(shingles@);
    let mut m = shingle_hash_of(seed, &shingles[0]);
    let mut j: usize = 1;
    assert(ss.subrange(0, 1).len() == 1);
    while j < shingles.len()
        invariant
            1 <= j <= shingles@.len(),
            ss == views(shingles@),
            m == min_hash(seed as nat, ss.subrange(0, j as int)),
        decreases shingles@.len() - j,
    {
        let h = shingle_hash_of(seed, &shingles[j]);
        proof {
            assert(ss.subrange(0, j + 1).drop_last() =~= ss.subrange(0, j as int));
        }
        if h < m {
            m = h;
        }
        j = j + 1;
    }
    assert(ss.subrange(0, j as int) =~= ss);
    m
}

/// The MinHash signature, of length `signature_size`, of each document's
/// text over its `ngram_size`-grams.
pub fn compute_signatures(documents: &Vec<Record>, signature_size: usize, ngram_size: usize) -> (sigs: Vec<Vec<u64>>)
    requires
        ngram_size > 0,
    ensures
        sigs@.len() == documents@.len(),
        forall|d: int|
            0 <= d < sigs@.len() ==> #[trigger] sigs@[d]@ == signature_of(
                documents@[d].text@,
                signature_size as nat,
                ngram_size as nat,
            ),
{
    let mut sigs: Vec<Vec<u64>> = Vec::new();
    let mut d: usize = 0;
    while d < documents.len()
        invariant
            ngram_size > 0,
            d <= documents@.len(),
            sigs@.len() == d,
            forall|e: int|
                0 <= e < d ==> #[trigger] sigs@[e]@ == signature_of(
                    documents@[e].text@,
                    signature_size as nat,
                    ngram_size as nat,
                ),
        decreases documents@.len() - d,
    {
        let shingles = generate_ngrams(documents[d].text.as_str(), ngram_size);
        let ghost ng = ngrams(documents@[d as int].text@, ngram_size as nat);
        assert(views(shingles@) =~= ng);
        let mut sig: Vec<u64> = Vec::new();
        let mut s: usize = 0;
        while s < signature_size
            invariant
                s <= signature_size,
                shingles@.len() == ng.len(),
                shingles@.len() > 0,
                views(shingles@) == ng,
                sig@.len() == s,
                forall|i: int| 0 <= i < s ==> #[trigger] sig@[i] == min_hash(i as nat, ng) as u64,
            decreases signature_size - s,
        {
            let m = min_hash_of(s as u64, &shingles);
            sig.push(m);
            s = s + 1;
        }
        assert(sig@ =~= signature_of(
            documents@[d as int].text@,
            signature_size as nat,
            ngram_size as nat,
        ));
        sigs.push(sig);
        d = d + 1;
    }
    sigs
}

/// Whether the estimated similarity of `a` and `b` reaches `num / den`.
pub fn similar(a: &Vec<u64>, b: &Vec<u64>, num: u64, den: u64) -> (r: bool)
    requires
        a@.len() == b@.len(),
    ensures
        r == is_similar(a@, b@, num as nat, den as nat),
{
    let mut count: usize = 0;
    let mut i: usize = 0;
    while i < a.len()
        invariant
            i <= a@.len(),
            a@.len() == b@.len(),
            count == agree_upto(a@, b@, i as nat),
        decreases a@.len() - i,
    {
        proof {
            lemma_agree_upto_bound(a@, b@, i as nat);
        }
        if a[i] == b[i] {
            count = count + 1;
        }
        i = i + 1;
    }
    let c = count as u128;
    let d = den as u128;
    let k = a.len() as u128;
    let q = num as u128;
    assert(c * d <= u64::MAX * u64::MAX) by (nonlinear_arith)
        requires
            c <= u64::MAX,
            d <= u64::MAX,
    ;
    assert(q * k <= u64::MAX * u64::MAX) by (nonlinear_arith)
        requires
            q <= u64::MAX,
            k <= u64::MAX,
    ;
    c * d >= q * k
}

/// Every pair `(i, j)`, `i < j`, of signatures whose estimated similarity
/// reaches `num / den`, in increasing order.
pub fn find_similar_pairs(signatures: &Vec<Vec<u64>>, num: u64, den: u64) -> (pairs: Vec<(usize, usize)>)
    requires
        same_length(signatures@),
    ensures
        forall|t: int|
            0 <= t < pairs@.len() ==> {
                let (i, j) = #[trigger] pairs@[t];
                &&& i < j < signatures@.len()
                &&& is_similar(signatures@[i as int]@, signatures@[j as int]@, num as nat, den as nat)
            },
        forall|i: int, j: int|
            0 <= i < j < signatures@.len() && is_similar(
                #[trigger] signatures@[i]@,
                #[trigger] signatures@[j]@,
                num as nat,
                den as nat,
            ) ==> pairs@.contains((i as usize, j as usize)),
        forall|s: int, t: int|
            0 <= s < t < pairs@.len() ==> #[trigger] pairs@[s].0 < #[trigger] pairs@[t].0 || (
            pairs@[s].0 == pairs@[t].0 && pairs@[s].1 < pairs@[t].1),
{
    let n = signatures.len();
    let mut pairs: Vec<(usize, usize)> = Vec::new();
    let mut i: usize = 0;
    while i < n
        invariant
            n == signatures@.len(),
            same_length(signatures@),
            i <= n,
            forall|t: int|
                0 <= t < pairs@.len() ==> {
                    let (a, b) = #[trigger] pairs@[t];
                    &&& a < b < n
                    &&& a < i
                    &&& is_similar(signatures@[a as int]@, signatures@[b as int]@, num as nat, den as nat)
                },
            forall|a: int, b: int|
                0 <= a < i && a < b < n && is_similar(
                    #[trigger] signatures@[a]@,
                    #[trigger] signatures@[b]@,
                    num as nat,
                    den as nat,
                ) ==> pairs@.contains((a as usize, b as usize)),
            forall|s: int, t: int|
                0 <= s < t < pairs@.len() ==> #[trigger] pairs@[s].0 < #[trigger] pairs@[t].0 || (
                pairs@[s].0 == pairs@[t].0 && pairs@[s].1 < pairs@[t].1),
        decreases n - i,
    {
        let mut j: usize = i + 1;
        while j < n
            invariant
                n == signatures@.len(),
                same_length(signatures@),
                i < n,
                i + 1 <= j <= n,
                forall|t: int|
                    0 <= t < pairs@.len() ==> {
                        let (a, b) = #[trigger] pairs@[t];
                        &&& a < b < n
                        &&& (a < i || (a == i && b < j))
                        &&& is_similar(signatures@[a as int]@, signatures@[b as int]@, num as nat, den as nat)
                    },
                forall|a: int, b: int|
                    ((0 <= a < i && a < b < n) || (a == i && i < b < j)) && is_similar(
                        #[trigger] signatures@[a]@,
                        #[trigger] signatures@[b]@,
                        num as nat,
                        den as nat,
                    ) ==> pairs@.contains((a as usize, b as usize)),
                forall|s: int, t: int|
                    0 <= s < t < pairs@.len() ==> #[trigger] pairs@[s].0 < #[trigger] pairs@[t].0
                        || (pairs@[s].0 == pairs@[t].0 && pairs@[s].1 < pairs@[t].1),
            decreases n - j,
        {
            assert(signatures@[i as int]@.len() == signatures@[0]@.len());
            assert(signatures@[j as int]@.len() == signatures@[0]@.len());
            if similar(&signatures[i], &signatures[j], num, den) {
                let ghost before = pairs@;
                pairs.push((i, j));
                proof {
                    assert forall|a: int, b: int|
                        ((0 <= a < i && a < b < n) || (a == i && i < b < j + 1)) && is_similar(
                            #[trigger] signatures@[a]@,
                            #[trigger] signatures@[b]@,
                            num as nat,
                            den as nat,
                        ) implies pairs@.contains((a as usize, b as usize)) by {
                        if a == i && b == j {
                            assert(pairs@[before.len() as int] == (a as usize, b as usize));
                        } else {
                            assert(before.contains((a as usize, b as usize)));
                            let t = choose|t: int|
                                0 <= t < before.len() && before[t] == (a as usize, b as usize);
                            assert(pairs@[t] == (a as usize, b as usize));
                        }
                    }
                }
            }
            j = j + 1;
        }
        i = i + 1;
    }
    pairs
}

/// Clusters `0..n` by the union of the given pairs and names each cluster
/// by its smallest member: the clusters are the connected components of the
/// pairs, so indices of one pair share a cluster and indices share a cluster
/// only when a walk along the pairs joins them.
pub fn build_connected_components(similar_pairs: &Vec<(usize, usize)>, n: usize) -> (cluster: Vec<usize>)
    requires
        forall|t: int|
            0 <= t < similar_pairs@.len() ==> #[trigger] similar_pairs@[t].0 < n
                && similar_pairs@[t].1 < n,
    ensures
        is_clustering(cluster@, n as nat),
        forall|t: int|
            0 <= t < similar_pairs@.len() ==> cluster@[#[trigger] similar_pairs@[t].0 as int]
                == cluster@[similar_pairs@[t].1 as int],
        forall|i: int, j: int|
            0 <= i < n && 0 <= j < n && #[trigger] cluster@[i] == #[trigger] cluster@[j] ==> linked(
                similar_pairs@,
                i,
                j,
            ),
{
    let mut uf = UnionFind::new(n);
    proof {
        assert forall|i: int, j: int|
            0 <= i < n && 0 <= j < n && #[trigger] uf.same_class(i, j) implies linked(
            similar_pairs@,
            i,
            j,
        ) by {
            lemma_linked_refl(similar_pairs@, i);
        }
    }
    let mut t: usize = 0;
    while t < similar_pairs.len()
        invariant
            uf.wf(),
            uf@.len() == n,
            t <= similar_pairs@.len(),
            forall|t: int|
                0 <= t < similar_pairs@.len() ==> #[trigger] similar_pairs@[t].0 < n
                    && similar_pairs@[t].1 < n,
            forall|s: int|
                0 <= s < t ==> uf.same_class(
                    #[trigger] similar_pairs@[s].0 as int,
                    similar_pairs@[s].1 as int,
                ),
            forall|i: int, j: int|
                0 <= i < n && 0 <= j < n && #[trigger] uf.same_class(i, j) ==> linked(
                    similar_pairs@,
                    i,
                    j,
                ),
        decreases similar_pairs@.len() - t,
    {
        let (a, b) = similar_pairs[t];
        let ghost before = uf;
        uf.union(a, b);
        proof {
            assert forall|s: int| 0 <= s < t + 1 implies uf.same_class(
                #[trigger] similar_pairs@[s].0 as int,
                similar_pairs@[s].1 as int,
            ) by {
                let (x, y) = similar_pairs@[s];
                if s < t {
                    assert(before.same_class(x as int, y as int));
                } else {
                    assert(before.same_class(a as int, a as int));
                    assert(before.same_class(b as int, b as int));
                }
            }
            assert forall|i: int, j: int|
                0 <= i < n && 0 <= j < n && #[trigger] uf.same_class(i, j) implies linked(
                similar_pairs@,
                i,
                j,
            ) by {
                let ps = similar_pairs@;
                lemma_linked_pair(ps, t as int);
                if before.same_class(i, j) {
                } else if before.same_class(i, a as int) && before.same_class(j, b as int) {
                    assert(linked(ps, i, a as int));
                    assert(before.same_class(b as int, j));
                    assert(linked(ps, b as int, j));
                    lemma_linked_transitive(ps, i, a as int, b as int);
                    lemma_linked_transitive(ps, i, b as int, j);
                } else {
                    assert(before.same_class(i, b as int) && before.same_class(j, a as int));
                    assert(linked(ps, i, b as int));
                    assert(before.same_class(a as int, j));
                    assert(linked(ps, a as int, j));
                    lemma_linked_symmetric(ps, a as int, b as int);
                    lemma_linked_transitive(ps, i, b as int, a as int);
                    lemma_linked_transitive(ps, i, a as int, j);
                }
            }
        }
        t = t + 1;
    }
    let ghost classes = uf@;
    proof {
        assert forall|i: int, j: int|
            0 <= i < n && 0 <= j < n && #[trigger] classes[i] == #[trigger] classes[j] implies linked(
            similar_pairs@,
            i,
            j,
        ) by {
            assert(uf.same_class(i, j));
        }
    }
    let comps = uf.get_components();
    let mut cluster: Vec<usize> = Vec::new();
    let mut i: usize = 0;
    while i < n
        invariant
            uf.wf(),
            uf@ == classes,
            classes.len() == n,
            comps@.len() == n,
            i <= n,
            cluster@.len() == i,
            forall|k: int, t: int|
                0 <= k < n && 0 <= t < comps@[k]@.len() ==> (#[trigger] comps@[k]@[t] < n
                    && classes[comps@[k]@[t] as int] == k),
            forall|k: int, t: int, u: int|
                0 <= k < n && 0 <= t < u < comps@[k]@.len() ==> #[trigger] comps@[k]@[t]
                    < #[trigger] comps@[k]@[u],
            forall|j: int| 0 <= j < n ==> 0 <= #[trigger] classes[j] < n,
            forall|j: int| 0 <= j < n ==> #[trigger] comps@[classes[j]]@.contains(j as usize),
            forall|i: int, j: int|
                0 <= i < n && 0 <= j < n && #[trigger] classes[i] == #[trigger] classes[j] ==> linked(
                    similar_pairs@,
                    i,
                    j,
                ),
            forall|j: int|
                0 <= j < i ==> #[trigger] cluster@[j] <= j && classes[cluster@[j] as int]
                    == classes[j] && cluster@[j] == comps@[classes[j]]@[0],
        decreases n - i,
    {
        let root = uf.find(i);
        assert(comps@[classes[i as int]]@.contains((i as int) as usize));
        let first = comps[root][0];
        proof {
            let c = comps@[root as int]@;
            let t = choose|t: int| 0 <= t < c.len() && c[t] == i;
            if t > 0 {
                assert(c[0] < c[t]);
            }
        }
        cluster.push(first);
        i = i + 1;
    }
    proof {
        assert forall|j: int| 0 <= j < n implies #[trigger] cluster@[j] <= j
            && cluster@[cluster@[j] as int] == cluster@[j] by {
            let c = cluster@[j] as int;
            assert(classes[c] == classes[j]);
        }
        assert forall|t: int| 0 <= t < similar_pairs@.len() implies cluster@[
            #[trigger] similar_pairs@[t].0 as int] == cluster@[similar_pairs@[t].1 as int] by {
            let x = similar_pairs@[t].0 as int;
            let y = similar_pairs@[t].1 as int;
            assert(classes[x] == classes[y]);
        }
        assert forall|i: int, j: int|
            0 <= i < n && 0 <= j < n && #[trigger] cluster@[i] == #[trigger] cluster@[j] implies linked(
            similar_pairs@,
            i,
            j,
        ) by {
            assert(classes[cluster@[i] as int] == classes[i]);
            assert(classes[cluster@[j] as int] == classes[j]);
            assert(classes[i] == classes[j]);
        }
    }
    cluster
}

/// Groups near-duplicate signatures: each signature gets the smallest index
/// of its cluster. Two signatures whose estimated similarity reaches
/// `num / den` share a cluster, so no two cluster representatives are that
/// similar; and two signatures share a cluster only when a chain of such
/// similar signatures joins them.
pub fn near_duplicate_clusters(signatures: &Vec<Vec<u64>>, num: u64, den: u64) -> (cluster: Vec<usize>)
    requires
        same_length(signatures@),
    ensures
        is_clustering(cluster@, signatures@.len()),
        forall|i: int, j: int|
            0 <= i < j < signatures@.len() && is_similar(
                #[trigger] signatures@[i]@,
                #[trigger] signatures@[j]@,
                num as nat,
                den as nat,
            ) ==> cluster@[i] == cluster@[j],
        forall|i: int, j: int|
            0 <= i < j < signatures@.len() && #[trigger] cluster@[i] == i && #[trigger] cluster@[j] == j
                ==> !is_similar(signatures@[i]@, signatures@[j]@, num as nat, den as nat),
        forall|i: int, j: int|
            0 <= i < signatures@.len() && 0 <= j < signatures@.len() && #[trigger] cluster@[i]
                == #[trigger] cluster@[j] ==> chained(sig_views(signatures@), num as nat, den as nat, i, j),
{
    let pairs = find_similar_pairs(signatures, num, den);
    let cluster = build_connected_components(&pairs, signatures.len());
    proof {
        assert forall|i: int, j: int|
            0 <= i < j < signatures@.len() && is_similar(
                #[trigger] signatures@[i]@,
                #[trigger] signatures@[j]@,
                num as nat,
                den as nat,
            ) implies cluster@[i] == cluster@[j] by {
            let t = choose|t: int| 0 <= t < pairs@.len() && pairs@[t] == (i as usize, j as usize);
            assert(cluster@[pairs@[t].0 as int] == cluster@[pairs@[t].1 as int]);
        }
        assert forall|i: int, j: int|
            0 <= i < j < signatures@.len() && #[trigger] cluster@[i] == i && #[trigger] cluster@[j] == j
                implies !is_similar(signatures@[i]@, signatures@[j]@, num as nat, den as nat) by {
            if is_similar(signatures@[i]@, signatures@[j]@, num as nat, den as nat) {
                let t = choose|t: int| 0 <= t < pairs@.len() && pairs@[t] == (i as usize, j as usize);
                assert(cluster@[pairs@[t].0 as int] == cluster@[pairs@[t].1 as int]);
            }
        }
        let sv = sig_views(signatures@);
        assert forall|t: int|
            0 <= t < pairs@.len() implies {
                let (i, j) = #[trigger] pairs@[t];
                &&& i < j < sv.len()
                &&& is_similar(sv[i as int], sv[j as int], num as nat, den as nat)
            } by {
            let (i, j) = pairs@[t];
            assert(sv[i as int] == signatures@[i as int]@);
        }
        assert forall|i: int, j: int|
            0 <= i < signatures@.len() && 0 <= j < signatures@.len() && #[trigger] cluster@[i]
                == #[trigger] cluster@[j] implies chained(sv, num as nat, den as nat, i, j) by {
            lemma_linked_chained(sv, num as nat, den as nat, pairs@, i, j);
        }
    }
    cluster
}

} // verus!
