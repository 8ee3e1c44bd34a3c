use vstd::prelude::*;

verus! {

/// How many entries of `s` equal `v`.
pub open spec fn class_count(s: Seq<int>, v: int) -> nat
    decreases s.len(),
{
    if s.len() == 0 {
        0
    } else {
        class_count(s.drop_last(), v) + if s.last() == v {
            1nat
        } else {
            0nat
        }
    }
}

proof fn lemma_count_two(s: Seq<int>, a: int, b: int)
    requires
        a != b,
    ensures
        class_count(s, a) + class_count(s, b) <= s.len(),
    decreases s.len(),
{
    if s.len() > 0 {
        lemma_count_two(s.drop_last(), a, b);
    }
}

proof fn lemma_count_pos(s: Seq<int>, k: int)
    requires
        0 <= k < s.len(),
    ensures
        class_count(s, s[k]) >= 1,
    decreases s.len(),
{
    if k < s.len() - 1 {
        lemma_count_pos(s.drop_last(), k);
        assert(s.drop_last()[k] == s[k]);
    }
}

proof fn lemma_count_merge(s: Seq<int>, t: Seq<int>, c: int, r: int, q: int)
    requires
        s.len() == t.len(),
        c != r,
        forall|i: int| 0 <= i < s.len() ==> #[trigger] t[i] == if s[i] == c {
            r
        } else {
            s[i]
        },
    ensures
        class_count(t, r) == class_count(s, r) + class_count(s, c),
        q != r && q != c ==> class_count(t, q) == class_count(s, q),
    decreases s.len(),
{
    if s.len() > 0 {
        let s1 = s.drop_last();
        let t1 = t.drop_last();
        assert forall|i: int| 0 <= i < s1.len() implies #[trigger] t1[i] == if s1[i] == c {
            r
        } else {
            s1[i]
        } by {
            assert(t[i] == t1[i] && s[i] == s1[i]);
        }
        lemma_count_merge(s1, t1, c, r, q);
        assert(t.last() == t[s.len() - 1]);
    }
}

/// A disjoint-set forest over the indices `0..n`, stored as flat arrays of
/// parent and rank entries, with path compression and union by rank.
///
/// Its view maps each index to the representative (root) of its class.
pub struct UnionFind {
    parent: Vec<usize>,
    rank: Vec<usize>,
    rep: Ghost<Seq<int>>,
    height: Ghost<Seq<nat>>,
    bound: Ghost<nat>,
}

impl View for UnionFind {
    type V = Seq<int>;

    closed spec fn view(&self) -> Seq<int> {
        self.rep@
    }
}

impl UnionFind {
    /// The internal invariant: every class has a root, parent links stay in
    /// the class of their source, and the ghost height grows strictly along
    /// every parent link.
    pub closed spec fn wf(&self) -> bool {
        let n = self.parent@.len();
        &&& self.rank@.len() == n
        &&& self.rep@.len() == n
        &&& self.height@.len() == n
        &&& forall|i: int| 0 <= i < n ==> 0 <= #[trigger] self.rep@[i] < n
        &&& forall|i: int| 0 <= i < n ==> #[trigger] self.parent@[i] < n
        &&& forall|i: int| 0 <= i < n ==> self.rep@[#[trigger] self.rep@[i]] == self.rep@[i]
        &&& forall|i: int|
            0 <= i < n ==> (#[trigger] self.parent@[i] == i <==> self.rep@[i] == i)
        &&& forall|i: int|
            0 <= i < n ==> self.rep@[#[trigger] self.parent@[i] as int] == self.rep@[i]
        &&& forall|i: int|
            0 <= i < n && #[trigger] self.parent@[i] != i ==> self.height@[i]
                < self.height@[self.parent@[i] as int]
        &&& forall|i: int|
            0 <= i < n ==> #[trigger] self.height@[i] <= self.height@[self.rep@[i]]
        &&& forall|i: int| 0 <= i < n ==> #[trigger] self.height@[i] <= self.bound@
        &&& forall|i: int|
            0 <= i < n && #[trigger] self.parent@[i] != i ==> self.rank@[i]
                < self.rank@[self.parent@[i] as int]
        &&& forall|i: int| 0 <= i < n ==> #[trigger] self.rank@[i] <= self.rank@[self.rep@[i]]
        &&& forall|i: int|
            0 <= i < n && #[trigger] self.parent@[i] == i ==> self.rank@[i] + 1 <= class_count(
                self.rep@,
                i,
            )
    }

    /// The parent entry of each index; a root is its own parent.
    pub closed spec fn parents(&self) -> Seq<usize> {
        self.parent@
    }

    /// The rank entry of each index.
    pub closed spec fn ranks(&self) -> Seq<usize> {
        self.rank@
    }

    /// Ranks grow strictly along every parent link.
    pub open spec fn rank_ordered(&self) -> bool {
        forall|i: int|
            0 <= i < self.parents().len() && #[trigger] self.parents()[i] != i ==> self.ranks()[i]
                < self.ranks()[self.parents()[i] as int]
    }

    proof fn lemma_wf_views(&self)
        requires
            self.wf(),
        ensures
            self.parents().len() == self@.len(),
            self.ranks().len() == self@.len(),
            self.rank_ordered(),
            forall|i: int| 0 <= i < self@.len() ==> #[trigger] self.parents()[i] < self@.len(),
    {
    }

    /// Index `i` and index `j` are in the same class.
    pub open spec fn same_class(&self, i: int, j: int) -> bool {
        self@[i] == self@[j]
    }

    /// Creates `n` singleton classes.
    pub fn new(n: usize) -> (uf: Self)
        ensures
            uf.wf(),
            uf@.len() == n,
            forall|i: int| 0 <= i < n ==> #[trigger] uf@[i] == i,
            forall|i: int| 0 <= i < n ==> #[trigger] uf.parents()[i] == i && uf.ranks()[i] == 0,
            uf.rank_ordered(),
    {
        let mut parent: Vec<usize> = Vec::new();
        let mut rank: Vec<usize> = Vec::new();
        let mut i: usize = 0;
        while i < n
            invariant
                i <= n,
                parent@.len() == i,
                rank@.len() == i,
                forall|k: int| 0 <= k < i ==> #[trigger] parent@[k] == k,
                forall|k: int| 0 <= k < i ==> #[trigger] rank@[k] == 0,
            decreases n - i,
        {
            parent.push(i);
            rank.push(0);
            i = i + 1;
        }
        let ghost rep = Seq::new(n as nat, |k: int| k);
        let ghost height = Seq::new(n as nat, |k: int| 0nat);
        let uf = UnionFind { parent, rank, rep: Ghost(rep), height: Ghost(height), bound: Ghost(0nat) };
        proof {
            assert forall|i: int| 0 <= i < n && #[trigger] uf.parent@[i] == i implies uf.rank@[i] + 1
                <= class_count(uf.rep@, i) by {
                lemma_count_pos(rep, i);
            }
        }
        uf
    }

    /// Number of indices in the structure.
    pub fn size(&self) -> (r: usize)
        requires
            self.wf(),
        ensures
            r == self@.len(),
    {
        self.parent.len()
    }

    fn find_root(&mut self, x: usize) -> (r: usize)
        requires
            old(self).wf(),
            x < old(self)@.len(),
        ensures
            final(self).wf(),
            final(self).rep == old(self).rep,
            final(self).height == old(self).height,
            final(self).bound == old(self).bound,
            final(self).rank == old(self).rank,
            final(self).parent@[x as int] == r,
            r == old(self)@[x as int],
        decreases old(self).bound@ - old(self).height@[x as int],
    {
        let p = self.parent[x];
        if p == x {
            x
        } else {
            let ghost before = *self;
            assert(self.height@[x as int] < self.height@[p as int]);
            let r = self.find_root(p);
            self.parent.set(x, r);
            proof {
                let n = self.parent@.len();
                assert forall|i: int|
                    0 <= i < n && #[trigger] self.parent@[i] != i implies self.height@[i]
                    < self.height@[self.parent@[i] as int] by {
                    if i == x {
                        let rp = before.rep@[p as int];
                        assert(before.height@[p as int] <= before.height@[rp]);
                    }
                }
                assert forall|i: int|
                    0 <= i < n && #[trigger] self.parent@[i] != i implies self.rank@[i]
                    < self.rank@[self.parent@[i] as int] by {
                    if i == x {
                        let rp = before.rep@[p as int];
                        assert(before.rank@[p as int] <= before.rank@[rp]);
                    }
                }
            }
            r
        }
    }

    /// The representative of `x`'s class. Compresses the path it walks, and
    /// leaves the classes as they were.
    pub fn find(&mut self, x: usize) -> (r: usize)
        requires
            old(self).wf(),
            x < old(self)@.len(),
        ensures
            final(self).wf(),
            final(self)@ == old(self)@,
            r == old(self)@[x as int],
            final(self).parents()[x as int] == r,
            final(self).parents()[r as int] == r,
            final(self).ranks() == old(self).ranks(),
            final(self).rank_ordered(),
    {
        let r = self.find_root(x);
        proof {
            self.lemma_wf_views();
        }
        r
    }

    /// Hangs the root `c` under the root `r`, raising the rank of `r` by one
    /// when `bump` is set.
    fn link(&mut self, c: usize, r: usize, bump: bool)
        requires
            old(self).wf(),
            c < old(self)@.len(),
            r < old(self)@.len(),
            c != r,
            old(self)@[c as int] == c,
            old(self)@[r as int] == r,
            old(self).rank@[c as int] < old(self).rank@[r as int] || (bump && old(self).rank@[
                c as int] == old(self).rank@[r as int]),
        ensures
            final(self).wf(),
            final(self)@.len() == old(self)@.len(),
            forall|i: int|
                0 <= i < old(self)@.len() ==> #[trigger] final(self)@[i] == (if old(self)@[i]
                    == c {
                    r as int
                } else {
                    old(self)@[i]
                }),
    {
        let ghost old_rep = self.rep@;
        let ghost old_h = self.height@;
        let ghost old_parent = self.parent@;
        let ghost old_rank = self.rank@;
        let n = self.parent.len();
        self.parent.set(c, r);
        if bump {
            proof {
                lemma_count_two(old_rep, c as int, r as int);
                lemma_count_pos(old_rep, c as int);
                assert(old_parent[r as int] == r);
                assert(old_rank[r as int] + 1 <= class_count(old_rep, r as int));
            }
            let raised = self.rank[r] + 1;
            self.rank.set(r, raised);
        }
        proof {
            let n = old_rep.len();
            let hr = if old_h[r as int] > old_h[c as int] {
                old_h[r as int]
            } else {
                old_h[c as int] + 1
            };
            let new_rep = Seq::new(
                n,
                |i: int|
                    if old_rep[i] == c {
                        r as int
                    } else {
                        old_rep[i]
                    },
            );
            let new_h = old_h.update(r as int, hr);
            self.rep = Ghost(new_rep);
            self.height = Ghost(new_h);
            self.bound = Ghost(if hr > self.bound@ { hr } else { self.bound@ });
            assert forall|i: int| 0 <= i < n implies new_rep[#[trigger] new_rep[i]] == new_rep[i] by {
                assert(old_rep[old_rep[i]] == old_rep[i]);
            }
            assert forall|i: int| 0 <= i < n implies (#[trigger] self.parent@[i] == i
                <==> new_rep[i] == i) by {
                assert(old_parent[i] == i <==> old_rep[i] == i);
            }
            assert forall|i: int| 0 <= i < n implies new_rep[#[trigger] self.parent@[i] as int]
                == new_rep[i] by {
                assert(old_rep[old_parent[i] as int] == old_rep[i]);
            }
            assert forall|i: int|
                0 <= i < n && #[trigger] self.parent@[i] != i implies new_h[i]
                < new_h[self.parent@[i] as int] by {
                if i != c {
                    assert(old_h[i] < old_h[old_parent[i] as int]);
                }
            }
            assert forall|i: int| 0 <= i < n implies #[trigger] new_h[i] <= new_h[new_rep[i]] by {
                assert(old_h[i] <= old_h[old_rep[i]]);
                if old_rep[i] == c {
                    assert(old_h[i] <= old_h[c as int]);
                }
            }
            let rk = self.rank@;
            assert forall|i: int|
                0 <= i < n && #[trigger] self.parent@[i] != i implies rk[i]
                < rk[self.parent@[i] as int] by {
                if i != c {
                    assert(old_rank[i] < old_rank[old_parent[i] as int]);
                }
            }
            assert forall|i: int| 0 <= i < n implies #[trigger] rk[i] <= rk[new_rep[i]] by {
                assert(old_rank[i] <= old_rank[old_rep[i]]);
                if old_rep[i] == c {
                    assert(old_rank[i] <= old_rank[c as int]);
                }
            }
            assert forall|i: int| 0 <= i < n && #[trigger] self.parent@[i] == i implies rk[i] + 1
                <= class_count(new_rep, i) by {
                lemma_count_merge(old_rep, new_rep, c as int, r as int, i);
                assert(old_parent[i] == i);
                assert(old_rank[i] + 1 <= class_count(old_rep, i));
                if i == r {
                    assert(old_parent[c as int] == c);
                    assert(old_rank[c as int] + 1 <= class_count(old_rep, c as int));
                }
            }
        }
    }

    /// Merges the classes of `x` and `y`: afterwards two indices are in one
    /// class exactly when they were before, or one was with `x` and the
    /// other with `y`.
    pub fn union(&mut self, x: usize, y: usize)
        requires
            old(self).wf(),
            x < old(self)@.len(),
            y < old(self)@.len(),
        ensures
            final(self).wf(),
            final(self)@.len() == old(self)@.len(),
            forall|i: int, j: int|
                0 <= i < old(self)@.len() && 0 <= j < old(self)@.len() ==> (
                #[trigger] final(self).same_class(i, j) <==> old(self).same_class(i, j)
                    || (old(self).same_class(i, x as int) && old(self).same_class(j, y as int))
                    || (old(self).same_class(i, y as int) && old(self).same_class(j, x as int))),
            final(self).rank_ordered(),
    {
        let root_x = self.find_root(x);
        let root_y = self.find_root(y);
        if root_x != root_y {
            if self.rank[root_x] < self.rank[root_y] {
                self.link(root_x, root_y, false);
            } else if self.rank[root_x] > self.rank[root_y] {
                self.link(root_y, root_x, false);
            } else {
                self.link(root_y, root_x, true);
            }
        }
        proof {
            self.lemma_wf_views();
        }
    }

    /// Lists each class under its representative: entry `k` holds, in
    /// increasing order, the indices whose representative is `k`.
    pub fn get_components(&mut self) -> (comps: Vec<Vec<usize>>)
        requires
            old(self).wf(),
        ensures
            final(self).wf(),
            final(self)@ == old(self)@,
            comps@.len() == old(self)@.len(),
            forall|i: int| 0 <= i < comps@.len() ==> 0 <= #[trigger] old(self)@[i] < comps@.len(),
            forall|k: int, t: int|
                0 <= k < comps@.len() && 0 <= t < comps@[k]@.len() ==> (#[trigger] comps@[k]@[t]
                    < comps@.len() && old(self)@[comps@[k]@[t] as int] == k),
            forall|k: int, t: int, u: int|
                0 <= k < comps@.len() && 0 <= t < u < comps@[k]@.len() ==> #[trigger] comps@[k]@[t]
                    < #[trigger] comps@[k]@[u],
            forall|i: int|
                0 <= i < comps@.len() ==> #[trigger] comps@[old(self)@[i]]@.contains(i as usize),
    {
        let n = self.parent.len();
        let mut comps: Vec<Vec<usize>> = Vec::new();
        let mut k: usize = 0;
        while k < n
            invariant
                k <= n,
                comps@.len() == k,
                forall|j: int| 0 <= j < k ==> (#[trigger] comps@[j])@.len() == 0,
            decreases n - k,
        {
            comps.push(Vec::new());
            k = k + 1;
        }
        let ghost classes = self@;
        let ghost pos: Seq<int> = Seq::empty();
        let mut i: usize = 0;
        while i < n
            invariant
                i <= n,
                n == self@.len(),
                self.wf(),
                self@ == classes,
                comps@.len() == n,
                pos.len() == i,
                forall|k: int, t: int|
                    0 <= k < n && 0 <= t < comps@[k]@.len() ==> (#[trigger] comps@[k]@[t] < i
                        && classes[comps@[k]@[t] as int] == k),
                forall|k: int, t: int, u: int|
                    0 <= k < n && 0 <= t < u < comps@[k]@.len() ==> #[trigger] comps@[k]@[t]
                        < #[trigger] comps@[k]@[u],
                forall|j: int|
                    0 <= j < i ==> 0 <= #[trigger] pos[j] < comps@[classes[j]]@.len()
                        && comps@[classes[j]]@[pos[j]] == j,
            decreases n - i,
        {
            let root = self.find_root(i);
            let ghost before = comps@;
            let mut members = comps[root].clone();
            assert(members@ =~= before[root as int]@);
            members.push(i);
            comps.set(root, members);
            proof {
                pos = pos.push(before[root as int]@.len() as int);
            }
            i = i + 1;
        }
        assert forall|j: int| 0 <= j < n implies #[trigger] comps@[classes[j]]@.contains(
            j as usize,
        ) by {
            assert(comps@[classes[j]]@[pos[j]] == j);
        }
        comps
    }
}

} // verus!
