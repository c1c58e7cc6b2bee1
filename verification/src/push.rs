//! Decisions of pushing an artifact to a remote registry: which blobs to
//! transfer, in which order, and what each transfer step does.
use vstd::prelude::*;

verus! {

/// A blob as a manifest references it: its content digest and its size in bytes.
pub struct BlobDescriptor {
    pub digest: String,
    pub size: u64,
}

impl View for BlobDescriptor {
    type V = (Seq<char>, u64);

    open spec fn view(&self) -> (Seq<char>, u64) {
        (self.digest@, self.size)
    }
}

impl BlobDescriptor {
    /// Copies the descriptor.
    pub fn duplicate(&self) -> (r: Self)
        ensures
            r@ == self@,
    {
        BlobDescriptor { digest: self.digest.clone(), size: self.size }
    }
}

/// Two descriptors name the same digest with different sizes.
#[derive(Debug)]
pub struct ConflictingBlobSize {
    pub digest: String,
    pub first: u64,
    pub second: u64,
}

pub open spec fn blob_views(s: Seq<BlobDescriptor>) -> Seq<(Seq<char>, u64)> {
    s.map_values(|b: BlobDescriptor| b@)
}

/// Size of the first of the first `n` blobs whose digest is `d`, if any.
pub open spec fn seen_size(ds: Seq<(Seq<char>, u64)>, n: int, d: Seq<char>) -> Option<u64>
    decreases n,
{
    if n <= 0 {
        None
    } else {
        match seen_size(ds, n - 1, d) {
            Some(s) => Some(s),
            None => if ds[n - 1].0 == d {
                Some(ds[n - 1].1)
            } else {
                None
            },
        }
    }
}

/// The first of the first `n` blobs whose digest was seen before with another
/// size: its digest, the size seen first, and its own size.
pub open spec fn size_conflict(ds: Seq<(Seq<char>, u64)>, n: int) -> Option<(Seq<char>, u64, u64)>
    decreases n,
{
    if n <= 0 {
        None
    } else {
        match size_conflict(ds, n - 1) {
            Some(c) => Some(c),
            None => match seen_size(ds, n - 1, ds[n - 1].0) {
                Some(s) => if s != ds[n - 1].1 {
                    Some((ds[n - 1].0, s, ds[n - 1].1))
                } else {
                    None
                },
                None => None,
            },
        }
    }
}

/// The first occurrence of each digest among the first `n` blobs, in order.
pub open spec fn first_occurrences(ds: Seq<(Seq<char>, u64)>, n: int) -> Seq<(Seq<char>, u64)>
    decreases n,
{
    if n <= 0 {
        Seq::empty()
    } else if seen_size(ds, n - 1, ds[n - 1].0) is None {
        first_occurrences(ds, n - 1).push(ds[n - 1])
    } else {
        first_occurrences(ds, n - 1)
    }
}

/// Size of the last blob of `u` whose digest is `d`, if any.
pub open spec fn find_size(u: Seq<(Seq<char>, u64)>, d: Seq<char>) -> Option<u64>
    decreases u.len(),
{
    if u.len() == 0 {
        None
    } else if u.last().0 == d {
        Some(u.last().1)
    } else {
        find_size(u.drop_last(), d)
    }
}

proof fn lemma_find_in_first_occurrences(ds: Seq<(Seq<char>, u64)>, n: int, d: Seq<char>)
    requires
        0 <= n <= ds.len(),
    ensures
        find_size(first_occurrences(ds, n), d) == seen_size(ds, n, d),
    decreases n,
{
    if n > 0 {
        lemma_find_in_first_occurrences(ds, n - 1, d);
        if seen_size(ds, n - 1, ds[n - 1].0) is None {
            assert(first_occurrences(ds, n).drop_last() =~= first_occurrences(ds, n - 1));
        }
    }
}

proof fn lemma_size_conflict_stable(ds: Seq<(Seq<char>, u64)>, m: int, n: int)
    requires
        0 <= m <= n,
        size_conflict(ds, m) is Some,
    ensures
        size_conflict(ds, n) == size_conflict(ds, m),
    decreases n - m,
{
    if m < n {
        lemma_size_conflict_stable(ds, m, n - 1);
    }
}

/// Size of the last blob in `unique` with the digest of `digest`, if any.
fn lookup_size(unique: &Vec<BlobDescriptor>, digest: &String) -> (r: Option<u64>)
    ensures
        r == find_size(blob_views(unique@), digest@),
{
    let ghost u = blob_views(unique@);
    let mut j: usize = unique.len();
    assert(u.subrange(0, j as int) =~= u);
    while j > 0
        invariant
            j <= unique@.len(),
            u == blob_views(unique@),
            find_size(u, digest@) == find_size(u.subrange(0, j as int), digest@),
        decreases j,
    {
        let ghost sub = u.subrange(0, j as int);
        j = j - 1;
        assert(sub.last() == unique@[j as int]@);
        if unique[j].digest == *digest {
            return Some(unique[j].size);
        }
        assert(sub.drop_last() =~= u.subrange(0, j as int));
    }
    None
}

/// Keeps the first descriptor of each digest, in order. A digest that comes
/// back with a different size is an error, reported at its first such
/// occurrence.
pub fn deduplicate_blob_descriptors(descriptors: &Vec<BlobDescriptor>) -> (r: Result<Vec<BlobDescriptor>, ConflictingBlobSize>)
    ensures
        ({
            let ds = blob_views(descriptors@);
            let n = ds.len() as int;
            match r {
                Ok(u) => size_conflict(ds, n) is None && blob_views(u@) == first_occurrences(ds, n),
                Err(c) => size_conflict(ds, n) == Some((c.digest@, c.first, c.second)),
            }
        }),
{
    let ghost ds = blob_views(descriptors@);
    let mut unique: Vec<BlobDescriptor> = Vec::new();
    let mut i: usize = 0;
    while i < descriptors.len()
        invariant
            i <= descriptors@.len(),
            ds == blob_views(descriptors@),
            size_conflict(ds, i as int) is None,
            blob_views(unique@) == first_occurrences(ds, i as int),
        decreases descriptors@.len() - i,
    {
        let d = &descriptors[i];
        assert(ds[i as int] == d@);
        let found = lookup_size(&unique, &d.digest);
        proof {
            lemma_find_in_first_occurrences(ds, i as int, d.digest@);
        }
        match found {
            Some(size) => {
                if size != d.size {
                    proof {
                        assert(size_conflict(ds, i + 1) == Some((d.digest@, size, d.size)));
                        lemma_size_conflict_stable(ds, i + 1, ds.len() as int);
                    }
                    return Err(ConflictingBlobSize { digest: d.digest.clone(), first: size, second: d.size });
                }
            },
            None => {
                let copy = d.duplicate();
                unique.push(copy);
                assert(blob_views(unique@) =~= first_occurrences(ds, i as int).push(d@));
            },
        }
        i = i + 1;
    }
    Ok(unique)
}

/// Digests of a list of blobs are pairwise different.
pub open spec fn distinct_digests(u: Seq<(Seq<char>, u64)>) -> bool {
    forall|i: int, j: int| 0 <= i < j < u.len() ==> u[i].0 != u[j].0
}

proof fn lemma_seen_size_some(ds: Seq<(Seq<char>, u64)>, n: int, d: Seq<char>)
    requires
        0 <= n <= ds.len(),
    ensures
        (seen_size(ds, n, d) is Some) <==> exists|i: int| 0 <= i < n && ds[i].0 == d,
    decreases n,
{
    if n > 0 {
        lemma_seen_size_some(ds, n - 1, d);
        if ds[n - 1].0 == d {
            assert(0 <= n - 1 < n && ds[n - 1].0 == d);
        }
        if exists|i: int| 0 <= i < n && ds[i].0 == d {
            let i = choose|i: int| 0 <= i < n && ds[i].0 == d;
            if i < n - 1 {
                assert(exists|i: int| 0 <= i < n - 1 && ds[i].0 == d);
            }
        }
    }
}

proof fn lemma_first_occurrences_distinct(ds: Seq<(Seq<char>, u64)>, n: int)
    requires
        0 <= n <= ds.len(),
    ensures
        distinct_digests(first_occurrences(ds, n)),
        forall|k: int|
            0 <= k < first_occurrences(ds, n).len() ==> exists|i: int|
                0 <= i < n && ds[i].0 == (#[trigger] first_occurrences(ds, n)[k]).0,
    decreases n,
{
    if n > 0 {
        lemma_first_occurrences_distinct(ds, n - 1);
        let prev = first_occurrences(ds, n - 1);
        if seen_size(ds, n - 1, ds[n - 1].0) is None {
            lemma_seen_size_some(ds, n - 1, ds[n - 1].0);
            let cur = first_occurrences(ds, n);
            assert(cur == prev.push(ds[n - 1]));
            assert forall|k: int| 0 <= k < cur.len() implies exists|i: int|
                0 <= i < n && ds[i].0 == (#[trigger] cur[k]).0 by {
                if k < prev.len() {
                    assert(cur[k] == prev[k]);
                    let i = choose|i: int| 0 <= i < n - 1 && ds[i].0 == prev[k].0;
                } else {
                    assert(cur[k] == ds[n - 1]);
                }
            }
            assert forall|i: int, j: int| 0 <= i < j < cur.len() implies cur[i].0 != cur[j].0 by {
                if j == prev.len() {
                    assert(cur[i] == prev[i]);
                    let t = choose|t: int| 0 <= t < n - 1 && ds[t].0 == (#[trigger] prev[i]).0;
                } else {
                    assert(cur[i] == prev[i] && cur[j] == prev[j]);
                }
            }
        }
    }
}

proof fn lemma_first_occurrences_of_distinct(u: Seq<(Seq<char>, u64)>, k: int)
    requires
        0 <= k <= u.len(),
        distinct_digests(u),
    ensures
        first_occurrences(u, k) == u.subrange(0, k),
        size_conflict(u, k) is None,
    decreases k,
{
    if k > 0 {
        lemma_first_occurrences_of_distinct(u, k - 1);
        lemma_seen_size_some(u, k - 1, u[k - 1].0);
        assert(u.subrange(0, k - 1).push(u[k - 1]) =~= u.subrange(0, k));
    }
}

/// Deduplicating the blobs that deduplication kept changes nothing: they have
/// pairwise different digests, so no size conflict arises and every one of
/// them is kept, in order.
pub proof fn lemma_deduplicate_idempotent(ds: Seq<(Seq<char>, u64)>)
    ensures
        ({
            let u = first_occurrences(ds, ds.len() as int);
            &&& distinct_digests(u)
            &&& size_conflict(u, u.len() as int) is None
            &&& first_occurrences(u, u.len() as int) == u
        }),
{
    let u = first_occurrences(ds, ds.len() as int);
    lemma_first_occurrences_distinct(ds, ds.len() as int);
    lemma_first_occurrences_of_distinct(u, u.len() as int);
    assert(u.subrange(0, u.len() as int) =~= u);
}

/// Every blob a manifest references, in push order: the config blob, then the
/// layers in order.
pub fn collect_blob_descriptors(config: BlobDescriptor, layers: Vec<BlobDescriptor>) -> (r: Vec<BlobDescriptor>)
    ensures
        r@ == seq![config].add(layers@),
{
    let mut out: Vec<BlobDescriptor> = Vec::new();
    out.push(config);
    let mut rest = layers;
    out.append(&mut rest);
    out
}

/// What pushing one blob did.
#[derive(Clone, Copy, PartialEq, Eq, Structural, Debug)]
pub enum PushBlobOutcome {
    /// The registry already had the blob; nothing was read or uploaded.
    Skipped,
    /// The blob was read from the local registry and uploaded.
    Transferred,
}

/// The step that follows the existence check of one blob: a blob the registry
/// already has is skipped, a missing one is read and uploaded.
pub fn outcome_for(already_present: bool) -> (r: PushBlobOutcome)
    ensures
        r == (if already_present {
            PushBlobOutcome::Skipped
        } else {
            PushBlobOutcome::Transferred
        }),
{
    if already_present {
        PushBlobOutcome::Skipped
    } else {
        PushBlobOutcome::Transferred
    }
}

} // verus!
