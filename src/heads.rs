use vstd::prelude::*;
use crate::error::RimError;
use crate::meta::{BlobHead, BlobMeta, HeadKind, TombstoneMeta};
use crate::text::same_text;

verus! {

/// Index of the last record of `path` in `heads`, or -1 when there is none.
pub open spec fn last_index_for(heads: Seq<BlobHead>, path: Seq<char>) -> int
    decreases heads.len(),
{
    if heads.len() == 0 {
        -1
    } else if heads.last().path@ == path {
        heads.len() - 1
    } else {
        last_index_for(heads.drop_last(), path)
    }
}

/// The current head of `path`: the last one that was accepted.
pub open spec fn current_head(heads: Seq<BlobHead>, path: Seq<char>) -> Option<BlobHead> {
    let i = last_index_for(heads, path);
    if i < 0 { None } else { Some(heads[i]) }
}

/// Generation of the current head of `path`, 0 when it has none.
pub open spec fn current_generation(heads: Seq<BlobHead>, path: Seq<char>) -> int {
    match current_head(heads, path) {
        Some(h) => h.generation as int,
        None => 0,
    }
}

/// Whether a store in state `heads` takes `h`: its generation is positive and
/// above every generation that the path already has.
pub open spec fn accepts(heads: Seq<BlobHead>, h: BlobHead) -> bool {
    h.generation >= 1 && current_generation(heads, h.path@) < h.generation
}

/// The store after it is offered `h`.
pub open spec fn apply_spec(heads: Seq<BlobHead>, h: BlobHead) -> Seq<BlobHead> {
    if accepts(heads, h) { heads.push(h) } else { heads }
}

/// The store after it is offered each of `hs` in turn.
pub open spec fn apply_all(heads: Seq<BlobHead>, hs: Seq<BlobHead>) -> Seq<BlobHead>
    decreases hs.len(),
{
    if hs.len() == 0 {
        heads
    } else {
        apply_spec(apply_all(heads, hs.drop_last()), hs.last())
    }
}

/// The head record that carries `meta`.
pub open spec fn meta_head(meta: BlobMeta, head_sha256: String) -> BlobHead {
    BlobHead {
        path: meta.path,
        generation: meta.generation,
        head_kind: HeadKind::Meta,
        head_sha256,
        updated_at: meta.updated_at,
        meta: Some(meta),
        tombstone: None,
    }
}

/// The head record that carries `tombstone`.
pub open spec fn tombstone_head(tombstone: TombstoneMeta, head_sha256: String) -> BlobHead {
    BlobHead {
        path: tombstone.path,
        generation: tombstone.generation,
        head_kind: HeadKind::Tombstone,
        head_sha256,
        updated_at: tombstone.deleted_at,
        meta: None,
        tombstone: Some(tombstone),
    }
}

/// Heads of the paths of one slot, in the order in which they were accepted.
pub struct HeadStore {
    heads: Vec<BlobHead>,
}

impl View for HeadStore {
    type V = Seq<BlobHead>;

    closed spec fn view(&self) -> Seq<BlobHead> {
        self.heads@
    }
}

proof fn lemma_last_index_bounds(heads: Seq<BlobHead>, path: Seq<char>)
    ensures
        -1 <= last_index_for(heads, path) < heads.len(),
        last_index_for(heads, path) >= 0 ==> heads[last_index_for(heads, path)].path@ == path,
        forall|k: int| last_index_for(heads, path) < k < heads.len() ==> #[trigger] heads[k].path@ != path,
    decreases heads.len(),
{
    if heads.len() > 0 && heads.last().path@ != path {
        lemma_last_index_bounds(heads.drop_last(), path);
        assert forall|k: int| last_index_for(heads, path) < k < heads.len() implies #[trigger] heads[k].path@ != path by {
            if k < heads.len() - 1 {
                assert(heads[k] == heads.drop_last()[k]);
            }
        }
    }
}

proof fn lemma_last_index_push(heads: Seq<BlobHead>, h: BlobHead, path: Seq<char>)
    ensures
        last_index_for(heads.push(h), path) == if h.path@ == path { heads.len() as int } else { last_index_for(heads, path) },
{
    assert(heads.push(h).drop_last() =~= heads);
}

impl HeadStore {
    /// An empty store.
    pub fn new() -> (r: HeadStore)
        ensures
            r@ == Seq::<BlobHead>::empty(),
    {
        HeadStore { heads: Vec::new() }
    }

    /// The current head of `path`, if it has one.
    pub fn get_current_head(&self, path: &str) -> (r: Option<BlobHead>)
        ensures
            r == current_head(self@, path@),
    {
        let key = String::from_str(path);
        let mut i: usize = self.heads.len();
        assert(self.heads@.take(self.heads@.len() as int) =~= self.heads@);
        while i > 0
            invariant
                i <= self.heads@.len(),
                key@ == path@,
                last_index_for(self.heads@, path@) == last_index_for(self.heads@.take(i as int), path@),
            decreases i,
        {
            let ghost pre = self.heads@.take(i as int);
            assert(pre.drop_last() =~= self.heads@.take(i as int - 1));
            if self.heads[i - 1].path == key {
                return Some(self.heads[i - 1].copy());
            }
            i = i - 1;
        }
        proof {
            assert(self.heads@.take(0).len() == 0);
        }
        None
    }

    /// Generation that the next write of `path` takes: one above its
    /// current generation (0 when it has none).
    pub fn next_generation(&self, path: &str) -> (r: Result<i64, RimError>)
        ensures
            r is Ok <==> current_generation(self@, path@) < i64::MAX,
            r is Ok ==> r->Ok_0 == (if current_generation(self@, path@) > 0 { current_generation(self@, path@) } else { 0 }) + 1,
            r is Err ==> r->Err_0 is Internal,
    {
        match self.get_current_head(path) {
            Some(head) => {
                if head.generation == i64::MAX {
                    return Err(RimError::Internal(String::from_str("generation overflow")));
                }
                if head.generation < 0 {
                    return Ok(1);
                }
                Ok(head.generation + 1)
            },
            None => Ok(1),
        }
    }

    /// Offer a head to the store. It is taken when its generation is
    /// positive and above the path's current one.
    pub fn apply_head(&mut self, head: BlobHead) -> (r: bool)
        ensures
            r == accepts(old(self)@, head),
            final(self)@ == apply_spec(old(self)@, head),
    {
        let current = match self.get_current_head(head.path.as_str()) {
            Some(h) => h.generation,
            None => 0,
        };
        proof {
            lemma_last_index_bounds(self@, head.path@);
        }
        if head.generation >= 1 && current < head.generation {
            self.heads.push(head);
            true
        } else {
            false
        }
    }

    /// Store the head of a blob generation, under the same rule as
    /// `apply_head`.
    pub fn upsert_meta_with_payload(&mut self, meta: BlobMeta, head_sha256: String) -> (r: bool)
        ensures
            r == accepts(old(self)@, meta_head(meta, head_sha256)),
            final(self)@ == apply_spec(old(self)@, meta_head(meta, head_sha256)),
    {
        let head = BlobHead {
            path: meta.path.clone(),
            generation: meta.generation,
            head_kind: HeadKind::Meta,
            head_sha256,
            updated_at: meta.updated_at,
            meta: Some(meta),
            tombstone: None,
        };
        self.apply_head(head)
    }

    /// Store a tombstone, under the same rule as `apply_head`.
    pub fn insert_tombstone_with_payload(&mut self, tombstone: TombstoneMeta, head_sha256: String) -> (r: bool)
        ensures
            r == accepts(old(self)@, tombstone_head(tombstone, head_sha256)),
            final(self)@ == apply_spec(old(self)@, tombstone_head(tombstone, head_sha256)),
    {
        let head = BlobHead {
            path: tombstone.path.clone(),
            generation: tombstone.generation,
            head_kind: HeadKind::Tombstone,
            head_sha256,
            updated_at: tombstone.deleted_at,
            meta: None,
            tombstone: Some(tombstone),
        };
        self.apply_head(head)
    }
}

/// The current generation of a path never goes down: offering any sequence
/// of heads to a store leaves every path at its generation or above.
pub proof fn lemma_generation_monotone(heads: Seq<BlobHead>, hs: Seq<BlobHead>, path: Seq<char>)
    ensures
        current_generation(apply_all(heads, hs), path) >= current_generation(heads, path),
    decreases hs.len(),
{
    if hs.len() > 0 {
        lemma_generation_monotone(heads, hs.drop_last(), path);
        let mid = apply_all(heads, hs.drop_last());
        let h = hs.last();
        if accepts(mid, h) {
            lemma_last_index_push(mid, h, path);
            lemma_last_index_bounds(mid, path);
        }
    }
}

/// Applying the same head twice is the same as applying it once.
pub proof fn lemma_apply_idempotent(heads: Seq<BlobHead>, h: BlobHead)
    ensures
        apply_spec(apply_spec(heads, h), h) == apply_spec(heads, h),
{
    if accepts(heads, h) {
        lemma_last_index_push(heads, h, h.path@);
        lemma_last_index_bounds(heads.push(h), h.path@);
    }
}

/// Once the current head of `path` is a tombstone at generation `g`, it stays
/// a tombstone, at `g` or above, through any sequence of heads that holds no
/// blob generation of `path` above `g`.
pub proof fn lemma_tombstone_holds(heads: Seq<BlobHead>, hs: Seq<BlobHead>, path: Seq<char>, g: i64)
    requires
        current_head(heads, path) is Some,
        current_head(heads, path)->0.head_kind == HeadKind::Tombstone,
        current_head(heads, path)->0.generation == g,
        forall|i: int| 0 <= i < hs.len() ==> !(#[trigger] hs[i].path@ == path && hs[i].head_kind == HeadKind::Meta && hs[i].generation > g),
    ensures
        current_head(apply_all(heads, hs), path) is Some,
        current_head(apply_all(heads, hs), path)->0.head_kind == HeadKind::Tombstone,
        current_head(apply_all(heads, hs), path)->0.generation >= g,
    decreases hs.len(),
{
    if hs.len() > 0 {
        let prefix = hs.drop_last();
        assert forall|i: int| 0 <= i < prefix.len() implies !(#[trigger] prefix[i].path@ == path && prefix[i].head_kind == HeadKind::Meta && prefix[i].generation > g) by {
            assert(prefix[i] == hs[i]);
        }
        lemma_tombstone_holds(heads, prefix, path, g);
        let mid = apply_all(heads, prefix);
        let h = hs.last();
        assert(h == hs[hs.len() - 1]);
        lemma_last_index_bounds(mid, path);
        if accepts(mid, h) {
            lemma_last_index_push(mid, h, path);
            assert(hs[hs.len() - 1].path@ == path ==> hs[hs.len() - 1].head_kind != HeadKind::Meta || hs[hs.len() - 1].generation <= g);
        }
    }
}

/// The highest generation of any head in `heads`, 0 when there is none.
pub open spec fn max_generation(heads: Seq<BlobHead>) -> int
    decreases heads.len(),
{
    if heads.len() == 0 {
        0
    } else {
        let rest = max_generation(heads.drop_last());
        if heads.last().generation as int > rest { heads.last().generation as int } else { rest }
    }
}

impl HeadStore {
    /// The anti-entropy cursor of the slot: the highest generation of any of
    /// its heads, 0 when it has none.
    pub fn latest_generation(&self) -> (r: i64)
        ensures
            r == max_generation(self@),
    {
        let mut best: i64 = 0;
        let mut i: usize = 0;
        assert(self.heads@.take(0).len() == 0);
        while i < self.heads.len()
            invariant
                i <= self.heads@.len(),
                best == max_generation(self.heads@.take(i as int)),
            decreases self.heads@.len() - i,
        {
            assert(self.heads@.take(i as int + 1).drop_last() =~= self.heads@.take(i as int));
            let g = self.heads[i].generation;
            if g > best {
                best = g;
            }
            i = i + 1;
        }
        assert(self.heads@.take(self.heads@.len() as int) =~= self.heads@);
        best
    }
}

/// Whether `s` begins with `prefix`.
pub open spec fn has_prefix(s: Seq<char>, prefix: Seq<char>) -> bool {
    prefix.len() <= s.len() && s.subrange(0, prefix.len() as int) == prefix
}

/// Whether the record at `i` is listed: it is its path's current head, the
/// path begins with `prefix`, and it is a blob unless tombstones are asked
/// for too.
pub open spec fn listed_at(heads: Seq<BlobHead>, i: int, prefix: Seq<char>, include_tombstoned: bool) -> bool {
    &&& last_index_for(heads, heads[i].path@) == i
    &&& has_prefix(heads[i].path@, prefix)
    &&& (include_tombstoned || heads[i].head_kind == HeadKind::Meta)
}

/// The listed records among the first `n`, in order.
pub open spec fn listing(heads: Seq<BlobHead>, n: int, prefix: Seq<char>, include_tombstoned: bool) -> Seq<BlobHead>
    decreases n,
{
    if n <= 0 {
        Seq::empty()
    } else {
        let rest = listing(heads, n - 1, prefix, include_tombstoned);
        if listed_at(heads, n - 1, prefix, include_tombstoned) { rest.push(heads[n - 1]) } else { rest }
    }
}

proof fn lemma_current_iff_no_later(heads: Seq<BlobHead>, i: int)
    requires
        0 <= i < heads.len(),
    ensures
        last_index_for(heads, heads[i].path@) == i <==> forall|j: int| i < j < heads.len() ==> #[trigger] heads[j].path@ != heads[i].path@,
{
    lemma_last_index_bounds(heads, heads[i].path@);
}

fn starts_with_text(s: &str, prefix: &str) -> (r: bool)
    ensures
        r == has_prefix(s@, prefix@),
{
    let n = s.unicode_len();
    let m = prefix.unicode_len();
    if m > n {
        return false;
    }
    let head = s.substring_char(0, m);
    same_text(head, prefix)
}

impl HeadStore {
    /// The current heads whose path begins with `prefix`, at most `limit` of
    /// them, in the order in which they were accepted; tombstones only when
    /// `include_tombstoned` is set.
    pub fn list_heads(&self, prefix: &str, limit: usize, include_tombstoned: bool) -> (r: Vec<BlobHead>)
        ensures
            ({
                let all = listing(self@, self@.len() as int, prefix@, include_tombstoned);
                r@ == all.take(if all.len() < limit { all.len() as int } else { limit as int })
            }),
    {
        let n = self.heads.len();
        let mut out: Vec<BlobHead> = Vec::new();
        let mut i: usize = 0;
        while i < n
            invariant
                n == self.heads@.len(),
                i <= n,
                ({
                    let sofar = listing(self.heads@, i as int, prefix@, include_tombstoned);
                    out@ == sofar.take(if sofar.len() < limit { sofar.len() as int } else { limit as int })
                }),
            decreases n - i,
        {
            let mut current = true;
            let mut j: usize = i + 1;
            while j < n
                invariant
                    i < n == self.heads@.len(),
                    i < j <= n,
                    current == forall|k: int| i < k < j ==> #[trigger] self.heads@[k].path@ != self.heads@[i as int].path@,
                decreases n - j,
            {
                if self.heads[j].path == self.heads[i].path {
                    current = false;
                }
                j = j + 1;
            }
            proof {
                lemma_current_iff_no_later(self.heads@, i as int);
            }
            let h = &self.heads[i];
            let wanted = current && starts_with_text(h.path.as_str(), prefix) && (include_tombstoned || h.head_kind
                == HeadKind::Meta);
            let ghost before = listing(self.heads@, i as int, prefix@, include_tombstoned);
            assert(wanted == listed_at(self.heads@, i as int, prefix@, include_tombstoned));
            if wanted && out.len() < limit {
                out.push(h.copy());
            }
            proof {
                let after = listing(self.heads@, i as int + 1, prefix@, include_tombstoned);
                if wanted {
                    assert(after == before.push(self.heads@[i as int]));
                    if before.len() < limit {
                        assert(out@ =~= after.take(if after.len() < limit { after.len() as int } else { limit as int }));
                    } else {
                        assert(out@ =~= after.take(limit as int));
                    }
                } else {
                    assert(after == before);
                }
            }
            i = i + 1;
        }
        out
    }
}

} // verus!
