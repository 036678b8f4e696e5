//! Retrieval indexing and semantic search over memory entries.
//!
//! Embeddings are produced through an embedder seam (model-backed in
//! production, [`MockEmbedder`] in tests). Search filters by audience using the
//! same [`PrivacyControlFlag::allows`] matrix as the rest of memory.
use vstd::prelude::*;
use crate::entities::contact_identity::Relationship;
use crate::entities::embedding::EntryRef;
use crate::entities::{visible_to, PrivacyControlFlag};
use crate::services::ServiceError;

verus! {

/// The embedding dimensionality of the index.
pub const EMBEDDING_DIMS: usize = 2048;

/// The privacy levels, from most to least private.
pub open spec fn privacy_levels() -> Seq<PrivacyControlFlag> {
    seq![PrivacyControlFlag::Private, PrivacyControlFlag::Protected, PrivacyControlFlag::Public]
}

/// The privacy levels visible to a peer in `relationship`, from most to least
/// private.
pub fn allowed_privacy(relationship: Relationship) -> (r: Vec<PrivacyControlFlag>)
    ensures
        r@ == privacy_levels().filter(|p: PrivacyControlFlag| visible_to(p, relationship)),
{
    let levels = [PrivacyControlFlag::Private, PrivacyControlFlag::Protected, PrivacyControlFlag::Public];
    let ghost pred = |p: PrivacyControlFlag| visible_to(p, relationship);
    let mut r: Vec<PrivacyControlFlag> = Vec::new();
    let mut k: usize = 0;
    while k < 3
        invariant
            k <= 3,
            levels@ == privacy_levels(),
            pred == (|p: PrivacyControlFlag| visible_to(p, relationship)),
            r@ == privacy_levels().take(k as int).filter(pred),
        decreases 3 - k,
    {
        proof {
            reveal(Seq::filter);
            assert(privacy_levels().take(k + 1).drop_last() =~= privacy_levels().take(k as int));
        }
        if levels[k].allows(relationship) {
            r.push(levels[k]);
        }
        k += 1;
    }
    proof {
        assert(privacy_levels().take(3) =~= privacy_levels());
    }
    r
}

/// Input to the embedder.
#[derive(Debug, Clone)]
pub struct EmbedRequest {
    pub text: String,
}

/// A deterministic, network-free embedder for tests: hashes the text into a
/// fixed [`EMBEDDING_DIMS`]-wide vector, the byte at position `i` adding its
/// value to component `i % EMBEDDING_DIMS`.
#[derive(Debug, Clone, Copy, Default)]
pub struct MockEmbedder;

/// The sum of the bytes of `bytes` whose position is `d` modulo
/// [`EMBEDDING_DIMS`].
pub open spec fn bucket_sum(bytes: Seq<u8>, d: int) -> int
    decreases bytes.len(),
{
    if bytes.len() == 0 {
        0
    } else {
        bucket_sum(bytes.drop_last(), d) + if (bytes.len() - 1) % (EMBEDDING_DIMS as int) == d {
            bytes.last() as int
        } else {
            0
        }
    }
}

impl MockEmbedder {
    /// The mock embedding of `bytes` before conversion to half floats: the
    /// per-component byte sums.
    pub fn component_sums(&self, bytes: &[u8]) -> (v: Vec<u128>)
        ensures
            v@.len() == EMBEDDING_DIMS,
            forall|d: int| 0 <= d < EMBEDDING_DIMS ==> #[trigger] v@[d] == bucket_sum(bytes@, d),
    {
        let mut v: Vec<u128> = Vec::new();
        let mut d: usize = 0;
        while d < EMBEDDING_DIMS
            invariant
                d <= EMBEDDING_DIMS,
                v@.len() == d,
                forall|j: int| 0 <= j < d ==> #[trigger] v@[j] == 0,
            decreases EMBEDDING_DIMS - d,
        {
            v.push(0);
            d += 1;
        }
        let mut i: usize = 0;
        while i < bytes.len()
            invariant
                i <= bytes@.len(),
                v@.len() == EMBEDDING_DIMS,
                forall|j: int|
                    0 <= j < EMBEDDING_DIMS ==> #[trigger] v@[j] == bucket_sum(bytes@.take(i as int), j),
                forall|j: int|
                    0 <= j < EMBEDDING_DIMS ==> #[trigger] bucket_sum(bytes@.take(i as int), j) <= 255 * i,
            decreases bytes@.len() - i,
        {
            let slot = i % EMBEDDING_DIMS;
            proof {
                assert(bytes@.take(i + 1).drop_last() =~= bytes@.take(i as int));
                assert forall|j: int| 0 <= j < EMBEDDING_DIMS implies bucket_sum(bytes@.take(i + 1), j)
                    == bucket_sum(bytes@.take(i as int), j) + if j == slot {
                    bytes@[i as int] as int
                } else {
                    0
                } by {}
                assert forall|j: int| 0 <= j < EMBEDDING_DIMS implies #[trigger] bucket_sum(
                    bytes@.take(i + 1),
                    j,
                ) <= 255 * (i + 1) by {
                    assert(bucket_sum(bytes@.take(i as int), j) <= 255 * i);
                }
            }
            let cur = v[slot];
            assert(cur <= 255 * i);
            v.set(slot, cur + bytes[i] as u128);
            i += 1;
        }
        proof {
            assert(bytes@.take(bytes@.len() as int) =~= bytes@);
        }
        v
    }
}

/// Embed an entry's text and upsert it into the index.
#[derive(Debug, Clone)]
pub struct IndexEntry {
    pub reference: EntryRef,
    pub privacy: PrivacyControlFlag,
    pub content: String,
}

impl IndexEntry {
    /// An entry is indexed only when its reference names exactly one source.
    pub fn validate(&self) -> (r: Result<(), ServiceError>)
        ensures
            r == (if self.reference.set_count() == 1 {
                Ok::<(), ServiceError>(())
            } else {
                Err(ServiceError::InvalidInput)
            }),
    {
        if !self.reference.is_exactly_one() {
            return Err(ServiceError::InvalidInput);
        }
        Ok(())
    }
}

/// Semantic search restricted to what `relationship` is allowed to see.
#[derive(Debug, Clone)]
pub struct SearchMemory {
    pub query: String,
    pub relationship: Relationship,
    pub limit: i64,
}

impl SearchMemory {
    /// A search must ask for at least one hit; on success the audience filter
    /// is the privacy levels the relationship may see.
    pub fn validate(&self) -> (r: Result<Vec<PrivacyControlFlag>, ServiceError>)
        ensures
            self.limit <= 0 ==> r == Err::<Vec<PrivacyControlFlag>, ServiceError>(
                ServiceError::InvalidInput,
            ),
            self.limit > 0 ==> (r matches Ok(allowed) && allowed@ == privacy_levels().filter(
                |p: PrivacyControlFlag| visible_to(p, self.relationship),
            )),
    {
        if self.limit <= 0 {
            return Err(ServiceError::InvalidInput);
        }
        Ok(allowed_privacy(self.relationship))
    }
}

/// A search never returns an entry the peer may not see: every allowed level
/// is visible to it, and every visible level is allowed.
pub proof fn law_search_filter_is_the_visibility_matrix(relationship: Relationship, p: PrivacyControlFlag)
    ensures
        privacy_levels().filter(|q: PrivacyControlFlag| visible_to(q, relationship)).contains(p)
            <==> visible_to(p, relationship),
{
    let pred = |q: PrivacyControlFlag| visible_to(q, relationship);
    broadcast use vstd::seq_lib::group_filter_ensures;
    assert(privacy_levels().contains(p)) by {
        match p {
            PrivacyControlFlag::Private => assert(privacy_levels()[0] == p),
            PrivacyControlFlag::Protected => assert(privacy_levels()[1] == p),
            PrivacyControlFlag::Public => assert(privacy_levels()[2] == p),
        }
    }
    if visible_to(p, relationship) {
        privacy_levels().lemma_filter_contains_rev(pred, p);
    }
}

/// The audience filter of a search, per relationship: the Master sees every
/// level, a Dude or an Acquaintance the Protected and Public ones, a Stranger
/// or an Ignored contact only the Public one.
pub proof fn law_allowed_levels(relationship: Relationship)
    ensures
        privacy_levels().filter(|p: PrivacyControlFlag| visible_to(p, relationship)) == (
        match relationship {
            Relationship::Master => seq![
                PrivacyControlFlag::Private,
                PrivacyControlFlag::Protected,
                PrivacyControlFlag::Public,
            ],
            Relationship::Dude | Relationship::Acquaintance => seq![
                PrivacyControlFlag::Protected,
                PrivacyControlFlag::Public,
            ],
            _ => seq![PrivacyControlFlag::Public],
        }),
{
    reveal_with_fuel(Seq::filter, 4);
    let l = privacy_levels();
    assert(l.drop_last().drop_last().drop_last() =~= Seq::<PrivacyControlFlag>::empty());
    assert(l.drop_last().drop_last() =~= seq![PrivacyControlFlag::Private]);
    assert(l.drop_last() =~= seq![PrivacyControlFlag::Private, PrivacyControlFlag::Protected]);
    let pred = |p: PrivacyControlFlag| visible_to(p, relationship);
    assert(l.filter(pred) =~= (match relationship {
        Relationship::Master => seq![
            PrivacyControlFlag::Private,
            PrivacyControlFlag::Protected,
            PrivacyControlFlag::Public,
        ],
        Relationship::Dude | Relationship::Acquaintance => seq![
            PrivacyControlFlag::Protected,
            PrivacyControlFlag::Public,
        ],
        _ => seq![PrivacyControlFlag::Public],
    }));
}

} // verus!
