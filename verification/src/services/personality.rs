//! Personality service — selects which character facets apply to a peer.
//!
//! The trigger logic ("a person behaves differently in private vs. public")
//! lives here: [`select_facets`] works over already-loaded facets, so the
//! audience rules hold without a database.
use vstd::prelude::*;
use crate::entities::contact_identity::Relationship;
use crate::entities::personality::PersonalityFacetEntity;
use crate::entities::visible_to;
#[allow(unused_imports)]
use crate::entities::PrivacyControlFlag;

verus! {

/// List the personality facets that apply to a conversation peer, ordered by
/// descending priority and filtered by the peer's relationship.
#[derive(Debug, Clone, Copy, PartialEq, Eq, Structural)]
pub struct ListApplicableFacets {
    /// Relationship of the peer the agent is currently talking to.
    pub relationship: Relationship,
}

/// Whether `facet` is surfaced to a peer in `relationship`: it is part of the
/// invariant character base, or its privacy flag lets the peer see it.
pub open spec fn facet_applies(facet: PersonalityFacetEntity, relationship: Relationship) -> bool {
    facet.is_core || visible_to(facet.privacy, relationship)
}

/// Keep only the facets that should be surfaced to a peer in `relationship`,
/// preserving the input ordering (callers pass facets pre-sorted by priority).
pub fn select_facets(facets: Vec<PersonalityFacetEntity>, relationship: Relationship) -> (kept: Vec<
    PersonalityFacetEntity,
>)
    ensures
        kept@ == facets@.filter(|f: PersonalityFacetEntity| facet_applies(f, relationship)),
{
    broadcast use vstd::std_specs::vec::group_vec_axioms;

    let ghost all = facets@;
    let ghost pred = |f: PersonalityFacetEntity| facet_applies(f, relationship);
    let mut kept: Vec<PersonalityFacetEntity> = Vec::new();
    for f in it: facets.into_iter()
        invariant
            it.seq() == all,
            pred == (|f: PersonalityFacetEntity| facet_applies(f, relationship)),
            kept@ == all.take(it.index() as int).filter(pred),
    {
        proof {
            reveal(Seq::filter);
            assert(all.take(it.index() + 1).drop_last() =~= all.take(it.index() as int));
            assert(all.take(it.index() + 1).last() == f);
        }
        if f.is_core || f.privacy.allows(relationship) {
            kept.push(f);
        }
    }
    proof {
        assert(all.take(all.len() as int) =~= all);
    }
    kept
}

/// Core facets are surfaced to every audience.
pub proof fn law_core_facets_always_apply(facet: PersonalityFacetEntity, relationship: Relationship)
    requires
        facet.is_core,
    ensures
        facet_applies(facet, relationship),
{
}

/// The Master is shown every facet, in the given order.
pub proof fn law_master_sees_every_facet(facets: Seq<PersonalityFacetEntity>)
    ensures
        facets.filter(|f: PersonalityFacetEntity| facet_applies(f, Relationship::Master)) == facets,
    decreases facets.len(),
{
    reveal(Seq::filter);
    if facets.len() > 0 {
        law_master_sees_every_facet(facets.drop_last());
        assert(facets.drop_last().push(facets.last()) =~= facets);
    }
}

/// Strangers and ignored contacts are shown exactly the core and the public
/// facets.
pub proof fn law_strangers_see_core_and_public(facet: PersonalityFacetEntity, relationship: Relationship)
    requires
        relationship == Relationship::Stranger || relationship == Relationship::Ignored,
    ensures
        facet_applies(facet, relationship) <==> (facet.is_core || facet.privacy
            == PrivacyControlFlag::Public),
{
}

/// The audience rule of facets: a core facet is shown to everyone; a
/// non-core facet is shown to the Master always, to a Dude or an Acquaintance
/// when it is Protected or Public, and to a Stranger or an Ignored contact only
/// when it is Public. In particular a non-core Private facet is shown only to
/// the Master.
pub proof fn law_facet_audience(facet: PersonalityFacetEntity, relationship: Relationship)
    ensures
        facet.is_core ==> facet_applies(facet, relationship),
        !facet.is_core ==> (facet_applies(facet, relationship) <==> match facet.privacy {
            PrivacyControlFlag::Private => relationship == Relationship::Master,
            PrivacyControlFlag::Protected => relationship == Relationship::Master || relationship
                == Relationship::Dude || relationship == Relationship::Acquaintance,
            PrivacyControlFlag::Public => true,
        }),
{
}

/// The kept facets are exactly the given facets that are shown to the peer,
/// each kept in the order given: a facet is kept exactly when it was given and
/// applies.
pub proof fn law_kept_facets_are_those_shown(
    facets: Seq<PersonalityFacetEntity>,
    relationship: Relationship,
    f: PersonalityFacetEntity,
)
    ensures
        facets.filter(|g: PersonalityFacetEntity| facet_applies(g, relationship)).contains(f) <==> (
        facets.contains(f) && facet_applies(f, relationship)),
{
    let pred = |g: PersonalityFacetEntity| facet_applies(g, relationship);
    let kept = facets.filter(pred);
    if kept.contains(f) {
        facets.lemma_filter_contains_rev(pred, f);
        let i = choose|i: int| 0 <= i < kept.len() && kept[i] == f;
        facets.lemma_filter_pred(pred, i);
    }
    if facets.contains(f) && facet_applies(f, relationship) {
        let i = choose|i: int| 0 <= i < facets.len() && facets[i] == f;
        facets.lemma_filter_contains(pred, i);
    }
}

} // verus!
