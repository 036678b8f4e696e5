use isla::entities::contact_identity::Relationship;
use isla::entities::personality::PersonalityFacetEntity;
use isla::entities::PrivacyControlFlag;
use isla::services::personality::select_facets;

fn facet(name: &str, is_core: bool, privacy: PrivacyControlFlag) -> PersonalityFacetEntity {
    PersonalityFacetEntity {
        id: 0,
        name: name.into(),
        content: name.into(),
        priority: 0,
        is_core,
        privacy,
        created_at: 0,
        updated_at: 0,
    }
}

fn sample() -> Vec<PersonalityFacetEntity> {
    vec![
        facet("base", true, PrivacyControlFlag::Private),
        facet("intimate", false, PrivacyControlFlag::Private),
        facet("friendly", false, PrivacyControlFlag::Protected),
        facet("polite", false, PrivacyControlFlag::Public),
    ]
}

fn names(facets: &[PersonalityFacetEntity]) -> Vec<&str> {
    facets.iter().map(|f| f.name.as_str()).collect()
}

#[test]
fn master_sees_every_facet() {
    let kept = select_facets(sample(), Relationship::Master);
    assert_eq!(names(&kept), ["base", "intimate", "friendly", "polite"]);
}

#[test]
fn stranger_sees_only_core_and_public() {
    let kept = select_facets(sample(), Relationship::Stranger);
    assert_eq!(names(&kept), ["base", "polite"]);
}

#[test]
fn acquaintance_sees_core_protected_and_public_but_not_private() {
    let kept = select_facets(sample(), Relationship::Acquaintance);
    assert_eq!(names(&kept), ["base", "friendly", "polite"]);
}

#[test]
fn ignored_peer_sees_core_and_public_and_empty_stays_empty() {
    let kept = select_facets(sample(), Relationship::Ignored);
    assert_eq!(names(&kept), ["base", "polite"]);
    assert!(select_facets(Vec::new(), Relationship::Master).is_empty());
}
