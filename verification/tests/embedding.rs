use isla::entities::contact_identity::Relationship;
use isla::entities::embedding::EntryRef;
use isla::entities::PrivacyControlFlag;
use isla::services::embedding::{allowed_privacy, IndexEntry, MockEmbedder, SearchMemory, EMBEDDING_DIMS};
use isla::services::ServiceError;

#[test]
fn master_sees_all_privacy_levels() {
    assert_eq!(allowed_privacy(Relationship::Master).len(), 3);
}

#[test]
fn stranger_sees_only_public() {
    assert_eq!(
        allowed_privacy(Relationship::Stranger),
        vec![PrivacyControlFlag::Public]
    );
}

#[test]
fn acquaintance_sees_protected_and_public() {
    assert_eq!(
        allowed_privacy(Relationship::Acquaintance),
        vec![PrivacyControlFlag::Protected, PrivacyControlFlag::Public]
    );
}

#[test]
fn dude_and_ignored_filters() {
    assert_eq!(
        allowed_privacy(Relationship::Dude),
        vec![PrivacyControlFlag::Protected, PrivacyControlFlag::Public]
    );
    assert_eq!(
        allowed_privacy(Relationship::Ignored),
        vec![PrivacyControlFlag::Public]
    );
}

#[test]
fn mock_embedder_produces_correct_dimensionality() {
    let v = MockEmbedder.component_sums("hello".as_bytes());
    assert_eq!(v.len(), EMBEDDING_DIMS);
}

#[test]
fn mock_embedder_sums_bytes_by_position() {
    let v = MockEmbedder.component_sums("hello".as_bytes());
    assert_eq!(v[0], u128::from(b'h'));
    assert_eq!(v[4], u128::from(b'o'));
    assert_eq!(v[5], 0);
    let mut long = vec![1u8; EMBEDDING_DIMS];
    long.push(7);
    let w = MockEmbedder.component_sums(&long);
    assert_eq!(w[0], 8);
    assert_eq!(w[1], 1);
}

#[test]
fn search_with_non_positive_limit_is_invalid() {
    let search = SearchMemory {
        query: "anything".to_string(),
        relationship: Relationship::Master,
        limit: 0,
    };
    assert_eq!(search.validate(), Err(ServiceError::InvalidInput));
    let search = SearchMemory {
        query: "anything".to_string(),
        relationship: Relationship::Stranger,
        limit: 5,
    };
    assert_eq!(search.validate(), Ok(vec![PrivacyControlFlag::Public]));
}

#[test]
fn index_entry_needs_exactly_one_reference() {
    let good = IndexEntry {
        reference: EntryRef::diary(3),
        privacy: PrivacyControlFlag::Public,
        content: "text".to_string(),
    };
    assert_eq!(good.validate(), Ok(()));
    let none = IndexEntry {
        reference: EntryRef::default(),
        privacy: PrivacyControlFlag::Public,
        content: "text".to_string(),
    };
    assert_eq!(none.validate(), Err(ServiceError::InvalidInput));
    let two = IndexEntry {
        reference: EntryRef {
            calender_event: Some(1),
            conversation: Some(2),
            contact: None,
            diary: None,
        },
        privacy: PrivacyControlFlag::Public,
        content: "text".to_string(),
    };
    assert_eq!(two.validate(), Err(ServiceError::InvalidInput));
}
