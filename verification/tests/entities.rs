use isla::config::{FindConfig, ModuleConfig, UpdateConfig};
use isla::entities::contact_identity::Relationship;
use isla::entities::embedding::EntryRef;
use isla::entities::PrivacyControlFlag;
use isla::personality::persona_cache::{persona_cache_key, relationship_text};
use isla::scopes::{object_storage_scope, Scope};

#[test]
fn privacy_matrix() {
    for r in [
        Relationship::Master,
        Relationship::Dude,
        Relationship::Acquaintance,
        Relationship::Stranger,
        Relationship::Ignored,
    ] {
        assert!(PrivacyControlFlag::Public.allows(r));
        assert_eq!(PrivacyControlFlag::Private.allows(r), r == Relationship::Master);
        assert_eq!(
            PrivacyControlFlag::Protected.allows(r),
            matches!(r, Relationship::Master | Relationship::Dude | Relationship::Acquaintance)
        );
    }
    assert_eq!(PrivacyControlFlag::default(), PrivacyControlFlag::Protected);
}

#[test]
fn entry_ref_helpers_set_exactly_one_reference() {
    assert!(EntryRef::calender_event(1).is_exactly_one());
    assert!(EntryRef::conversation(2).is_exactly_one());
    assert!(EntryRef::contact(3).is_exactly_one());
    assert!(EntryRef::diary(4).is_exactly_one());
    assert_eq!(EntryRef::diary(4).diary, Some(4));
    assert_eq!(EntryRef::contact(3).contact, Some(3));
    assert!(!EntryRef::default().is_exactly_one());
}

#[test]
fn persona_keys_name_conversation_and_audience() {
    assert_eq!(persona_cache_key(42, Relationship::Master), "isla:persona:42:Master");
    assert_eq!(persona_cache_key(-3, Relationship::Ignored), "isla:persona:-3:Ignored");
    for r in [
        Relationship::Stranger,
        Relationship::Master,
        Relationship::Acquaintance,
        Relationship::Dude,
        Relationship::Ignored,
    ] {
        assert_eq!(relationship_text(r), format!("{r:?}"));
    }
}

#[derive(Debug, Default, PartialEq)]
struct StorageConfig {
    bucket: String,
}

impl ModuleConfig for StorageConfig {
    const SCOPE: Scope = Scope(&["@isla", "memory_repository", "object_storage"]);
    const CONFIG_NAME: &'static str = "storage";
}

#[test]
fn config_requests_carry_the_type() {
    let _find: FindConfig<StorageConfig> = FindConfig::new();
    let update = UpdateConfig { new_value: StorageConfig { bucket: "b".to_string() } };
    assert_eq!(update.new_value.bucket, "b");
    assert_eq!(StorageConfig::SCOPE, object_storage_scope());
    assert_eq!(StorageConfig::CONFIG_NAME, "storage");
}

#[test]
fn persona_keys_differ_between_audiences() {
    let all = [
        Relationship::Stranger,
        Relationship::Master,
        Relationship::Acquaintance,
        Relationship::Dude,
        Relationship::Ignored,
    ];
    for a in all {
        for b in all {
            assert_eq!(persona_cache_key(7, a) == persona_cache_key(7, b), a == b);
        }
    }
}
