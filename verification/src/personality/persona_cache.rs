//! Keys of the cached, fully-assembled system prompt ("hot personality") for
//! a conversation peer. The relationship is part of the key because the same
//! conversation surfaces different facets to different audiences.
use vstd::prelude::*;
use crate::decimal::{decimal, decimal_text};
use crate::entities::contact_identity::Relationship;

verus! {

/// The name of a relationship as its `Debug` form writes it.
pub open spec fn relationship_name(relationship: Relationship) -> Seq<char> {
    match relationship {
        Relationship::Stranger => "Stranger"@,
        Relationship::Master => "Master"@,
        Relationship::Acquaintance => "Acquaintance"@,
        Relationship::Dude => "Dude"@,
        Relationship::Ignored => "Ignored"@,
    }
}

/// The cache key of the persona for a conversation peer:
/// `isla:persona:{conversation_id}:{relationship}`.
pub open spec fn persona_key(conversation_id: i64, relationship: Relationship) -> Seq<char> {
    "isla:persona:"@ + decimal(conversation_id as int) + ":"@ + relationship_name(relationship)
}

/// The name of a relationship as its `Debug` form writes it.
pub fn relationship_text(relationship: Relationship) -> (r: &'static str)
    ensures
        r@ == relationship_name(relationship),
{
    match relationship {
        Relationship::Stranger => "Stranger",
        Relationship::Master => "Master",
        Relationship::Acquaintance => "Acquaintance",
        Relationship::Dude => "Dude",
        Relationship::Ignored => "Ignored",
    }
}

/// Build the cache key for a conversation peer.
pub fn persona_cache_key(conversation_id: i64, relationship: Relationship) -> (r: String)
    ensures
        r@ == persona_key(conversation_id, relationship),
{
    let mut r = String::from_str("isla:persona:");
    let id = decimal_text(conversation_id);
    r.append(id.as_str());
    r.append(":");
    r.append(relationship_text(relationship));
    r
}

/// Different peers of a conversation get different keys, so one audience's
/// persona is never served to another.
pub proof fn law_keys_separate_audiences(conversation_id: i64, a: Relationship, b: Relationship)
    requires
        a != b,
    ensures
        persona_key(conversation_id, a) != persona_key(conversation_id, b),
{
    reveal_strlit("Stranger");
    reveal_strlit("Master");
    reveal_strlit("Acquaintance");
    reveal_strlit("Dude");
    reveal_strlit("Ignored");
    let prefix = "isla:persona:"@ + decimal(conversation_id as int) + ":"@;
    let na = relationship_name(a);
    let nb = relationship_name(b);
    assert(persona_key(conversation_id, a) == prefix + na);
    assert(persona_key(conversation_id, b) == prefix + nb);
    if prefix + na == prefix + nb {
        assert(na =~= (prefix + na).subrange(prefix.len() as int, (prefix + na).len() as int));
        assert(nb =~= (prefix + nb).subrange(prefix.len() as int, (prefix + nb).len() as int));
    }
}

} // verus!
