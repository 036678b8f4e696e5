use isla::entities::calender_task::CalenderTaskStatus;
use isla::entities::contact_identity::Relationship;
use isla::entities::PrivacyControlFlag;
use isla::services::calender::{
    event_index_text, AddTaskDependencyRequest, CreateCalenderRequest, CreateTaskRequest,
    UpdateTaskRequest,
};
use isla::services::contact::{
    identity_index_text, ContactWrite, CreateContactIdentityRequest, UpsertContactRequest,
};
use isla::services::conversation::conversation_index_text;
use isla::services::diary::UpdateDiaryRequest;
use isla::services::{check_text, index_text, is_blank, message_excerpt, ServiceError};

#[test]
fn blank_means_only_whitespace() {
    assert!(is_blank(""));
    assert!(is_blank("   \t\n"));
    assert!(is_blank("\u{3000}\u{a0}"));
    assert!(!is_blank(" a "));
    assert!(!is_blank("\u{200b}"));
    assert_eq!(check_text(&"x".to_string()), Ok(()));
    assert_eq!(check_text(&" ".to_string()), Err(ServiceError::InvalidInput));
}

#[test]
fn a_calendar_needs_a_name() {
    let req = CreateCalenderRequest {
        name: "  ".to_string(),
        description: "d".to_string(),
        scopes: vec![],
    };
    assert_eq!(req.validate(), Err(ServiceError::InvalidInput));
    let req = CreateCalenderRequest {
        name: "work".to_string(),
        description: String::new(),
        scopes: vec![],
    };
    assert_eq!(req.validate(), Ok(()));
}

fn task(title: &str, start_at: i128, deadline: i128) -> CreateTaskRequest {
    CreateTaskRequest {
        calendar_id: 1,
        title: title.to_string(),
        description: String::new(),
        start_at,
        deadline,
        status: CalenderTaskStatus::Pending,
        privacy: PrivacyControlFlag::Protected,
    }
}

#[test]
fn a_task_needs_a_title_and_an_ordered_window() {
    assert_eq!(task("ship", 10, 20).validate(), Ok(()));
    assert_eq!(task("ship", 10, 10).validate(), Ok(()));
    assert_eq!(task("ship", 20, 10).validate(), Err(ServiceError::InvalidInput));
    assert_eq!(task("", 10, 20).validate(), Err(ServiceError::InvalidInput));
    let update = UpdateTaskRequest {
        id: 3,
        title: "t".to_string(),
        description: String::new(),
        start_at: 5,
        deadline: 4,
    };
    assert_eq!(update.validate(), Err(ServiceError::InvalidInput));
}

#[test]
fn a_task_cannot_block_itself() {
    let same = AddTaskDependencyRequest { blocking_task_id: 4, blocked_task_id: 4 };
    assert_eq!(same.validate(), Err(ServiceError::InvalidInput));
    let other = AddTaskDependencyRequest { blocking_task_id: 4, blocked_task_id: 5 };
    assert_eq!(other.validate(), Ok(()));
}

#[test]
fn identities_and_diaries_need_names() {
    let identity = CreateContactIdentityRequest {
        identify_name: "\n".to_string(),
        description: "d".to_string(),
        relationship: Relationship::Dude,
        privacy: PrivacyControlFlag::Protected,
    };
    assert_eq!(identity.validate(), Err(ServiceError::InvalidInput));
    let diary = UpdateDiaryRequest {
        id: 1,
        title: "Monday".to_string(),
        summary: String::new(),
        content: String::new(),
    };
    assert_eq!(diary.validate(), Ok(()));
}

fn upsert(display_name: &str, user_id: &str) -> UpsertContactRequest {
    UpsertContactRequest {
        display_name: display_name.to_string(),
        user_id: user_id.to_string(),
        platform: "telegram".to_string(),
        identity: 42,
    }
}

#[test]
fn upserting_a_contact_updates_or_creates() {
    assert_eq!(upsert("", "1").validate(), Err(ServiceError::InvalidInput));
    assert_eq!(upsert("Ann", " ").validate(), Err(ServiceError::InvalidInput));
    assert_eq!(upsert("Ann", "1").validate(), Ok(()));

    let lookup = upsert("Ann", "1").lookup();
    assert_eq!(lookup.platform, "telegram");
    assert_eq!(lookup.user_id, "1");

    match upsert("Ann", "1").into_write(Some(9)) {
        ContactWrite::Update(u) => {
            assert_eq!(u.id, 9);
            assert_eq!(u.display_name, "Ann");
            assert_eq!(u.identity, 42);
        }
        ContactWrite::Create(_) => panic!("an existing contact is updated"),
    }
    match upsert("Ann", "1").into_write(None) {
        ContactWrite::Create(c) => {
            assert_eq!(c.display_name, "Ann");
            assert_eq!(c.user_id, "1");
            assert_eq!(c.platform, "telegram");
            assert_eq!(c.identity, 42);
        }
        ContactWrite::Update(_) => panic!("a missing contact is created"),
    }
}

#[test]
fn index_texts_join_heading_and_body() {
    assert_eq!(index_text("a", "b"), "a\nb");
    assert_eq!(
        event_index_text(&"Dentist".to_string(), &"at 3".to_string()),
        "Dentist\nat 3"
    );
    assert_eq!(
        identity_index_text(&"Ann".to_string(), &"".to_string()),
        "Ann\n"
    );
    assert_eq!(
        conversation_index_text(&"hello".to_string(), &Some("bye".to_string())),
        "hello\nbye"
    );
    assert_eq!(conversation_index_text(&"hello".to_string(), &None), "hello");
}

#[test]
fn excerpts_join_present_texts_with_spaces() {
    let texts = vec![
        Some("look".to_string()),
        None,
        Some("at this".to_string()),
        Some("".to_string()),
    ];
    assert_eq!(message_excerpt(&texts), "look at this ");
    assert_eq!(message_excerpt(&vec![None, None]), "");
    assert_eq!(message_excerpt(&vec![]), "");
    assert_eq!(message_excerpt(&vec![None, Some("x".to_string())]), "x");
}
