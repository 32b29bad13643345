use loginapp::database::{classify_insert_failure, user_from_found, Database};
use loginapp::errors::AppError;
use loginapp::ident::UserId;
use loginapp::timestamp::Timestamp;
use loginapp::user::{created_user, row_for, user_from_row, NewUser, User, UserRow};

fn now() -> Timestamp {
    Timestamp::new(1_704_067_200, 123_000_000).unwrap()
}

fn draft(name: &str, email: &str) -> NewUser {
    NewUser {
        name: name.to_string(),
        email: email.to_string(),
        password_hash: format!("hash of {}", name),
        avatar: None,
        is_active: true,
    }
}

fn row(id: &str, email: &str) -> UserRow {
    UserRow {
        id: id.to_string(),
        name: "Ann".to_string(),
        email: email.to_string(),
        password_hash: "h".to_string(),
        avatar: Some("https://img.example/a.png".to_string()),
        created_at: "2024-01-01T01:00:00+01:00".to_string(),
        updated_at: "2024-01-02T00:00:00Z".to_string(),
        is_active: 1,
    }
}

const ID_A: &str = "550e8400-e29b-41d4-a716-446655440000";
const ID_B: &str = "550e8400-e29b-41d4-a716-446655440001";

#[test]
fn new_table_is_empty() {
    let db = Database::new();
    assert_eq!(db.len(), 0);
    assert_eq!(db.find_user_by_email("a@x.com"), Ok(None));
    assert_eq!(db.find_user_by_id(&UserId::from_u128(1)), Ok(None));
}

#[test]
fn insert_then_both_lookups_give_the_user() {
    let mut db = Database::new();
    let id = UserId::from_u128(0x550e8400e29b41d4a716446655440000);
    let user = db.insert_user(&draft("Ann", "a@x.com"), id, now()).unwrap();
    assert_eq!(
        user,
        User {
            id,
            name: "Ann".to_string(),
            email: "a@x.com".to_string(),
            password_hash: "hash of Ann".to_string(),
            avatar: None,
            created_at: now(),
            updated_at: now(),
            is_active: true,
        }
    );
    assert_eq!(db.len(), 1);
    assert_eq!(db.find_user_by_id(&id), Ok(Some(user.clone())));
    assert_eq!(db.find_user_by_email("a@x.com"), Ok(Some(user)));
}

#[test]
fn create_assigns_an_identifier_and_both_lookups_give_the_user() {
    let mut db = Database::new();
    let mut with_avatar = draft("Bob", "b@x.com");
    with_avatar.avatar = Some("https://img.example/b.png".to_string());
    with_avatar.is_active = false;
    let user = db.create_user(&with_avatar, now()).unwrap();
    let id = user.id;
    assert_eq!(user.name, "Bob");
    assert_eq!(user.email, "b@x.com");
    assert_eq!(user.password_hash, "hash of Bob");
    assert_eq!(user.avatar, Some("https://img.example/b.png".to_string()));
    assert_eq!(user.created_at, now());
    assert_eq!(user.updated_at, now());
    assert!(!user.is_active);
    assert_eq!(db.find_user_by_id(&id), Ok(Some(user.clone())));
    assert_eq!(db.find_user_by_email("b@x.com"), Ok(Some(user)));
}

#[test]
fn created_users_get_different_identifiers() {
    let mut db = Database::new();
    let a = db.create_user(&draft("Ann", "a@x.com"), now()).unwrap();
    let b = db.create_user(&draft("Bob", "b@x.com"), now()).unwrap();
    assert_ne!(a.id, b.id);
    assert_eq!(db.len(), 2);
    assert_eq!(db.find_user_by_email("a@x.com"), Ok(Some(a)));
    assert_eq!(db.find_user_by_email("b@x.com"), Ok(Some(b)));
}

#[test]
fn second_create_with_the_same_email_is_a_duplicate() {
    let mut db = Database::new();
    let first = db.create_user(&draft("Ann", "a@x.com"), now()).unwrap();
    assert_eq!(
        db.create_user(&draft("Another Ann", "a@x.com"), now()),
        Err(AppError::DuplicateEmail)
    );
    assert_eq!(db.len(), 1);
    assert_eq!(db.find_user_by_email("a@x.com"), Ok(Some(first)));
}

#[test]
fn emails_are_matched_character_for_character() {
    let mut db = Database::new();
    db.create_user(&draft("Ann", "a@x.com"), now()).unwrap();
    assert_eq!(db.find_user_by_email("A@x.com"), Ok(None));
    assert_eq!(db.find_user_by_email("a@x.com "), Ok(None));
    assert_eq!(db.find_user_by_email(""), Ok(None));
    assert!(db.create_user(&draft("Ann", "A@x.com"), now()).is_ok());
    assert_eq!(db.len(), 2);
}

#[test]
fn insert_under_a_taken_identifier_is_a_storage_failure() {
    let mut db = Database::new();
    let id = UserId::from_u128(7);
    db.insert_user(&draft("Ann", "a@x.com"), id, now()).unwrap();
    assert_eq!(db.insert_user(&draft("Bob", "b@x.com"), id, now()), Err(AppError::Storage));
    assert_eq!(db.len(), 1);
    assert_eq!(db.find_user_by_email("b@x.com"), Ok(None));
}

#[test]
fn a_taken_email_is_reported_before_a_taken_identifier() {
    let mut db = Database::new();
    let id = UserId::from_u128(7);
    db.insert_user(&draft("Ann", "a@x.com"), id, now()).unwrap();
    assert_eq!(
        db.insert_user(&draft("Bob", "a@x.com"), id, now()),
        Err(AppError::DuplicateEmail)
    );
}

#[test]
fn row_for_writes_text_and_numbers() {
    let id = UserId::from_u128(0x550e8400e29b41d4a716446655440000);
    let mut inactive = draft("Ann", "a@x.com");
    inactive.is_active = false;
    assert_eq!(
        row_for(&inactive, id, now()),
        UserRow {
            id: ID_A.to_string(),
            name: "Ann".to_string(),
            email: "a@x.com".to_string(),
            password_hash: "hash of Ann".to_string(),
            avatar: None,
            created_at: "2024-01-01T00:00:00.123+00:00".to_string(),
            updated_at: "2024-01-01T00:00:00.123+00:00".to_string(),
            is_active: 0,
        }
    );
    assert_eq!(row_for(&draft("Ann", "a@x.com"), id, now()).is_active, 1);
}

#[test]
fn row_reads_back_as_the_created_user() {
    let id = UserId::from_u128(99);
    let d = draft("Ann", "a@x.com");
    assert_eq!(user_from_row(&row_for(&d, id, now())), Ok(created_user(&d, id, now())));
}

#[test]
fn user_from_row_brings_timestamps_to_utc() {
    let user = user_from_row(&row(ID_A, "a@x.com")).unwrap();
    assert_eq!(user.id, UserId::from_u128(0x550e8400e29b41d4a716446655440000));
    assert_eq!(user.created_at, Timestamp::new(1_704_067_200, 0).unwrap());
    assert_eq!(user.updated_at, Timestamp::new(1_704_153_600, 0).unwrap());
    assert_eq!(user.avatar, Some("https://img.example/a.png".to_string()));
    assert!(user.is_active);
}

#[test]
fn user_from_row_reads_the_flag() {
    let mut r = row(ID_A, "a@x.com");
    r.is_active = 0;
    assert!(!user_from_row(&r).unwrap().is_active);
    r.is_active = 2;
    assert!(user_from_row(&r).unwrap().is_active);
    r.is_active = -1;
    assert!(user_from_row(&r).unwrap().is_active);
}

#[test]
fn user_from_row_fails_on_a_bad_identifier() {
    assert_eq!(user_from_row(&row("not-a-uuid", "a@x.com")), Err(AppError::Storage));
    assert_eq!(user_from_row(&row("", "a@x.com")), Err(AppError::Storage));
}

#[test]
fn user_from_row_fails_on_a_bad_timestamp() {
    let mut r = row(ID_A, "a@x.com");
    r.created_at = "yesterday".to_string();
    assert_eq!(user_from_row(&r), Err(AppError::Storage));
    let mut r = row(ID_A, "a@x.com");
    r.updated_at = "2024-01-01 00:00:00".to_string();
    assert_eq!(user_from_row(&r), Err(AppError::Storage));
}

#[test]
fn user_from_found_maps_nothing_to_nothing() {
    assert_eq!(user_from_found(None), Ok(None));
    let r = row(ID_A, "a@x.com");
    assert_eq!(user_from_found(Some(&r)), Ok(Some(user_from_row(&r).unwrap())));
    assert_eq!(user_from_found(Some(&row("x", "a@x.com"))), Err(AppError::Storage));
}

#[test]
fn from_rows_wants_single_keys() {
    assert!(Database::from_rows(vec![]).is_some());
    assert!(Database::from_rows(vec![row(ID_A, "a@x.com"), row(ID_B, "b@x.com")]).is_some());
    assert!(Database::from_rows(vec![row(ID_A, "a@x.com"), row(ID_B, "a@x.com")]).is_none());
    assert!(Database::from_rows(vec![row(ID_A, "a@x.com"), row(ID_A, "b@x.com")]).is_none());
    assert!(Database::from_rows(vec![
        row(ID_A, "a@x.com"),
        row(ID_B, "b@x.com"),
        row("c", "a@x.com")
    ])
    .is_none());
}

#[test]
fn lookups_read_loaded_rows() {
    let db = Database::from_rows(vec![row(ID_A, "a@x.com"), row(ID_B, "b@x.com")]).unwrap();
    assert_eq!(db.len(), 2);
    let b = db.find_user_by_email("b@x.com").unwrap().unwrap();
    assert_eq!(b.id, UserId::from_u128(0x550e8400e29b41d4a716446655440001));
    let a = db.find_user_by_id(&UserId::from_u128(0x550e8400e29b41d4a716446655440000));
    assert_eq!(a.unwrap().unwrap().email, "a@x.com");
}

#[test]
fn lookup_of_a_row_that_cannot_be_read_is_a_storage_failure() {
    let mut bad_time = row(ID_B, "b@x.com");
    bad_time.created_at = "never".to_string();
    let db = Database::from_rows(vec![row("garbage", "a@x.com"), bad_time]).unwrap();
    assert_eq!(db.find_user_by_email("a@x.com"), Err(AppError::Storage));
    assert_eq!(db.find_user_by_email("b@x.com"), Err(AppError::Storage));
    assert_eq!(
        db.find_user_by_id(&UserId::from_u128(0x550e8400e29b41d4a716446655440001)),
        Err(AppError::Storage)
    );
    assert_eq!(db.find_user_by_email("c@x.com"), Ok(None));
}

#[test]
fn lookup_by_identifier_matches_the_stored_text() {
    let db = Database::from_rows(vec![row("550E8400-E29B-41D4-A716-446655440000", "a@x.com")])
        .unwrap();
    assert_eq!(
        db.find_user_by_id(&UserId::from_u128(0x550e8400e29b41d4a716446655440000)),
        Ok(None)
    );
    assert!(db.find_user_by_email("a@x.com").unwrap().is_some());
}

#[test]
fn insert_failures_are_told_apart_by_the_message() {
    assert_eq!(
        classify_insert_failure(
            "error returned from database: (code: 2067) UNIQUE constraint failed: users.email"
        ),
        AppError::DuplicateEmail
    );
    assert_eq!(classify_insert_failure("UNIQUE constraint failed"), AppError::DuplicateEmail);
    assert_eq!(classify_insert_failure("unique constraint failed"), AppError::Storage);
    assert_eq!(classify_insert_failure("UNIQUE constraint faile"), AppError::Storage);
    assert_eq!(classify_insert_failure("database is locked"), AppError::Storage);
    assert_eq!(classify_insert_failure(""), AppError::Storage);
}

#[test]
fn to_public_drops_the_hash() {
    let user = created_user(&draft("Ann", "a@x.com"), UserId::from_u128(3), now());
    let shown = user.to_public();
    assert_eq!(shown.id, UserId::from_u128(3));
    assert_eq!(shown.name, "Ann");
    assert_eq!(shown.email, "a@x.com");
    assert_eq!(shown.avatar, None);
    assert_eq!(shown.created_at, now());
    assert_eq!(shown.updated_at, now());
    assert!(shown.is_active);
    assert!(!format!("{:?}", shown).contains("hash of Ann"));
}

#[test]
fn from_rows_wants_a_name_in_every_row() {
    let mut nameless = row(ID_B, "b@x.com");
    nameless.name = String::new();
    assert!(Database::from_rows(vec![row(ID_A, "a@x.com"), nameless]).is_none());
}

#[test]
fn stored_users_have_a_name() {
    let mut db = Database::new();
    db.create_user(&draft("A", "a@x.com"), now()).unwrap();
    assert!(!db.find_user_by_email("a@x.com").unwrap().unwrap().name.is_empty());
}
