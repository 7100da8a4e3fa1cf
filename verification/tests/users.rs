use journal_core::commands::{create_user, get_user_profile, update_user_profile};
use journal_core::db::Database;
use journal_core::error::{AppError, FrontendError, StorageError, StorageErrorKind};
use journal_core::models::{UpdateUserDto, User};
use journal_core::services::UserService;

fn service() -> UserService {
    UserService::new(Database::new())
}

#[test]
fn create_then_get_user() {
    let mut s = service();
    let made = create_user("ann@example.org".to_string(), "Ann".to_string(), &mut s).ok().unwrap();
    assert_eq!(made.email, "ann@example.org");
    assert_eq!(made.name, "Ann");
    assert_eq!(made.created_at, made.updated_at);
    assert_eq!(made.id.len(), 36);
    let got = get_user_profile(made.id.clone(), &s).ok().unwrap();
    assert_eq!(got.id, made.id);
    assert_eq!(got.email, "ann@example.org");
    assert_eq!(got.name, "Ann");
    assert_eq!(got.created_at, made.created_at);
}

#[test]
fn create_user_with_duplicate_email_fails() {
    let mut s = service();
    let first = s.create_user("ann@example.org".to_string(), "Ann".to_string()).unwrap();
    let again = s.create_user("ann@example.org".to_string(), "Other".to_string());
    match again {
        Err(AppError::Database(e)) => assert_eq!(e.kind, StorageErrorKind::UniqueViolation),
        _ => panic!("a second profile with one address was accepted"),
    }
    assert_eq!(s.get_user(&first.id).unwrap().name, "Ann");
    let shown = create_user("ann@example.org".to_string(), "Third".to_string(), &mut s).err().unwrap();
    assert_eq!(shown.code.as_deref(), Some("DATABASE_ERROR"));
    assert_eq!(shown.message, "A database error occurred. Please try again.");
}

#[test]
fn create_user_with_identifier_in_use_fails() {
    let mut s = service();
    s.create_user_at("a@example.org".to_string(), "A".to_string(), "id-1".to_string(), "t1".to_string()).unwrap();
    let clash = s.create_user_at("b@example.org".to_string(), "B".to_string(), "id-1".to_string(), "t2".to_string());
    assert!(matches!(clash, Err(AppError::Database(StorageError { kind: StorageErrorKind::UniqueViolation, .. }))));
    assert_eq!(s.get_user("id-1").unwrap().email, "a@example.org");
}

#[test]
fn get_of_unknown_user_is_not_found() {
    let s = service();
    match s.get_user("nobody") {
        Err(AppError::NotFound(context)) => assert_eq!(context, "User not found: nobody"),
        _ => panic!("a missing profile was found"),
    }
    let shown = get_user_profile("nobody".to_string(), &s).err().unwrap();
    assert_eq!(shown.code.as_deref(), Some("NOT_FOUND"));
    assert_eq!(shown.message, "User not found: nobody");
}

#[test]
fn update_with_only_name_leaves_email() {
    let mut s = service();
    s.create_user_at("ann@example.org".to_string(), "Ann".to_string(), "id-1".to_string(), "t1".to_string()).unwrap();
    let u = s
        .update_user_at("id-1", UpdateUserDto { name: Some("Anna".to_string()), email: None }, "t2".to_string())
        .unwrap();
    assert_eq!(u.name, "Anna");
    assert_eq!(u.email, "ann@example.org");
    assert_eq!(u.id, "id-1");
    assert_eq!(u.created_at, "t1");
    assert_eq!(u.updated_at, "t2");
    let stored = s.get_user("id-1").unwrap();
    assert_eq!(stored.name, "Anna");
    assert_eq!(stored.email, "ann@example.org");
    assert_eq!(stored.updated_at, "t2");
}

#[test]
fn update_with_only_email_leaves_name() {
    let mut s = service();
    s.create_user_at("ann@example.org".to_string(), "Ann".to_string(), "id-1".to_string(), "t1".to_string()).unwrap();
    let u = s
        .update_user_at("id-1", UpdateUserDto { name: None, email: Some("ann@example.com".to_string()) }, "t2".to_string())
        .unwrap();
    assert_eq!(u.name, "Ann");
    assert_eq!(u.email, "ann@example.com");
    let stored = s.get_user("id-1").unwrap();
    assert_eq!(stored.name, "Ann");
    assert_eq!(stored.email, "ann@example.com");
}

#[test]
fn update_with_nothing_set_refreshes_the_time_only() {
    let mut s = service();
    let made = s.create_user("ann@example.org".to_string(), "Ann".to_string()).unwrap();
    let u = update_user_profile(made.id.clone(), UpdateUserDto { name: None, email: None }, &mut s).ok().unwrap();
    assert_eq!(u.name, "Ann");
    assert_eq!(u.email, "ann@example.org");
    assert_eq!(u.created_at, made.created_at);
    assert!(chrono::DateTime::parse_from_rfc3339(&u.updated_at).is_ok());
}

#[test]
fn update_of_unknown_user_is_not_found() {
    let mut s = service();
    let r = s.update_user("nobody", UpdateUserDto { name: Some("X".to_string()), email: None });
    match r {
        Err(AppError::NotFound(context)) => assert_eq!(context, "User not found: nobody"),
        _ => panic!("an update of a missing profile did not fail"),
    }
    let shown = update_user_profile("nobody".to_string(), UpdateUserDto { name: None, email: None }, &mut s).err().unwrap();
    assert_eq!(shown.code.as_deref(), Some("NOT_FOUND"));
    assert_eq!(shown.message, "User not found: nobody");
}

#[test]
fn update_to_the_email_of_another_fails() {
    let mut s = service();
    s.create_user_at("a@example.org".to_string(), "A".to_string(), "id-1".to_string(), "t1".to_string()).unwrap();
    s.create_user_at("b@example.org".to_string(), "B".to_string(), "id-2".to_string(), "t1".to_string()).unwrap();
    let r = s.update_user_at("id-2", UpdateUserDto { name: Some("Bee".to_string()), email: Some("a@example.org".to_string()) }, "t2".to_string());
    assert!(matches!(r, Err(AppError::Database(StorageError { kind: StorageErrorKind::UniqueViolation, .. }))));
    let stored = s.get_user("id-2").unwrap();
    assert_eq!(stored.name, "B");
    assert_eq!(stored.email, "b@example.org");
    assert_eq!(stored.updated_at, "t1");
    let own = s.update_user_at("id-2", UpdateUserDto { name: None, email: Some("b@example.org".to_string()) }, "t3".to_string());
    assert_eq!(own.unwrap().updated_at, "t3");
}

#[test]
fn user_new_takes_a_fresh_identifier() {
    let a = User::new("a@example.org".to_string(), "A".to_string());
    let b = User::new("a@example.org".to_string(), "A".to_string());
    assert_ne!(a.id, b.id);
    assert!(uuid::Uuid::parse_str(&a.id).is_ok());
    assert_eq!(a.created_at, a.updated_at);
    assert!(chrono::DateTime::parse_from_rfc3339(&a.created_at).is_ok());
}

#[test]
fn update_timestamp_changes_the_time_only() {
    let mut u = User::with_stamp("id-1".to_string(), "t1".to_string(), "a@example.org".to_string(), "A".to_string());
    u.update_timestamp();
    assert_eq!(u.id, "id-1");
    assert_eq!(u.email, "a@example.org");
    assert_eq!(u.name, "A");
    assert_eq!(u.created_at, "t1");
    assert_ne!(u.updated_at, "t1");
    assert!(chrono::DateTime::parse_from_rfc3339(&u.updated_at).is_ok());
}

#[test]
fn not_found_is_shown_with_its_own_text() {
    let shown = FrontendError::from(AppError::NotFound("Note not found for date: 2024-01-01".to_string()));
    assert_eq!(shown.message, "Note not found for date: 2024-01-01");
    assert_eq!(shown.code.as_deref(), Some("NOT_FOUND"));
}

#[test]
fn row_not_found_is_shown_as_not_found() {
    let shown = FrontendError::from(AppError::Database(StorageError::row_not_found()));
    assert_eq!(shown.message, "Note not found");
    assert_eq!(shown.code.as_deref(), Some("NOT_FOUND"));
    let direct = FrontendError::from(StorageError::row_not_found());
    assert_eq!(direct.message, "Note not found");
    assert_eq!(direct.code.as_deref(), Some("NOT_FOUND"));
}

#[test]
fn other_storage_failures_are_shown_without_detail() {
    let secret = "near \"SELEC\": syntax error in SELECT * FROM users";
    for kind in [StorageErrorKind::Other, StorageErrorKind::UniqueViolation] {
        let shown = FrontendError::from(AppError::Database(StorageError { kind, detail: secret.to_string() }));
        assert_eq!(shown.message, "A database error occurred. Please try again.");
        assert_eq!(shown.code.as_deref(), Some("DATABASE_ERROR"));
        assert!(!shown.message.contains("SELECT"));
    }
}

#[test]
fn storage_error_becomes_a_database_error() {
    let e = AppError::from(StorageError { kind: StorageErrorKind::Other, detail: "disk full".to_string() });
    match e {
        AppError::Database(inner) => {
            assert_eq!(inner.kind, StorageErrorKind::Other);
            assert_eq!(inner.detail, "disk full");
        }
        _ => panic!("a failure of the store changed its kind"),
    }
}

#[test]
fn error_message_for_the_log_holds_the_detail() {
    let db = AppError::Database(StorageError { kind: StorageErrorKind::Other, detail: "disk full".to_string() });
    assert_eq!(db.message(), "Database error: disk full");
    let nf = AppError::NotFound("user 7".to_string());
    assert_eq!(nf.message(), "Not found: user 7");
    let unique = AppError::Database(StorageError::unique_violation());
    assert_eq!(unique.message(), "Database error: UNIQUE constraint failed");
}
