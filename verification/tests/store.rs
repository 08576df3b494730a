use user_store::store::UserService;
use user_store::user::{User, UserError};

fn make_user(id: u32, name: &str, email: &str) -> User {
    User::new(id, name.to_string(), email.to_string()).expect("valid user")
}

#[test]
fn construction_rejects_empty_name() {
    let r = User::new(1, "".to_string(), "a@b.com".to_string());
    assert_eq!(r.unwrap_err(), UserError::InvalidData);
}

#[test]
fn construction_rejects_empty_email() {
    let r = User::new(1, "John".to_string(), "".to_string());
    assert_eq!(r.unwrap_err(), UserError::InvalidData);
}

#[test]
fn construction_accepts_non_empty_fields() {
    let u = make_user(7, "John", "j@example.com");
    assert_eq!(u.id, 7);
    assert_eq!(u.name, "John");
    assert_eq!(u.email, "j@example.com");
    assert!(u.is_active);
}

#[test]
fn generated_ids_count_up_from_one() {
    let mut service = UserService::new();
    assert_eq!(service.generate_id(), 1);
    assert_eq!(service.generate_id(), 2);
    assert_eq!(service.generate_id(), 3);
}

#[test]
fn crud_scenario() {
    let mut service = UserService::new();

    let id1 = service.generate_id();
    let id2 = service.generate_id();
    let john = make_user(id1, "John Doe", "john@example.com");
    let jane = make_user(id2, "Jane Smith", "jane@example.com");

    assert!(service.save(john).is_ok());
    assert!(service.save(jane.clone()).is_ok());
    assert_eq!(service.len(), 2);

    let dup = make_user(3, "X", "john@example.com");
    assert_eq!(service.save(dup).unwrap_err(), UserError::AlreadyExists);
    assert_eq!(service.len(), 2);

    assert!(service.delete(1).is_ok());
    assert_eq!(service.len(), 1);
    assert!(service.find_by_id(1).is_none());

    let found = service.find_by_email("jane@example.com").expect("jane present");
    assert_eq!(*found, jane);
}

#[test]
fn lookup_after_save() {
    let mut service = UserService::new();
    let u = make_user(service.generate_id(), "Ada", "ada@example.com");
    assert!(service.save(u.clone()).is_ok());

    let by_id = service.find_by_id(u.id).expect("present by id");
    assert_eq!(*by_id, u);

    let by_email = service.find_by_email("ada@example.com").expect("present by email");
    assert_eq!(by_email.email, "ada@example.com");
}

#[test]
fn duplicate_email_leaves_store_unchanged() {
    let mut service = UserService::new();
    let first = make_user(1, "First", "same@example.com");
    assert!(service.save(first.clone()).is_ok());

    let second = make_user(2, "Second", "same@example.com");
    assert_eq!(service.save(second).unwrap_err(), UserError::AlreadyExists);
    assert_eq!(service.len(), 1);
    assert_eq!(*service.find_by_id(1).expect("still there"), first);
}

#[test]
fn delete_absent_id_is_not_found() {
    let mut service = UserService::new();
    assert_eq!(service.delete(42).unwrap_err(), UserError::NotFound);
    assert_eq!(service.len(), 0);
}

#[test]
fn delete_removes_exactly_that_record() {
    let mut service = UserService::new();
    let a = make_user(1, "A", "a@example.com");
    let b = make_user(2, "B", "b@example.com");
    assert!(service.save(a).is_ok());
    assert!(service.save(b.clone()).is_ok());

    assert!(service.delete(1).is_ok());
    assert!(service.find_by_id(1).is_none());
    assert_eq!(*service.find_by_id(2).expect("untouched"), b);
}

// The store replaces a record silently when a save reuses an
// already-stored id and a fresh email.
#[test]
fn save_with_reused_id_overwrites() {
    let mut service = UserService::new();
    let old = make_user(1, "Old", "old@example.com");
    let new = make_user(1, "New", "new@example.com");
    assert!(service.save(old).is_ok());
    assert!(service.save(new).is_ok());
    assert_eq!(service.len(), 1);
    assert_eq!(service.find_by_id(1).expect("present").email, "new@example.com");
}

#[test]
fn capacity_limit_rejects_further_saves() {
    let mut service = UserService::new();
    for _ in 0..1000 {
        let id = service.generate_id();
        let u = make_user(id, "Bulk", &format!("bulk{}@example.com", id));
        assert!(service.save(u).is_ok());
    }
    assert_eq!(service.len(), 1000);

    let id = service.generate_id();
    let extra = make_user(id, "Extra", "extra@example.com");
    assert_eq!(service.save(extra).unwrap_err(), UserError::CapacityExceeded);
    assert_eq!(service.len(), 1000);
}

#[test]
fn error_messages() {
    assert_eq!(UserError::NotFound.message(), "User not found");
    assert_eq!(UserError::AlreadyExists.message(), "User already exists");
    assert_eq!(UserError::InvalidData.message(), "Invalid user data");
    assert_eq!(UserError::CapacityExceeded.message(), "User store is full");
}

#[test]
fn created_at_is_set() {
    let u = make_user(1, "Stamped", "s@example.com");
    assert!(!u.created_at.is_empty());
}
