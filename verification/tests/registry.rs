use glide_core::Registry;
use glide_core::RegistryError;
use glide_core::ShareRequest;

fn request(sender: &str, filename: &str, size: u64) -> ShareRequest {
    ShareRequest {
        sender: sender.to_string(),
        filename: filename.to_string(),
        size,
    }
}

#[test]
fn register_claims_a_free_name() {
    let mut reg = Registry::new();
    assert_eq!(reg.register("alice".to_string(), "127.0.0.1:5000".to_string()), Ok(()));
    assert!(reg.is_registered(&"alice".to_string()));
}

#[test]
fn second_register_of_same_name_is_refused() {
    let mut reg = Registry::new();
    assert_eq!(reg.register("alice".to_string(), "127.0.0.1:5000".to_string()), Ok(()));
    assert_eq!(
        reg.register("alice".to_string(), "127.0.0.1:5001".to_string()),
        Err(RegistryError::AlreadyTaken)
    );
    // exactly one record: alice sees nobody else under that name
    assert_eq!(reg.list_others(&"alice".to_string()), Vec::<String>::new());
}

#[test]
fn list_others_excludes_the_caller() {
    let mut reg = Registry::new();
    reg.register("alice".to_string(), "a".to_string()).unwrap();
    reg.register("bob".to_string(), "b".to_string()).unwrap();
    reg.register("carol".to_string(), "c".to_string()).unwrap();
    assert_eq!(
        reg.list_others(&"bob".to_string()),
        vec!["alice".to_string(), "carol".to_string()]
    );
}

#[test]
fn add_request_appends_in_arrival_order() {
    let mut reg = Registry::new();
    reg.register("alice".to_string(), "a".to_string()).unwrap();
    reg.register("bob".to_string(), "b".to_string()).unwrap();
    assert_eq!(reg.add_request(&"bob".to_string(), request("alice", "one.txt", 1)), Ok(()));
    assert_eq!(reg.add_request(&"bob".to_string(), request("alice", "two.txt", 2)), Ok(()));
    let pending = reg.list_pending(&"bob".to_string());
    assert_eq!(
        pending,
        vec![request("alice", "one.txt", 1), request("alice", "two.txt", 2)]
    );
}

#[test]
fn add_request_to_unknown_user_fails_and_changes_nothing() {
    let mut reg = Registry::new();
    reg.register("alice".to_string(), "a".to_string()).unwrap();
    assert_eq!(
        reg.add_request(&"ghost".to_string(), request("alice", "one.txt", 1)),
        Err(RegistryError::NoSuchUser)
    );
    assert_eq!(reg.list_pending(&"alice".to_string()), Vec::<ShareRequest>::new());
}

#[test]
fn unregister_purges_requests_from_the_departed_sender() {
    let mut reg = Registry::new();
    reg.register("alice".to_string(), "a".to_string()).unwrap();
    reg.register("bob".to_string(), "b".to_string()).unwrap();
    reg.register("carol".to_string(), "c".to_string()).unwrap();
    reg.add_request(&"bob".to_string(), request("alice", "one.txt", 1)).unwrap();
    reg.add_request(&"bob".to_string(), request("carol", "keep.txt", 3)).unwrap();
    reg.add_request(&"carol".to_string(), request("alice", "two.txt", 2)).unwrap();

    reg.unregister(&"alice".to_string());

    assert!(!reg.is_registered(&"alice".to_string()));
    // no request from alice survives anywhere; others stay
    assert_eq!(
        reg.list_pending(&"bob".to_string()),
        vec![request("carol", "keep.txt", 3)]
    );
    assert_eq!(reg.list_pending(&"carol".to_string()), Vec::<ShareRequest>::new());
}

#[test]
fn unregister_twice_is_a_quiet_no_op() {
    let mut reg = Registry::new();
    reg.register("alice".to_string(), "a".to_string()).unwrap();
    reg.register("bob".to_string(), "b".to_string()).unwrap();
    reg.add_request(&"bob".to_string(), request("alice", "one.txt", 1)).unwrap();

    reg.unregister(&"alice".to_string());
    reg.unregister(&"alice".to_string());

    assert!(!reg.is_registered(&"alice".to_string()));
    assert!(reg.is_registered(&"bob".to_string()));
    assert_eq!(reg.list_others(&"bob".to_string()), Vec::<String>::new());
    assert_eq!(reg.list_pending(&"bob".to_string()), Vec::<ShareRequest>::new());
}

#[test]
fn unregister_of_never_registered_name_is_a_no_op() {
    let mut reg = Registry::new();
    reg.register("bob".to_string(), "b".to_string()).unwrap();
    reg.unregister(&"ghost".to_string());
    assert!(reg.is_registered(&"bob".to_string()));
}

#[test]
fn a_name_can_be_reused_after_unregister() {
    let mut reg = Registry::new();
    reg.register("alice".to_string(), "a".to_string()).unwrap();
    reg.unregister(&"alice".to_string());
    assert_eq!(reg.register("alice".to_string(), "a2".to_string()), Ok(()));
}

#[test]
fn resolve_removes_the_earliest_matching_request() {
    let mut reg = Registry::new();
    reg.register("alice".to_string(), "a".to_string()).unwrap();
    reg.register("bob".to_string(), "b".to_string()).unwrap();
    reg.add_request(&"bob".to_string(), request("alice", "first.txt", 1)).unwrap();
    reg.add_request(&"bob".to_string(), request("alice", "second.txt", 2)).unwrap();

    let taken = reg.resolve_request(&"bob".to_string(), &"alice".to_string(), true);
    assert_eq!(taken, Ok(request("alice", "first.txt", 1)));
    assert_eq!(
        reg.list_pending(&"bob".to_string()),
        vec![request("alice", "second.txt", 2)]
    );
}

#[test]
fn resolve_without_matching_request_reports_not_found() {
    let mut reg = Registry::new();
    reg.register("bob".to_string(), "b".to_string()).unwrap();
    assert_eq!(
        reg.resolve_request(&"bob".to_string(), &"alice".to_string(), false),
        Err(RegistryError::NotFound)
    );
    assert_eq!(
        reg.resolve_request(&"ghost".to_string(), &"alice".to_string(), true),
        Err(RegistryError::NotFound)
    );
}

#[test]
fn list_pending_of_unknown_user_is_empty() {
    let reg = Registry::new();
    assert_eq!(reg.list_pending(&"ghost".to_string()), Vec::<ShareRequest>::new());
}
