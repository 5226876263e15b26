use service_registry::registry::Registry;
use service_registry::service::{CreateServiceData, Service, Timestamp};

fn ts(secs: i64) -> Timestamp {
    Timestamp { unix_seconds: secs, offset_seconds: 7200 }
}

fn data(token: &str, user: i64, status: &str, cache: &str, username: &str) -> CreateServiceData {
    CreateServiceData {
        token: token.to_string(),
        user,
        status: status.to_string(),
        cache: cache.to_string(),
        username: username.to_string(),
    }
}

fn assert_same(a: &Service, b: &Service) {
    assert_eq!(a.id, b.id);
    assert_eq!(a.token, b.token);
    assert_eq!(a.user, b.user);
    assert_eq!(a.status, b.status);
    assert_eq!(a.created_time, b.created_time);
    assert_eq!(a.cache, b.cache);
    assert_eq!(a.username, b.username);
}

#[test]
fn create_assigns_distinct_ids() {
    let mut reg = Registry::new();
    let mut ids: Vec<i32> = Vec::new();
    for k in 0..5 {
        let svc = reg.create(data("t", 1 + k as i64, "new", "", "u"), ts(10)).unwrap();
        assert!(!ids.contains(&svc.id));
        ids.push(svc.id);
    }
}

#[test]
fn sixth_create_for_same_user_is_quota_exceeded() {
    let mut reg = Registry::new();
    for _ in 0..5 {
        reg.create(data("t1", 7, "new", "", "u"), ts(1)).unwrap();
    }
    assert_eq!(reg.count_for_user(7), 5);
    let res = reg.create(data("t1", 7, "new", "", "u"), ts(2));
    assert!(res.is_err());
    assert_eq!(reg.count_for_user(7), 5);
}

#[test]
fn get_after_create_returns_identical_record() {
    let mut reg = Registry::new();
    let created = reg.create(data("tok", 9, "fresh", "blob", "name"), ts(1234)).unwrap();
    let fetched = reg.get(created.id).unwrap();
    assert_same(&created, &fetched);
    assert_eq!(fetched.token, "tok");
    assert_eq!(fetched.user, 9);
    assert_eq!(fetched.status, "fresh");
    assert_eq!(fetched.cache, "blob");
    assert_eq!(fetched.username, "name");
    assert_eq!(fetched.created_time, ts(1234));
}

#[test]
fn get_after_delete_is_not_found() {
    let mut reg = Registry::new();
    let a = reg.create(data("t", 1, "s", "", "u"), ts(1)).unwrap();
    let b = reg.create(data("t", 2, "s", "", "u"), ts(2)).unwrap();
    let removed = reg.delete(a.id).unwrap();
    assert_same(&removed, &a);
    assert!(reg.get(a.id).is_none());
    assert!(reg.get(b.id).is_some());
    assert!(reg.delete(a.id).is_none());
}

#[test]
fn update_status_changes_only_status_and_is_idempotent() {
    let mut reg = Registry::new();
    let created = reg.create(data("tok", 3, "new", "payload", "disp"), ts(77)).unwrap();
    let once = reg.update_status(created.id, "running".to_string()).unwrap();
    assert_eq!(once.status, "running");
    assert_eq!(once.id, created.id);
    assert_eq!(once.token, created.token);
    assert_eq!(once.user, created.user);
    assert_eq!(once.cache, created.cache);
    assert_eq!(once.username, created.username);
    assert_eq!(once.created_time, created.created_time);
    let twice = reg.update_status(created.id, "running".to_string()).unwrap();
    assert_same(&once, &twice);
    let stored = reg.get(created.id).unwrap();
    assert_same(&twice, &stored);
}

#[test]
fn update_cache_changes_only_cache() {
    let mut reg = Registry::new();
    let created = reg.create(data("tok", 3, "new", "old-cache", "disp"), ts(77)).unwrap();
    let updated = reg.update_cache(created.id, "new-cache".to_string()).unwrap();
    assert_eq!(updated.cache, "new-cache");
    assert_eq!(updated.status, created.status);
    assert_eq!(updated.id, created.id);
    assert_eq!(updated.token, created.token);
    assert_eq!(updated.user, created.user);
    assert_eq!(updated.username, created.username);
    assert_eq!(updated.created_time, created.created_time);
}

#[test]
fn update_of_missing_id_is_not_found() {
    let mut reg = Registry::new();
    assert!(reg.update_status(12, "x".to_string()).is_none());
    assert!(reg.update_cache(12, "x".to_string()).is_none());
}

#[test]
fn list_is_ascending_by_id_and_complete() {
    let mut reg = Registry::new();
    for k in 0..4 {
        reg.create(data("t", 40 + k as i64, "s", "", "u"), ts(k)).unwrap();
    }
    reg.delete(2).unwrap();
    let all = reg.list();
    assert_eq!(all.len(), 3);
    for w in all.windows(2) {
        assert!(w[0].id < w[1].id);
    }
}

#[test]
fn quota_scenario_delete_frees_a_slot() {
    let mut reg = Registry::new();
    let mut ids: Vec<i32> = Vec::new();
    for _ in 0..5 {
        let svc = reg.create(data("t1", 7, "new", "", "u"), ts(1)).unwrap();
        assert!(!ids.contains(&svc.id));
        ids.push(svc.id);
    }
    assert!(reg.create(data("t1", 7, "new", "", "u"), ts(2)).is_err());
    reg.delete(ids[0]).unwrap();
    assert_eq!(reg.count_for_user(7), 4);
    let again = reg.create(data("t1", 7, "new", "", "u"), ts(3)).unwrap();
    assert!(!ids.contains(&again.id));
    assert_eq!(reg.count_for_user(7), 5);
}

#[test]
fn quota_is_per_owner() {
    let mut reg = Registry::new();
    for _ in 0..5 {
        reg.create(data("t", 7, "s", "", "u"), ts(1)).unwrap();
    }
    assert!(reg.create(data("t", 8, "s", "", "u"), ts(1)).is_ok());
}
