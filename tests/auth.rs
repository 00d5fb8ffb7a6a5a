use std::cell::Cell;
use std::sync::Arc;

use auth_service::{gate_request, select_user, AuthError, AuthService, Authenticate, Database, SessionCache, User};

fn user(id: u64, name: &str) -> User {
    User { id, username: name.to_string(), email: format!("{}@example.com", name) }
}

/// A store double that knows fixed accounts and counts its queries.
struct CountingStore {
    accounts: Vec<(u64, String, String)>,
    calls: Cell<usize>,
}

impl CountingStore {
    fn new(accounts: &[(u64, &str, &str)]) -> Self {
        CountingStore {
            accounts: accounts.iter().map(|(id, n, p)| (*id, n.to_string(), p.to_string())).collect(),
            calls: Cell::new(0),
        }
    }
}

impl Database for CountingStore {
    fn query(&self, username: &str, password: &str) -> Result<Vec<User>, AuthError> {
        self.calls.set(self.calls.get() + 1);
        for (id, n, p) in &self.accounts {
            if n == username && p == password {
                return Ok(vec![user(*id, n)]);
            }
        }
        Err(AuthError::InvalidCredentials)
    }
}

/// A store double that always fails with the same error.
struct FailingStore {
    error: AuthError,
    calls: Cell<usize>,
}

impl Database for FailingStore {
    fn query(&self, _username: &str, _password: &str) -> Result<Vec<User>, AuthError> {
        self.calls.set(self.calls.get() + 1);
        Err(self.error.clone())
    }
}

/// A store double that answers with fixed rows.
struct RowsStore {
    rows: Vec<User>,
}

impl Database for RowsStore {
    fn query(&self, _username: &str, _password: &str) -> Result<Vec<User>, AuthError> {
        Ok(self.rows.clone())
    }
}

#[test]
fn cache_hit_returns_same_user_without_store() {
    let store = Arc::new(CountingStore::new(&[(11, "alice", "pw")]));
    let mut svc = AuthService::new(store.clone());
    let first = svc.authenticate("alice", "pw").unwrap();
    assert_eq!(store.calls.get(), 1);
    // A hit does not check the password again.
    let second = svc.authenticate("alice", "anything").unwrap();
    assert_eq!(second, first);
    assert_eq!(store.calls.get(), 1);
}

#[test]
fn cache_miss_queries_store_once_and_populates() {
    let store = Arc::new(CountingStore::new(&[(5, "bob", "pw")]));
    let mut svc = AuthService::new(store.clone());
    assert_eq!(svc.cache().len(), 0);
    let bob = svc.authenticate("bob", "pw").unwrap();
    assert_eq!(store.calls.get(), 1);
    assert_eq!(svc.cache().get("bob"), Some(bob));
    assert_eq!(svc.cache().len(), 1);
}

#[test]
fn logout_without_session_succeeds() {
    let store = Arc::new(CountingStore::new(&[]));
    let mut svc = AuthService::new(store);
    assert!(svc.logout(42).is_ok());
    assert!(svc.logout(42).is_ok());
    assert_eq!(svc.cache().len(), 0);
}

#[test]
fn logout_evicts_sessions_of_that_user() {
    let store = Arc::new(CountingStore::new(&[(1, "alice", "pw"), (2, "dave", "pw")]));
    let mut svc = AuthService::new(store.clone());
    svc.authenticate("alice", "pw").unwrap();
    svc.authenticate("dave", "pw").unwrap();
    assert!(svc.logout(1).is_ok());
    assert_eq!(svc.cache().get("alice"), None);
    assert_eq!(svc.cache().get("dave"), Some(user(2, "dave")));
    assert_eq!(svc.cache().len(), 1);
    // With the session gone the password is checked again.
    assert_eq!(svc.authenticate("alice", "wrong"), Err(AuthError::InvalidCredentials));
    assert_eq!(store.calls.get(), 3);
}

#[test]
fn invalid_credentials_propagate_and_leave_cache() {
    let store = Arc::new(CountingStore::new(&[(3, "erin", "pw")]));
    let mut svc = AuthService::new(store.clone());
    assert_eq!(svc.authenticate("erin", "bad"), Err(AuthError::InvalidCredentials));
    assert_eq!(svc.cache().get("erin"), None);
    assert_eq!(svc.cache().len(), 0);
    // A failure is not cached: the next attempt asks the store again.
    assert_eq!(svc.authenticate("erin", "pw"), Ok(user(3, "erin")));
    assert_eq!(store.calls.get(), 2);
}

#[test]
fn store_error_keeps_its_detail() {
    let store = Arc::new(FailingStore { error: AuthError::StoreError("connection reset".to_string()), calls: Cell::new(0) });
    let mut svc = AuthService::new(store.clone());
    assert_eq!(svc.authenticate("frank", "pw"), Err(AuthError::StoreError("connection reset".to_string())));
    assert_eq!(store.calls.get(), 1);
    assert_eq!(svc.cache().len(), 0);
}

#[test]
fn timeout_is_surfaced_not_retried() {
    let store = Arc::new(FailingStore { error: AuthError::Timeout, calls: Cell::new(0) });
    let mut svc = AuthService::new(store.clone());
    assert_eq!(svc.authenticate("gina", "pw"), Err(AuthError::Timeout));
    assert_eq!(store.calls.get(), 1);
    assert_eq!(svc.cache().get("gina"), None);
}

#[test]
fn racing_misses_leave_one_entry() {
    let mut cache = SessionCache::new();
    // Both callers miss before either writes.
    assert_eq!(cache.get("carol"), None);
    assert_eq!(cache.get("carol"), None);
    let first: Result<User, AuthError> = Ok(user(8, "carol"));
    let second: Result<User, AuthError> = Ok(user(9, "carol"));
    cache.record(&first);
    cache.record(&second);
    assert_eq!(cache.len(), 1);
    assert_eq!(cache.get("carol"), Some(user(9, "carol")));
}

#[test]
fn returned_user_carries_input_username() {
    let store = Arc::new(CountingStore::new(&[(77, "heidi", "pw")]));
    let mut svc = AuthService::new(store);
    let u = svc.authenticate("heidi", "pw").unwrap();
    assert_eq!(u.username, "heidi");
    assert_eq!(u.id, 77);
    assert_eq!(u.email, "heidi@example.com");
}

#[test]
fn store_rows_for_other_names_are_rejected() {
    let store = Arc::new(RowsStore { rows: vec![user(1, "mallory")] });
    let mut svc = AuthService::new(store);
    assert_eq!(svc.authenticate("ivan", "pw"), Err(AuthError::InvalidCredentials));
    assert_eq!(svc.cache().len(), 0);
}

#[test]
fn select_user_takes_first_matching_row() {
    let rows = vec![user(1, "a"), user(2, "judy"), user(3, "judy")];
    assert_eq!(select_user("judy", Ok(rows)), Ok(user(2, "judy")));
}

#[test]
fn select_user_without_match_rejects() {
    assert_eq!(select_user("judy", Ok(vec![user(1, "a")])), Err(AuthError::InvalidCredentials));
    assert_eq!(select_user("judy", Ok(vec![])), Err(AuthError::InvalidCredentials));
}

#[test]
fn select_user_passes_store_errors_on() {
    assert_eq!(select_user("judy", Err(AuthError::Timeout)), Err(AuthError::Timeout));
    assert_eq!(
        select_user("judy", Err(AuthError::StoreError("x".to_string()))),
        Err(AuthError::StoreError("x".to_string()))
    );
}

#[test]
fn put_overwrites_entry_for_same_username() {
    let mut cache = SessionCache::new();
    cache.put(user(1, "kim"));
    cache.put(user(2, "lee"));
    cache.put(user(3, "kim"));
    assert_eq!(cache.len(), 2);
    assert_eq!(cache.get("kim"), Some(user(3, "kim")));
    assert_eq!(cache.get("lee"), Some(user(2, "lee")));
    assert_eq!(cache.get("nobody"), None);
}

#[test]
fn failed_record_leaves_cache() {
    let mut cache = SessionCache::new();
    cache.put(user(1, "kim"));
    cache.record(&Err(AuthError::Timeout));
    assert_eq!(cache.len(), 1);
    assert_eq!(cache.get("kim"), Some(user(1, "kim")));
}

#[test]
fn evict_user_id_drops_only_that_user() {
    let mut cache = SessionCache::new();
    cache.put(user(1, "kim"));
    cache.put(user(2, "lee"));
    cache.put(user(1, "kim2"));
    cache.evict_user_id(1);
    assert_eq!(cache.len(), 1);
    assert_eq!(cache.get("lee"), Some(user(2, "lee")));
    assert_eq!(cache.get("kim"), None);
    assert_eq!(cache.get("kim2"), None);
}

#[test]
fn hash_password_gives_argon2id_phc_string() {
    let salt = [7u8; 16];
    let h = AuthService::hash_password("secret", &salt).unwrap();
    assert!(h.starts_with("$argon2id$v=19$"));
    assert_ne!(h, "hashed_secret");
    assert!(!h.contains("secret"));
    assert_eq!(AuthService::hash_password("secret", &salt), Some(h));
}

#[test]
fn hash_password_depends_on_salt_and_password() {
    let a = AuthService::hash_password("secret", &[1u8; 16]).unwrap();
    let b = AuthService::hash_password("secret", &[2u8; 16]).unwrap();
    let c = AuthService::hash_password("secreT", &[1u8; 16]).unwrap();
    assert_ne!(a, b);
    assert_ne!(a, c);
}

#[test]
fn hash_password_salt_length_bounds() {
    assert_eq!(AuthService::hash_password("pw", &[0u8; 7]), None);
    assert_eq!(AuthService::hash_password("pw", &[0u8; 49]), None);
    assert!(AuthService::hash_password("pw", &[0u8; 8]).is_some());
    assert!(AuthService::hash_password("", &[0u8; 48]).is_some());
}

#[test]
fn finish_caches_selected_user() {
    let mut cache = SessionCache::new();
    let r = cache.finish("nina", Ok(vec![user(1, "other"), user(4, "nina")]));
    assert_eq!(r, Ok(user(4, "nina")));
    assert_eq!(cache.get("nina"), Some(user(4, "nina")));
    assert_eq!(cache.finish("omar", Ok(vec![])), Err(AuthError::InvalidCredentials));
    assert_eq!(cache.finish("omar", Err(AuthError::Timeout)), Err(AuthError::Timeout));
    assert_eq!(cache.len(), 1);
}

#[test]
fn gate_request_admits_only_authenticated() {
    assert_eq!(gate_request(true), Ok(()));
    assert_eq!(gate_request(false), Err(AuthError::InvalidCredentials));
}
