use casa::auth::jwt_secret;
use casa::config::{get, init, Config, ConfigStore};

fn sample() -> Config {
    Config::new("ana@example.com".to_string(), "pw".to_string(), "s3cr3t".to_string())
}

#[test]
fn store_starts_empty() {
    let store = ConfigStore::new();
    assert!(!store.is_initialized());
}

#[test]
fn get_returns_what_init_stored() {
    let mut store = ConfigStore::new();
    init(&mut store, sample());
    assert!(store.is_initialized());
    let c = get(&store);
    assert_eq!(c.login_email, "ana@example.com");
    assert_eq!(c.password, "pw");
    assert_eq!(c.jwt_secret, "s3cr3t");
}

#[test]
fn jwt_secret_reads_the_configuration() {
    let mut store = ConfigStore::new();
    init(&mut store, sample());
    assert_eq!(jwt_secret(&store), "s3cr3t");
}
