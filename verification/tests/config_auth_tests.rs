use central_repository::auth::{authorize_login, verify_admin, DebugMode, UserPassword};
use central_repository::config::Config;
use central_repository::entitlement::User;
use central_repository::error::APIError;

fn valid_config() -> Config {
    Config {
        database_url: "postgres://localhost/db".to_string(),
        http_address: "127.0.0.1".to_string(),
        http_port: 8000,
        db_pool_max_conn: 100,
        db_pool_min_conn: 10,
        ed25519_signing_key: "SECRET-REDACTED".to_string(),
        token_expiration_seconds: 300,
        bulk_insert_chunk_size: 200,
        protect_superuser: true,
        max_pagination_size: 1000,
        default_pagination_size: 1000,
        workers: 16,
        return_query_count: true,
        max_json_payload_size: 100000,
        db_acquire_connection_timeout_sec: 30,
        db_csv_stream_workers: 1,
        db_csv_transform_workers: 2,
        db_csv_worker_queue_depth: 200,
        max_api_keys_per_user: 10,
        token_api_key_expiration_hours: 720,
        db_max_streams_per_user: 2,
        temporal_delete_hours: 24,
        enable_prune_job: true,
        prune_job_run_interval_seconds: 600,
        prune_job_timeout_seconds: 300,
    }
}

#[test]
fn a_valid_config_passes() {
    assert!(valid_config().verify().is_ok());
}

#[test]
fn zero_pagination_size_fails() {
    let config = Config { max_pagination_size: 0, ..valid_config() };
    assert!(config.verify().is_err());
}

#[test]
fn default_page_size_may_not_exceed_the_maximum() {
    let config =
        Config { default_pagination_size: 2000, max_pagination_size: 1000, ..valid_config() };
    assert!(config.verify().is_err());
}

#[test]
fn pool_bounds_are_ordered() {
    let config = Config { db_pool_min_conn: 200, db_pool_max_conn: 100, ..valid_config() };
    assert!(config.verify().is_err());
}

#[test]
fn prune_intervals_matter_only_when_the_job_is_on() {
    let off = Config {
        enable_prune_job: false,
        prune_job_run_interval_seconds: 0,
        ..valid_config()
    };
    assert!(off.verify().is_ok());
    let on = Config {
        enable_prune_job: true,
        prune_job_run_interval_seconds: 0,
        ..valid_config()
    };
    assert!(on.verify().is_err());
}

#[test]
fn zero_stream_workers_fail() {
    let config = Config { db_csv_stream_workers: 0, ..valid_config() };
    assert!(config.verify().is_err());
}

#[test]
fn hash_then_verify_round_trips() {
    let password = UserPassword { password: "hunter2".to_string() };
    let hash = password.to_hash().expect("hashing succeeds");
    assert!(UserPassword::verify_password(&"hunter2".to_string(), &hash).is_ok());
    assert_eq!(
        UserPassword::verify_password(&"wrong".to_string(), &hash),
        Err(APIError::InvalidCredentials)
    );
}

#[test]
fn garbage_stored_hash_is_a_server_fault() {
    assert_eq!(
        UserPassword::verify_password(&"hunter2".to_string(), "not a phc string"),
        Err(APIError::ServerError)
    );
}

fn account(active: bool) -> User {
    let hash = UserPassword { password: "hunter2".to_string() }
        .to_hash()
        .expect("hashing succeeds");
    User {
        id: 7,
        username: "alice".to_string(),
        password: hash,
        is_superuser: false,
        active,
    }
}

#[test]
fn login_accepts_the_right_password_only() {
    let user = account(true);
    assert!(authorize_login(Some(&user), &"hunter2".to_string()).is_ok());
    assert_eq!(
        authorize_login(Some(&user), &"wrong".to_string()),
        Err(APIError::InvalidCredentials)
    );
    assert_eq!(
        authorize_login(None, &"hunter2".to_string()),
        Err(APIError::InvalidCredentials)
    );
}

#[test]
fn login_rejects_inactive_accounts_before_the_password() {
    let user = account(false);
    assert_eq!(
        authorize_login(Some(&user), &"hunter2".to_string()),
        Err(APIError::InactiveUser)
    );
}

#[test]
fn admin_guard_follows_the_superuser_flag() {
    let user = account(true);
    assert_eq!(verify_admin(&user), Err(APIError::AdminOnlyResource));
    let admin = User { is_superuser: true, ..account(true) };
    assert!(verify_admin(&admin).is_ok());
}

#[test]
fn debug_mode_defaults_to_off() {
    assert!(!DebugMode { debug: None }.enabled());
    assert!(!DebugMode { debug: Some(false) }.enabled());
    assert!(DebugMode { debug: Some(true) }.enabled());
}
