use vstd::prelude::*;
use vstd::string::StringExecFns;

verus! {

/// The process configuration, read once at start and immutable
/// afterwards.
#[derive(Debug, PartialEq, Eq)]
pub struct Config {
    pub database_url: String,
    pub http_address: String,
    pub http_port: u16,
    pub db_pool_max_conn: u32,
    pub db_pool_min_conn: u32,
    pub ed25519_signing_key: String,
    pub token_expiration_seconds: u32,
    pub bulk_insert_chunk_size: u32,
    pub protect_superuser: bool,
    pub max_pagination_size: u64,
    pub default_pagination_size: u64,
    pub workers: u8,
    pub return_query_count: bool,
    pub max_json_payload_size: u64,
    pub db_acquire_connection_timeout_sec: u64,
    pub db_csv_stream_workers: u64,
    pub db_csv_transform_workers: u64,
    pub db_csv_worker_queue_depth: u64,
    pub max_api_keys_per_user: u64,
    pub token_api_key_expiration_hours: u64,
    pub db_max_streams_per_user: u64,
    pub temporal_delete_hours: u64,
    pub enable_prune_job: bool,
    pub prune_job_run_interval_seconds: u64,
    pub prune_job_timeout_seconds: u64,
}

impl Config {
    /// Whether every knob is inside its legal range.
    pub open spec fn spec_valid(&self) -> bool {
        &&& self.max_pagination_size > 0
        &&& self.default_pagination_size > 0
        &&& self.default_pagination_size <= self.max_pagination_size
        &&& self.bulk_insert_chunk_size > 0
        &&& self.token_expiration_seconds > 0
        &&& self.db_pool_min_conn > 0
        &&& self.db_pool_min_conn <= self.db_pool_max_conn
        &&& self.workers > 0
        &&& self.max_json_payload_size > 0
        &&& self.db_acquire_connection_timeout_sec > 0
        &&& self.db_csv_stream_workers > 0
        &&& self.db_csv_transform_workers > 0
        &&& self.db_csv_worker_queue_depth > 0
        &&& self.max_api_keys_per_user > 0
        &&& self.token_api_key_expiration_hours > 0
        &&& self.db_max_streams_per_user > 0
        &&& self.temporal_delete_hours > 0
        &&& (self.enable_prune_job ==> self.prune_job_run_interval_seconds > 0
            && self.prune_job_timeout_seconds > 0)
    }

    /// Check every knob against its legal range, naming the first one
    /// that is off.
    pub fn verify(&self) -> (r: Result<(), String>)
        ensures
            r is Ok <==> self.spec_valid(),
    {
        if self.max_pagination_size == 0 {
            return Err(String::from_str("MAX_PAGINATION_SIZE must be greater than 0"));
        }
        if self.default_pagination_size == 0 {
            return Err(String::from_str("DEFAULT_PAGINATION_SIZE must be greater than 0"));
        }
        if self.default_pagination_size > self.max_pagination_size {
            return Err(
                String::from_str("DEFAULT_PAGINATION_SIZE must be less than MAX_PAGINATION_SIZE"),
            );
        }
        if self.bulk_insert_chunk_size == 0 {
            return Err(String::from_str("BULK_INSERT_CHUNK_SIZE must be greater than 0"));
        }
        if self.token_expiration_seconds == 0 {
            return Err(String::from_str("TOKEN_EXPIRATION_SECONDS must be greater than 0"));
        }
        if self.db_pool_min_conn == 0 {
            return Err(String::from_str("DB_POOL_MIN_CONN must be greater than 0"));
        }
        if self.db_pool_min_conn > self.db_pool_max_conn {
            return Err(String::from_str("DB_POOL_MIN_CONN must be less than DB_POOL_MAX_CONN"));
        }
        if self.workers == 0 {
            return Err(String::from_str("WORKERS must be greater than 0"));
        }
        if self.max_json_payload_size == 0 {
            return Err(String::from_str("MAX_JSON_PAYLOAD_SIZE must be greater than 0"));
        }
        if self.db_acquire_connection_timeout_sec == 0 {
            return Err(
                String::from_str("DB_ACQUIRE_CONNECTION_TIMEOUT_SEC must be greater than 0"),
            );
        }
        if self.db_csv_stream_workers == 0 {
            return Err(String::from_str("DB_CSV_STREAM_WORKERS must be greater than 0"));
        }
        if self.db_csv_transform_workers == 0 {
            return Err(String::from_str("DB_CSV_TRANSFORM_WORKERS must be greater than 0"));
        }
        if self.db_csv_worker_queue_depth == 0 {
            return Err(String::from_str("DB_CSV_WORKER_QUEUE_DEPTH must be greater than 0"));
        }
        if self.max_api_keys_per_user == 0 {
            return Err(String::from_str("MAX_API_KEYS_PER_USER must be greater than 0"));
        }
        if self.token_api_key_expiration_hours == 0 {
            return Err(String::from_str("TOKEN_API_KEY_EXPIRATION_HOURS must be greater than 0"));
        }
        if self.db_max_streams_per_user == 0 {
            return Err(String::from_str("DB_MAX_STREAMS_PER_USER must be greater than 0"));
        }
        if self.temporal_delete_hours == 0 {
            return Err(String::from_str("TEMPORAL_DELETE_HOURS must be greater than 0"));
        }
        if self.enable_prune_job {
            if self.prune_job_run_interval_seconds == 0 {
                return Err(
                    String::from_str("PRUNE_JOB_RUN_INTERVAL_SECONDS must be greater than 0"),
                );
            }
            if self.prune_job_timeout_seconds == 0 {
                return Err(String::from_str("PRUNE_JOB_TIMEOUT_SECONDS must be greater than 0"));
            }
        }
        Ok(())
    }
}

} // verus!
