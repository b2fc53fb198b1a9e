//! Storage configuration, the storage manager's set of backends, and batch
//! results.
use vstd::prelude::*;

use crate::robots::{parse_u64_at, parse_u64_spec, trim, trimmed};
use crate::security::{pieces, split_ranges};
use crate::text::{chars_of, string_of};

verus! {

/// ScyllaDB connection settings.
pub struct ScyllaConfig {
    pub nodes: Vec<String>,
    pub keyspace: String,
    pub timeout_secs: u64,
    pub compression: Option<String>,
}

impl Default for ScyllaConfig {
    fn default() -> (r: ScyllaConfig)
        ensures
            r.nodes@.len() == 1,
            r.nodes@[0]@ == "127.0.0.1:9042"@,
            r.keyspace@ == "swoop"@,
            r.timeout_secs == 30,
            r.compression matches Some(c) && c@ == "lz4"@,
    {
        let mut nodes: Vec<String> = Vec::new();
        nodes.push(String::from_str("127.0.0.1:9042"));
        ScyllaConfig {
            nodes,
            keyspace: String::from_str("swoop"),
            timeout_secs: 30,
            compression: Some(String::from_str("lz4")),
        }
    }
}

/// S3-compatible storage settings.
pub struct S3Config {
    pub endpoint: String,
    pub access_key_id: String,
    pub secret_access_key: String,
    pub bucket: String,
    pub region: String,
}

impl Default for S3Config {
    fn default() -> (r: S3Config)
        ensures
            r.endpoint@ == "https://s3.amazonaws.com"@,
            r.access_key_id@.len() == 0,
            r.secret_access_key@.len() == 0,
            r.bucket@ == "swoop-data"@,
            r.region@ == "us-east-1"@,
    {
        S3Config {
            endpoint: String::from_str("https://s3.amazonaws.com"),
            access_key_id: String::new(),
            secret_access_key: String::new(),
            bucket: String::from_str("swoop-data"),
            region: String::from_str("us-east-1"),
        }
    }
}

/// Settings of both storage systems.
pub struct StorageConfig {
    pub scylla: ScyllaConfig,
    pub s3: S3Config,
}

impl Default for StorageConfig {
    fn default() -> (r: StorageConfig)
        ensures
            r.scylla.keyspace@ == "swoop"@,
            r.s3.bucket@ == "swoop-data"@,
    {
        StorageConfig { scylla: ScyllaConfig::default(), s3: S3Config::default() }
    }
}

/// The storage backends in use: primary (ScyllaDB) and archive (S3). The
/// connections themselves are opened by the caller from these settings.
pub struct StorageManager {
    pub scylla_store: Option<ScyllaConfig>,
    pub s3_store: Option<S3Config>,
}

impl StorageManager {
    /// A manager with no backend.
    pub fn new() -> (r: StorageManager)
        ensures
            r.scylla_store is None,
            r.s3_store is None,
    {
        StorageManager { scylla_store: None, s3_store: None }
    }

    pub fn with_scylla(self, config: ScyllaConfig) -> (r: StorageManager)
        ensures
            r.scylla_store == Some(config),
            r.s3_store == self.s3_store,
    {
        StorageManager { scylla_store: Some(config), ..self }
    }

    pub fn with_s3(self, config: S3Config) -> (r: StorageManager)
        ensures
            r.s3_store == Some(config),
            r.scylla_store == self.scylla_store,
    {
        StorageManager { s3_store: Some(config), ..self }
    }

    /// Whether content can be stored: only with a primary backend.
    pub fn has_primary(&self) -> (r: bool)
        ensures
            r == self.scylla_store is Some,
    {
        self.scylla_store.is_some()
    }
}

impl Default for StorageManager {
    fn default() -> (r: StorageManager)
        ensures
            r.scylla_store is None,
            r.s3_store is None,
    {
        StorageManager::new()
    }
}

/// Outcome counts of a batch of storage operations.
pub struct BatchResult {
    pub success_count: u32,
    pub error_count: u32,
    pub errors: Vec<String>,
    pub processing_time_ms: u64,
}

impl BatchResult {
    pub fn new() -> (r: BatchResult)
        ensures
            r.success_count == 0,
            r.error_count == 0,
            r.errors@.len() == 0,
            r.processing_time_ms == 0,
    {
        BatchResult { success_count: 0, error_count: 0, errors: Vec::new(), processing_time_ms: 0 }
    }

    pub fn add_success(&mut self)
        requires
            old(self).success_count < u32::MAX,
        ensures
            final(self).success_count == old(self).success_count + 1,
            final(self).error_count == old(self).error_count,
            final(self).errors@ == old(self).errors@,
            final(self).processing_time_ms == old(self).processing_time_ms,
    {
        self.success_count = self.success_count + 1;
    }

    pub fn add_error(&mut self, error: String)
        requires
            old(self).error_count < u32::MAX,
        ensures
            final(self).error_count == old(self).error_count + 1,
            final(self).errors@ == old(self).errors@.push(error),
            final(self).success_count == old(self).success_count,
            final(self).processing_time_ms == old(self).processing_time_ms,
    {
        self.error_count = self.error_count + 1;
        self.errors.push(error);
    }

    /// A batch succeeded when no operation failed.
    pub fn is_success(&self) -> (r: bool)
        ensures
            r == (self.error_count == 0),
    {
        self.error_count == 0
    }

    pub fn total_operations(&self) -> (r: u32)
        requires
            self.success_count + self.error_count <= u32::MAX,
        ensures
            r == self.success_count + self.error_count,
    {
        self.success_count + self.error_count
    }
}

impl Default for BatchResult {
    fn default() -> (r: BatchResult)
        ensures
            r.success_count == 0,
            r.error_count == 0,
            r.errors@.len() == 0,
            r.processing_time_ms == 0,
    {
        BatchResult::new()
    }
}

/// A setting that is missing or unusable.
#[derive(Debug)]
pub enum ConfigError {
    /// A required variable is not set.
    MissingVariable { name: String },
    /// An access key or secret is empty.
    EmptyCredentials,
}

pub open spec fn or_default(v: Option<String>, d: Seq<char>) -> Seq<char> {
    match v {
        Some(s) => s@,
        None => d,
    }
}

fn value_or(v: Option<String>, d: &str) -> (r: String)
    ensures
        r@ == or_default(v, d@),
{
    match v {
        Some(s) => s,
        None => String::from_str(d),
    }
}

/// S3 settings whose credentials stay outside the struct.
pub struct SecureS3Config {
    pub endpoint: String,
    pub bucket: String,
    pub region: String,
}

impl SecureS3Config {
    /// Settings from the values of `S3_ENDPOINT`, `S3_BUCKET` and
    /// `S3_REGION`; the bucket is required.
    pub fn from_values(endpoint: Option<String>, bucket: Option<String>, region: Option<String>) -> (r: Result<SecureS3Config, ConfigError>)
        ensures
            bucket is None ==> (r matches Err(ConfigError::MissingVariable { name }) && name@ == "S3_BUCKET"@),
            bucket matches Some(b) ==> (r matches Ok(c) && c.bucket@ == b@
                && c.endpoint@ == or_default(endpoint, "https://s3.amazonaws.com"@)
                && c.region@ == or_default(region, "us-east-1"@)),
    {
        match bucket {
            None => Err(ConfigError::MissingVariable { name: String::from_str("S3_BUCKET") }),
            Some(b) => Ok(SecureS3Config {
                endpoint: value_or(endpoint, "https://s3.amazonaws.com"),
                bucket: b,
                region: value_or(region, "us-east-1"),
            }),
        }
    }

    /// Credentials from the values of `AWS_ACCESS_KEY_ID` and
    /// `AWS_SECRET_ACCESS_KEY`; both are required and must not be empty.
    pub fn credentials_from_values(access_key: Option<String>, secret_key: Option<String>) -> (r: Result<(String, String), ConfigError>)
        ensures
            access_key is None ==> (r matches Err(ConfigError::MissingVariable { name }) && name@ == "AWS_ACCESS_KEY_ID"@),
            access_key is Some && secret_key is None ==> (r matches Err(ConfigError::MissingVariable { name })
                && name@ == "AWS_SECRET_ACCESS_KEY"@),
            access_key matches Some(a) ==> (secret_key matches Some(k) ==> if a@.len() == 0 || k@.len() == 0 {
                r matches Err(ConfigError::EmptyCredentials)
            } else {
                (r matches Ok((x, y)) && x@ == a@ && y@ == k@)
            }),
    {
        let a = match access_key {
            None => return Err(ConfigError::MissingVariable { name: String::from_str("AWS_ACCESS_KEY_ID") }),
            Some(a) => a,
        };
        let k = match secret_key {
            None => return Err(ConfigError::MissingVariable { name: String::from_str("AWS_SECRET_ACCESS_KEY") }),
            Some(k) => k,
        };
        if a.as_str().unicode_len() == 0 || k.as_str().unicode_len() == 0 {
            return Err(ConfigError::EmptyCredentials);
        }
        Ok((a, k))
    }
}

/// ScyllaDB settings read from the environment.
pub struct SecureScyllaConfig {
    pub nodes: Vec<String>,
    pub keyspace: String,
    pub timeout_secs: u64,
}

impl Default for SecureScyllaConfig {
    fn default() -> (r: SecureScyllaConfig)
        ensures
            r.nodes@.len() == 1,
            r.nodes@[0]@ == "127.0.0.1:9042"@,
            r.keyspace@ == "swoop"@,
            r.timeout_secs == 30,
    {
        let mut nodes: Vec<String> = Vec::new();
        nodes.push(String::from_str("127.0.0.1:9042"));
        SecureScyllaConfig { nodes, keyspace: String::from_str("swoop"), timeout_secs: 30 }
    }
}

/// The trimmed comma-separated entries of `s`.
pub open spec fn node_list(s: Seq<char>) -> Seq<Seq<char>> {
    Seq::new(pieces(s, ',').len(), |i: int| trim(pieces(s, ',')[i]))
}

impl SecureScyllaConfig {
    /// Settings from the values of `SCYLLA_NODES` (comma-separated),
    /// `SCYLLA_KEYSPACE` and `SCYLLA_TIMEOUT_SECS`, each with its default; an
    /// unreadable timeout counts as 30 seconds.
    pub fn from_values(nodes: Option<String>, keyspace: Option<String>, timeout_secs: Option<String>) -> (r: SecureScyllaConfig)
        ensures
            r.nodes@.map_values(|n: String| n@) == node_list(or_default(nodes, "127.0.0.1:9042"@)),
            r.keyspace@ == or_default(keyspace, "swoop"@),
            r.timeout_secs == match parse_u64_spec(or_default(timeout_secs, "30"@)) {
                Some(t) => t,
                None => 30,
            },
    {
        let text = value_or(nodes, "127.0.0.1:9042");
        let cs = chars_of(text.as_str());
        let ranges = split_ranges(&cs, ',');
        let mut list: Vec<String> = Vec::new();
        let mut i: usize = 0;
        while i < ranges.len()
            invariant
                cs@ == text@,
                ranges@.len() == pieces(cs@, ',').len(),
                forall|j: int| 0 <= j < ranges@.len() ==> {
                    &&& (#[trigger] ranges@[j]).0 <= ranges@[j].1 <= cs@.len()
                    &&& cs@.subrange(ranges@[j].0 as int, ranges@[j].1 as int) == pieces(cs@, ',')[j]
                },
                i <= ranges@.len(),
                list@.len() == i,
                forall|j: int| 0 <= j < i ==> (#[trigger] list@[j])@ == trim(pieces(cs@, ',')[j]),
            decreases ranges@.len() - i,
        {
            let (a, b) = trimmed(&cs, ranges[i].0, ranges[i].1);
            list.push(string_of(&cs, a, b));
            i = i + 1;
        }
        assert(list@.map_values(|n: String| n@) =~= node_list(text@));
        let t = value_or(timeout_secs, "30");
        let tc = chars_of(t.as_str());
        assert(tc@.subrange(0, tc@.len() as int) =~= tc@);
        let timeout = match parse_u64_at(&tc, 0, tc.len()) {
            Some(v) => v,
            None => 30,
        };
        SecureScyllaConfig { nodes: list, keyspace: value_or(keyspace, "swoop"), timeout_secs: timeout }
    }
}

} // verus!
