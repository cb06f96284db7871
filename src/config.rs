use vstd::prelude::*;
use crate::normalize::opt_view;
use crate::schedule::SchedulerConfig;
use crate::text::{parse_i64, parse_sources, parse_u64, signed_value, source_list, unsigned_value, views};

verus! {

/// The value of the last variable named `key` in an environment snapshot.
pub open spec fn env_lookup(env: Seq<(String, String)>, key: Seq<char>) -> Option<Seq<char>>
    decreases env.len(),
{
    if env.len() == 0 {
        None
    } else if env.last().0@ == key {
        Some(env.last().1@)
    } else {
        env_lookup(env.drop_last(), key)
    }
}

/// The value of the variable named `key`, if it is set.
pub fn env_var(env: &Vec<(String, String)>, key: &str) -> (r: Option<String>)
    ensures
        opt_view(r) == env_lookup(env@, key@),
{
    let k = key.to_owned();
    let mut i: usize = env.len();
    assert(env@.subrange(0, i as int) =~= env@);
    while i > 0
        invariant
            i <= env@.len(),
            k@ == key@,
            env_lookup(env@, key@) == env_lookup(env@.subrange(0, i as int), key@),
        decreases i,
    {
        assert(env@.subrange(0, i as int).drop_last() =~= env@.subrange(0, i - 1));
        if env[i - 1].0 == k {
            return Some(env[i - 1].1.clone());
        }
        i = i - 1;
    }
    None
}

/// A numeric setting: the variable read as an unsigned number at most `max`,
/// else `default`.
pub open spec fn unsigned_setting(env: Seq<(String, String)>, key: Seq<char>, max: int, default: int) -> int {
    match env_lookup(env, key) {
        Some(v) => match unsigned_value(v) {
            Some(x) => if x <= max { x } else { default },
            None => default,
        },
        None => default,
    }
}

/// A signed numeric setting: the variable read as an `i64`, else `default`.
pub open spec fn signed_setting(env: Seq<(String, String)>, key: Seq<char>, default: int) -> int {
    match env_lookup(env, key) {
        Some(v) => match signed_value(v) {
            Some(x) => if i64::MIN <= x <= i64::MAX { x } else { default },
            None => default,
        },
        None => default,
    }
}

/// A text setting: the variable, else `default`.
pub open spec fn text_setting(env: Seq<(String, String)>, key: Seq<char>, default: Seq<char>) -> Seq<char> {
    match env_lookup(env, key) {
        Some(v) => v,
        None => default,
    }
}

/// A number of seconds: the variable read as a `u64`, else `default`.
pub fn env_duration(env: &Vec<(String, String)>, key: &str, default: u64) -> (r: u64)
    ensures
        r == unsigned_setting(env@, key@, u64::MAX as int, default as int),
{
    match env_var(env, key) {
        Some(v) => match parse_u64(v.as_str()) {
            Some(x) => x,
            None => default,
        },
        None => default,
    }
}

/// The variable read as a `u32`, else `default`.
pub fn env_u32(env: &Vec<(String, String)>, key: &str, default: u32) -> (r: u32)
    ensures
        r == unsigned_setting(env@, key@, u32::MAX as int, default as int),
{
    match env_var(env, key) {
        Some(v) => match parse_u64(v.as_str()) {
            Some(x) => if x <= 4_294_967_295u64 { x as u32 } else { default },
            None => default,
        },
        None => default,
    }
}

/// The variable read as a `u16`, else `default`.
pub fn env_u16(env: &Vec<(String, String)>, key: &str, default: u16) -> (r: u16)
    ensures
        r == unsigned_setting(env@, key@, u16::MAX as int, default as int),
{
    match env_var(env, key) {
        Some(v) => match parse_u64(v.as_str()) {
            Some(x) => if x <= 65_535u64 { x as u16 } else { default },
            None => default,
        },
        None => default,
    }
}

/// The variable read as an `i64`, else `default`.
pub fn env_i64(env: &Vec<(String, String)>, key: &str, default: i64) -> (r: i64)
    ensures
        r == signed_setting(env@, key@, default as int),
{
    match env_var(env, key) {
        Some(v) => match parse_i64(v.as_str()) {
            Some(x) => x,
            None => default,
        },
        None => default,
    }
}

/// The variable, else `default`.
fn env_text(env: &Vec<(String, String)>, key: &str, default: &str) -> (r: String)
    ensures
        r@ == text_setting(env@, key@, default@),
{
    match env_var(env, key) {
        Some(v) => v,
        None => default.to_owned(),
    }
}

impl SchedulerConfig {
    /// The timer intervals, each from its variable, in seconds.
    pub fn load(env: &Vec<(String, String)>) -> (r: SchedulerConfig)
        ensures
            r.osdr == unsigned_setting(env@, "FETCH_EVERY_SECONDS"@, u64::MAX as int, 600),
            r.iss == unsigned_setting(env@, "ISS_EVERY_SECONDS"@, u64::MAX as int, 120),
            r.apod == unsigned_setting(env@, "APOD_EVERY_SECONDS"@, u64::MAX as int, 43_200),
            r.neo == unsigned_setting(env@, "NEO_EVERY_SECONDS"@, u64::MAX as int, 7_200),
            r.donki == unsigned_setting(env@, "DONKI_EVERY_SECONDS"@, u64::MAX as int, 3_600),
            r.spacex == unsigned_setting(env@, "SPACEX_EVERY_SECONDS"@, u64::MAX as int, 3_600),
    {
        SchedulerConfig {
            osdr: env_duration(env, "FETCH_EVERY_SECONDS", 600),
            iss: env_duration(env, "ISS_EVERY_SECONDS", 120),
            apod: env_duration(env, "APOD_EVERY_SECONDS", 43_200),
            neo: env_duration(env, "NEO_EVERY_SECONDS", 7_200),
            donki: env_duration(env, "DONKI_EVERY_SECONDS", 3_600),
            spacex: env_duration(env, "SPACEX_EVERY_SECONDS", 3_600),
        }
    }
}

/// Where the store is and how connections to it are pooled.
pub struct DatabaseConfig {
    pub url: String,
    pub max_connections: u32,
    pub acquire_timeout_secs: u64,
}

/// The address the server binds.
pub struct ServerConfig {
    pub host: String,
    pub port: u16,
}

/// Why a configuration could not be loaded.
#[derive(Clone, Copy, Debug, PartialEq, Eq, Structural)]
pub enum ConfigError {
    /// `DATABASE_URL` is not set.
    MissingDatabaseUrl,
}

impl DatabaseConfig {
    /// The store settings; `DATABASE_URL` is required.
    pub fn load(env: &Vec<(String, String)>) -> (r: Result<DatabaseConfig, ConfigError>)
        ensures
            r is Err <==> env_lookup(env@, "DATABASE_URL"@) is None,
            r is Err ==> r == Err::<DatabaseConfig, ConfigError>(ConfigError::MissingDatabaseUrl),
            r matches Ok(c) ==> {
                &&& Some(c.url@) == env_lookup(env@, "DATABASE_URL"@)
                &&& c.max_connections == unsigned_setting(env@, "DB_MAX_CONNECTIONS"@, u32::MAX as int, 5)
                &&& c.acquire_timeout_secs == unsigned_setting(env@, "DB_ACQUIRE_TIMEOUT_SEC"@, u64::MAX as int, 10)
            },
    {
        match env_var(env, "DATABASE_URL") {
            None => Err(ConfigError::MissingDatabaseUrl),
            Some(url) => Ok(DatabaseConfig {
                url,
                max_connections: env_u32(env, "DB_MAX_CONNECTIONS", 5),
                acquire_timeout_secs: env_duration(env, "DB_ACQUIRE_TIMEOUT_SEC", 10),
            }),
        }
    }
}

impl ServerConfig {
    /// The bind host and port, defaulting to all interfaces on port 3000.
    pub fn load(env: &Vec<(String, String)>) -> (r: ServerConfig)
        ensures
            r.host@ == text_setting(env@, "RUST_ISS_HOST"@, "0.0.0.0"@),
            r.port == unsigned_setting(env@, "RUST_ISS_PORT"@, u16::MAX as int, 3000),
    {
        ServerConfig {
            host: env_text(env, "RUST_ISS_HOST", "0.0.0.0"),
            port: env_u16(env, "RUST_ISS_PORT", 3000),
        }
    }
}

/// The five sources, by name, that a refresh covers when none are named.
pub open spec fn builtin_defaults() -> Seq<Seq<char>> {
    seq!["apod"@, "neo"@, "flr"@, "cme"@, "spacex"@]
}

/// The whole process configuration.
pub struct AppConfig {
    pub database: DatabaseConfig,
    pub server: ServerConfig,
    pub osdr_url: String,
    pub iss_url: String,
    pub nasa_api_key: Option<String>,
    pub osdr_list_limit: i64,
    pub http_timeout_secs: u64,
    pub user_agent: String,
    pub scheduler: SchedulerConfig,
    pub refresh_defaults: Vec<String>,
}

impl AppConfig {
    /// The configuration read from an environment snapshot.
    pub fn load(env: &Vec<(String, String)>) -> (r: Result<AppConfig, ConfigError>)
        ensures
            r is Err <==> env_lookup(env@, "DATABASE_URL"@) is None,
            r matches Ok(c) ==> {
                &&& Some(c.database.url@) == env_lookup(env@, "DATABASE_URL"@)
                &&& c.server.port == unsigned_setting(env@, "RUST_ISS_PORT"@, u16::MAX as int, 3000)
                &&& c.osdr_url@ == text_setting(env@, "NASA_API_URL"@,
                    "https://visualization.osdr.nasa.gov/biodata/api/v2/datasets/?format=json"@)
                &&& c.iss_url@ == text_setting(env@, "WHERE_ISS_URL"@,
                    "https://api.wheretheiss.at/v1/satellites/25544"@)
                &&& opt_view(c.nasa_api_key) == match env_lookup(env@, "NASA_API_KEY"@) {
                    Some(k) => if k.len() > 0 { Some(k) } else { None },
                    None => None,
                }
                &&& c.osdr_list_limit == signed_setting(env@, "OSDR_LIST_LIMIT"@, 20)
                &&& c.http_timeout_secs == unsigned_setting(env@, "HTTP_TIMEOUT_SECONDS"@, u64::MAX as int, 30)
                &&& c.user_agent@ == text_setting(env@, "HTTP_USER_AGENT"@, "rust_iss/1.0"@)
                &&& views(c.refresh_defaults@) == match env_lookup(env@, "SPACE_REFRESH_DEFAULTS"@) {
                    Some(raw) => source_list(raw),
                    None => builtin_defaults(),
                }
            },
    {
        let database = match DatabaseConfig::load(env) {
            Ok(d) => d,
            Err(e) => return Err(e),
        };
        let server = ServerConfig::load(env);
        let osdr_url = env_text(env, "NASA_API_URL",
            "https://visualization.osdr.nasa.gov/biodata/api/v2/datasets/?format=json");
        let iss_url = env_text(env, "WHERE_ISS_URL", "https://api.wheretheiss.at/v1/satellites/25544");
        let nasa_api_key = match env_var(env, "NASA_API_KEY") {
            Some(k) => if k.unicode_len() > 0 { Some(k) } else { None },
            None => None,
        };
        let osdr_list_limit = env_i64(env, "OSDR_LIST_LIMIT", 20);
        let http_timeout_secs = env_duration(env, "HTTP_TIMEOUT_SECONDS", 30);
        let user_agent = env_text(env, "HTTP_USER_AGENT", "rust_iss/1.0");
        let scheduler = SchedulerConfig::load(env);
        let refresh_defaults = match env_var(env, "SPACE_REFRESH_DEFAULTS") {
            Some(raw) => parse_sources(raw.as_str()),
            None => {
                let v = vec![
                    String::from_str("apod"),
                    String::from_str("neo"),
                    String::from_str("flr"),
                    String::from_str("cme"),
                    String::from_str("spacex"),
                ];
                assert(views(v@) =~= builtin_defaults());
                v
            },
        };
        Ok(AppConfig {
            database,
            server,
            osdr_url,
            iss_url,
            nasa_api_key,
            osdr_list_limit,
            http_timeout_secs,
            user_agent,
            scheduler,
            refresh_defaults,
        })
    }
}

/// The query of a refresh request: an optional comma-separated source list.
pub struct RefreshQuery {
    pub src: Option<String>,
}

impl RefreshQuery {
    /// The sources to refresh: the listed ones, or `defaults` when the list
    /// is absent or names none.
    pub fn sources(&self, defaults: &Vec<String>) -> (r: Vec<String>)
        ensures
            views(r@) == match self.src {
                Some(raw) => if source_list(raw@).len() > 0 { source_list(raw@) } else { views(defaults@) },
                None => views(defaults@),
            },
    {
        match &self.src {
            Some(raw) => {
                let listed = parse_sources(raw.as_str());
                if listed.len() > 0 {
                    return listed;
                }
            },
            None => {},
        }
        let mut r: Vec<String> = Vec::new();
        let mut i: usize = 0;
        while i < defaults.len()
            invariant
                i <= defaults@.len(),
                r@ == defaults@.subrange(0, i as int),
            decreases defaults@.len() - i,
        {
            r.push(defaults[i].clone());
            i = i + 1;
            assert(r@ =~= defaults@.subrange(0, i as int));
        }
        assert(r@ =~= defaults@);
        r
    }
}

/// The query of a catalog listing: an optional number of records.
pub struct OsdrListQuery {
    pub limit: Option<i64>,
}

impl OsdrListQuery {
    /// The number of records to list: the requested one, else `default`,
    /// kept between 1 and 200.
    pub fn effective_limit(&self, default: i64) -> (r: i64)
        ensures
            ({
                let want = match self.limit {
                    Some(l) => l,
                    None => default,
                };
                r == if want < 1 { 1 } else if want > 200 { 200 } else { want }
            }),
    {
        let want = match self.limit {
            Some(l) => l,
            None => default,
        };
        if want < 1 {
            1
        } else if want > 200 {
            200
        } else {
            want
        }
    }
}

} // verus!
