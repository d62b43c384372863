//! Startup wiring for the two child processes: the paths they read and
//! write, the environment contract each is spawned with, and the resource
//! prechecks that decide whether spawning may be attempted at all.

use vstd::prelude::*;
use crate::settings::AppSettings;
use crate::text::dec_digits;

verus! {

/// One environment variable handed to a child process.
pub struct EnvVar {
    pub key: String,
    pub value: String,
}

/// A `Vec<EnvVar>` as a sequence of key/value character sequences.
pub open spec fn env_view(v: Vec<EnvVar>) -> Seq<(Seq<char>, Seq<char>)> {
    v@.map_values(|e: EnvVar| (e.key@, e.value@))
}

/// The AI provider to pass through, defaulting to the local station.
pub open spec fn spec_provider(s: AppSettings) -> Seq<char> {
    match s.ai {
        Some(ai) => match ai.provider {
            Some(p) => p@,
            None => "local_station"@,
        },
        None => "local_station"@,
    }
}

/// The AI endpoint to pass through, defaulting to the local station's URL.
pub open spec fn spec_endpoint(s: AppSettings) -> Seq<char> {
    match s.ai {
        Some(ai) => match ai.endpoint {
            Some(e) => e@,
            None => "http://127.0.0.1:2020"@,
        },
        None => "http://127.0.0.1:2020"@,
    }
}

/// The settings file lives directly under the config root.
pub open spec fn spec_settings_path(config_root: Seq<char>) -> Seq<char> {
    config_root + "/settings.json"@
}

/// Child-process logs live under `<config_root>/logs`.
pub open spec fn spec_log_dir(config_root: Seq<char>) -> Seq<char> {
    config_root + "/logs"@
}

/// The database file lives directly under the data directory.
pub open spec fn spec_db_path(data_dir: Seq<char>) -> Seq<char> {
    data_dir + "/moondream.sqlite3"@
}

/// The environment contract for the server process.
pub open spec fn spec_server_env(
    port: nat,
    config_root: Seq<char>,
    data_dir: Seq<char>,
    s: AppSettings,
) -> Seq<(Seq<char>, Seq<char>)> {
    seq![
        ("HOSTNAME"@, "127.0.0.1"@),
        ("PORT"@, dec_digits(port)),
        ("NODE_ENV"@, "production"@),
        ("NEXT_TELEMETRY_DISABLED"@, "1"@),
        ("MOONDREAM_DATA_DIR"@, data_dir),
        ("MOONDREAM_APP_CONFIG_DIR"@, config_root),
        ("MOONDREAM_SETTINGS_PATH"@, spec_settings_path(config_root)),
        ("MOONDREAM_PROVIDER"@, spec_provider(s)),
        ("MOONDREAM_ENDPOINT"@, spec_endpoint(s)),
        ("MOONDREAM_DB_PATH"@, spec_db_path(data_dir)),
    ]
}

/// The environment contract for the worker process.  `poll_seconds` and
/// `retry_failed` are ambient overrides read from the launcher's own
/// environment; absence selects the defaults.
pub open spec fn spec_worker_env(
    db_path: Seq<char>,
    config_root: Seq<char>,
    s: AppSettings,
    poll_seconds: Option<Seq<char>>,
    retry_failed: Option<Seq<char>>,
) -> Seq<(Seq<char>, Seq<char>)> {
    seq![
        ("PYTHONUNBUFFERED"@, "1"@),
        ("MOONDREAM_DB_PATH"@, db_path),
        ("MOONDREAM_PROVIDER"@, spec_provider(s)),
        ("MOONDREAM_ENDPOINT"@, spec_endpoint(s)),
        (
            "MOONDREAM_POLL_SECONDS"@,
            match poll_seconds {
                Some(p) => p,
                None => "1.0"@,
            },
        ),
        (
            "MOONDREAM_RETRY_FAILED"@,
            match retry_failed {
                Some(r) => r,
                None => "1"@,
            },
        ),
        ("MOONDREAM_APP_CONFIG_DIR"@, config_root),
    ]
}

/// `<config_root>/settings.json`.
pub fn settings_path(config_root: &String) -> (r: String)
    ensures
        r@ == spec_settings_path(config_root@),
{
    config_root.clone().concat("/settings.json")
}

/// `<config_root>/logs`.
pub fn log_dir(config_root: &String) -> (r: String)
    ensures
        r@ == spec_log_dir(config_root@),
{
    config_root.clone().concat("/logs")
}

/// `<config_root>/logs/next-server.log`.
pub fn server_log_path(config_root: &String) -> (r: String)
    ensures
        r@ == spec_log_dir(config_root@) + "/next-server.log"@,
{
    let r = config_root.clone().concat("/logs/next-server.log");
    proof {
        assert(r@ =~= spec_log_dir(config_root@) + "/next-server.log"@) by {
            reveal_strlit("/logs/next-server.log");
            reveal_strlit("/logs");
            reveal_strlit("/next-server.log");
        }
    }
    r
}

/// `<config_root>/logs/moondream-worker.log`.
pub fn worker_log_path(config_root: &String) -> (r: String)
    ensures
        r@ == spec_log_dir(config_root@) + "/moondream-worker.log"@,
{
    let r = config_root.clone().concat("/logs/moondream-worker.log");
    proof {
        assert(r@ =~= spec_log_dir(config_root@) + "/moondream-worker.log"@) by {
            reveal_strlit("/logs/moondream-worker.log");
            reveal_strlit("/logs");
            reveal_strlit("/moondream-worker.log");
        }
    }
    r
}

/// `<data_dir>/moondream.sqlite3`.
pub fn db_path(data_dir: &String) -> (r: String)
    ensures
        r@ == spec_db_path(data_dir@),
{
    data_dir.clone().concat("/moondream.sqlite3")
}

fn get_provider(s: &AppSettings) -> (r: String)
    ensures
        r@ == spec_provider(*s),
{
    match &s.ai {
        Some(ai) => match &ai.provider {
            Some(p) => p.clone(),
            None => String::from_str("local_station"),
        },
        None => String::from_str("local_station"),
    }
}

fn get_endpoint(s: &AppSettings) -> (r: String)
    ensures
        r@ == spec_endpoint(*s),
{
    match &s.ai {
        Some(ai) => match &ai.endpoint {
            Some(e) => e.clone(),
            None => String::from_str("http://127.0.0.1:2020"),
        },
        None => String::from_str("http://127.0.0.1:2020"),
    }
}

fn env_var(key: &str, value: String) -> (r: EnvVar)
    ensures
        r.key@ == key@,
        r.value == value,
{
    EnvVar { key: String::from_str(key), value }
}

/// Builds the server process environment.
pub fn server_env(port: u16, config_root: &String, data_dir: &String, s: &AppSettings) -> (r: Vec<
    EnvVar,
>)
    ensures
        env_view(r) == spec_server_env(port as nat, config_root@, data_dir@, *s),
{
    let mut v: Vec<EnvVar> = Vec::new();
    v.push(env_var("HOSTNAME", String::from_str("127.0.0.1")));
    v.push(env_var("PORT", crate::text::u64_to_string(port as u64)));
    v.push(env_var("NODE_ENV", String::from_str("production")));
    v.push(env_var("NEXT_TELEMETRY_DISABLED", String::from_str("1")));
    v.push(env_var("MOONDREAM_DATA_DIR", data_dir.clone()));
    v.push(env_var("MOONDREAM_APP_CONFIG_DIR", config_root.clone()));
    v.push(env_var("MOONDREAM_SETTINGS_PATH", settings_path(config_root)));
    v.push(env_var("MOONDREAM_PROVIDER", get_provider(s)));
    v.push(env_var("MOONDREAM_ENDPOINT", get_endpoint(s)));
    v.push(env_var("MOONDREAM_DB_PATH", db_path(data_dir)));
    proof {
        assert(env_view(v) =~= spec_server_env(port as nat, config_root@, data_dir@, *s));
    }
    v
}

/// Builds the worker process environment.
pub fn worker_env(
    db_path: &String,
    config_root: &String,
    s: &AppSettings,
    poll_seconds: Option<String>,
    retry_failed: Option<String>,
) -> (r: Vec<EnvVar>)
    ensures
        env_view(r) == spec_worker_env(
            db_path@,
            config_root@,
            *s,
            match poll_seconds {
                Some(p) => Some(p@),
                None => None,
            },
            match retry_failed {
                Some(x) => Some(x@),
                None => None,
            },
        ),
{
    let ghost poll_arg: Option<Seq<char>> = match poll_seconds {
        Some(ref p) => Some(p@),
        None => None,
    };
    let ghost retry_arg: Option<Seq<char>> = match retry_failed {
        Some(ref x) => Some(x@),
        None => None,
    };
    let mut v: Vec<EnvVar> = Vec::new();
    v.push(env_var("PYTHONUNBUFFERED", String::from_str("1")));
    v.push(env_var("MOONDREAM_DB_PATH", db_path.clone()));
    v.push(env_var("MOONDREAM_PROVIDER", get_provider(s)));
    v.push(env_var("MOONDREAM_ENDPOINT", get_endpoint(s)));
    v.push(env_var(
        "MOONDREAM_POLL_SECONDS",
        match poll_seconds {
            Some(p) => p,
            None => String::from_str("1.0"),
        },
    ));
    v.push(env_var(
        "MOONDREAM_RETRY_FAILED",
        match retry_failed {
            Some(x) => x,
            None => String::from_str("1"),
        },
    ));
    v.push(env_var("MOONDREAM_APP_CONFIG_DIR", config_root.clone()));
    proof {
        assert(env_view(v) =~= spec_worker_env(db_path@, config_root@, *s, poll_arg, retry_arg));
    }
    v
}

/// What a failed resource precheck names.
#[derive(Debug, Clone, Copy, PartialEq, Eq, Structural)]
pub enum MissingResource {
    /// The bundled resource directory could not be located at all.
    ResourceDir,
    /// The server bundle (`server.js`) is absent.
    ServerBundle,
    /// The bundled runtime binary is absent.
    NodeRuntime,
    /// The bundled worker binary is absent.
    WorkerBinary,
}

/// Precondition check for spawning the server.  A failure here is fatal for
/// startup.  The three prerequisites are reported in the order the spawn
/// would have needed them.
pub fn check_server_resources(resource_dir: bool, server_js: bool, node: bool) -> (r: Result<
    (),
    MissingResource,
>)
    ensures
        r is Ok <==> resource_dir && server_js && node,
        !resource_dir ==> r == Result::<(), MissingResource>::Err(MissingResource::ResourceDir),
        resource_dir && !server_js ==> r == Result::<(), MissingResource>::Err(
            MissingResource::ServerBundle,
        ),
        resource_dir && server_js && !node ==> r == Result::<(), MissingResource>::Err(
            MissingResource::NodeRuntime,
        ),
{
    if !resource_dir {
        Err(MissingResource::ResourceDir)
    } else if !server_js {
        Err(MissingResource::ServerBundle)
    } else if !node {
        Err(MissingResource::NodeRuntime)
    } else {
        Ok(())
    }
}

/// Precondition check for spawning the worker.  A failure here is not fatal:
/// the launcher continues without a worker.
pub fn check_worker_resources(resource_dir: bool, worker_bin: bool) -> (r: Result<
    (),
    MissingResource,
>)
    ensures
        r is Ok <==> resource_dir && worker_bin,
        !resource_dir ==> r == Result::<(), MissingResource>::Err(MissingResource::ResourceDir),
        resource_dir && !worker_bin ==> r == Result::<(), MissingResource>::Err(
            MissingResource::WorkerBinary,
        ),
{
    if !resource_dir {
        Err(MissingResource::ResourceDir)
    } else if !worker_bin {
        Err(MissingResource::WorkerBinary)
    } else {
        Ok(())
    }
}

/// The data directory for this run: the migration override when the engine
/// produced one, and normal resolution otherwise.
pub fn choose_data_dir(
    override_dir: Option<String>,
    config_root: &String,
    settings: &AppSettings,
    home: &Option<String>,
) -> (r: String)
    ensures
        match override_dir {
            Some(d) => r == d,
            None => r@ == crate::resolve::spec_resolve_data_dir(
                config_root@,
                *settings,
                match home {
                    Some(h) => Some(h@),
                    None => None,
                },
            ),
        },
{
    match override_dir {
        Some(d) => d,
        None => crate::resolve::resolve_data_dir(config_root, settings, home),
    }
}

} // verus!
