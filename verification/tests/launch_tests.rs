use moondream_launcher::launch::{
    check_server_resources, check_worker_resources, choose_data_dir, db_path, log_dir,
    server_env, server_log_path, settings_path, worker_env, worker_log_path, EnvVar,
    MissingResource,
};
use moondream_launcher::probe::{answer_ok, http_get_request, probe_decision, ProbeDecision};
use moondream_launcher::resolve::{default_icloud_dir, resolve_data_dir};
use moondream_launcher::settings::{AiSettings, AppSettings, StorageSettings};
use moondream_launcher::state::ServiceState;
use moondream_launcher::{port_or_fallback, FALLBACK_PORT};

fn storage(mode: Option<&str>, icloud_path: Option<&str>) -> Option<StorageSettings> {
    Some(StorageSettings {
        mode: mode.map(String::from),
        icloud_path: icloud_path.map(String::from),
        migration: None,
    })
}

#[test]
fn resolve_local_mode_uses_config_root() {
    let cfg = String::from("/cfg");
    let s = AppSettings { storage: None, ai: None };
    assert_eq!(resolve_data_dir(&cfg, &s, &None), "/cfg/data");
    let s = AppSettings { storage: storage(Some("local"), Some("/cloud")), ai: None };
    assert_eq!(resolve_data_dir(&cfg, &s, &Some(String::from("/home/u"))), "/cfg/data");
}

#[test]
fn resolve_icloud_mode_prefers_configured_path() {
    let cfg = String::from("/cfg");
    let s = AppSettings { storage: storage(Some("icloud"), Some("/cloud/Moondream")), ai: None };
    assert_eq!(resolve_data_dir(&cfg, &s, &None), "/cloud/Moondream");
}

#[test]
fn resolve_icloud_mode_is_case_insensitive() {
    let cfg = String::from("/cfg");
    let home = Some(String::from("/home/u"));
    let s = AppSettings { storage: storage(Some("ICloud"), None), ai: None };
    assert_eq!(
        resolve_data_dir(&cfg, &s, &home),
        "/home/u/Library/Mobile Documents/com~apple~CloudDocs/Moondream"
    );
}

#[test]
fn resolve_icloud_mode_without_home_falls_back() {
    let cfg = String::from("/cfg");
    let s = AppSettings { storage: storage(Some("icloud"), None), ai: None };
    assert_eq!(resolve_data_dir(&cfg, &s, &None), "/cfg/data");
}

#[test]
fn default_cloud_folder_is_under_home() {
    assert_eq!(
        default_icloud_dir(&String::from("/Users/a")),
        "/Users/a/Library/Mobile Documents/com~apple~CloudDocs/Moondream"
    );
}

#[test]
fn data_dir_override_wins() {
    let cfg = String::from("/cfg");
    let s = AppSettings { storage: storage(Some("icloud"), Some("/cloud")), ai: None };
    assert_eq!(choose_data_dir(Some(String::from("/old")), &cfg, &s, &None), "/old");
    assert_eq!(choose_data_dir(None, &cfg, &s, &None), "/cloud");
}

#[test]
fn paths_under_config_root() {
    let cfg = String::from("/cfg");
    assert_eq!(settings_path(&cfg), "/cfg/settings.json");
    assert_eq!(log_dir(&cfg), "/cfg/logs");
    assert_eq!(server_log_path(&cfg), "/cfg/logs/next-server.log");
    assert_eq!(worker_log_path(&cfg), "/cfg/logs/moondream-worker.log");
    assert_eq!(db_path(&String::from("/data")), "/data/moondream.sqlite3");
}

fn pairs(v: &[EnvVar]) -> Vec<(&str, &str)> {
    v.iter().map(|e| (e.key.as_str(), e.value.as_str())).collect()
}

#[test]
fn server_environment_contract() {
    let cfg = String::from("/cfg");
    let data = String::from("/data");
    let s = AppSettings { storage: None, ai: None };
    let env = server_env(8080, &cfg, &data, &s);
    assert_eq!(
        pairs(&env),
        vec![
            ("HOSTNAME", "127.0.0.1"),
            ("PORT", "8080"),
            ("NODE_ENV", "production"),
            ("NEXT_TELEMETRY_DISABLED", "1"),
            ("MOONDREAM_DATA_DIR", "/data"),
            ("MOONDREAM_APP_CONFIG_DIR", "/cfg"),
            ("MOONDREAM_SETTINGS_PATH", "/cfg/settings.json"),
            ("MOONDREAM_PROVIDER", "local_station"),
            ("MOONDREAM_ENDPOINT", "http://127.0.0.1:2020"),
            ("MOONDREAM_DB_PATH", "/data/moondream.sqlite3"),
        ]
    );
}

#[test]
fn server_environment_passes_ai_config_through() {
    let cfg = String::from("/cfg");
    let data = String::from("/data");
    let s = AppSettings {
        storage: None,
        ai: Some(AiSettings {
            provider: Some(String::from("huggingface")),
            endpoint: Some(String::from("http://h:9")),
        }),
    };
    let env = server_env(1, &cfg, &data, &s);
    let p = pairs(&env);
    assert!(p.contains(&("MOONDREAM_PROVIDER", "huggingface")));
    assert!(p.contains(&("MOONDREAM_ENDPOINT", "http://h:9")));
}

#[test]
fn worker_environment_contract() {
    let cfg = String::from("/cfg");
    let db = String::from("/data/moondream.sqlite3");
    let s = AppSettings { storage: None, ai: None };
    let env = worker_env(&db, &cfg, &s, None, Some(String::from("0")));
    assert_eq!(
        pairs(&env),
        vec![
            ("PYTHONUNBUFFERED", "1"),
            ("MOONDREAM_DB_PATH", "/data/moondream.sqlite3"),
            ("MOONDREAM_PROVIDER", "local_station"),
            ("MOONDREAM_ENDPOINT", "http://127.0.0.1:2020"),
            ("MOONDREAM_POLL_SECONDS", "1.0"),
            ("MOONDREAM_RETRY_FAILED", "0"),
            ("MOONDREAM_APP_CONFIG_DIR", "/cfg"),
        ]
    );
}

#[test]
fn server_resource_checks_are_fatal_in_order() {
    assert_eq!(check_server_resources(true, true, true), Ok(()));
    assert_eq!(check_server_resources(false, true, true), Err(MissingResource::ResourceDir));
    assert_eq!(check_server_resources(true, false, true), Err(MissingResource::ServerBundle));
    assert_eq!(check_server_resources(true, true, false), Err(MissingResource::NodeRuntime));
}

#[test]
fn worker_resource_checks() {
    assert_eq!(check_worker_resources(true, true), Ok(()));
    assert_eq!(check_worker_resources(true, false), Err(MissingResource::WorkerBinary));
    assert_eq!(check_worker_resources(false, true), Err(MissingResource::ResourceDir));
}

#[test]
fn port_fallback() {
    assert_eq!(port_or_fallback(Some(1234)), 1234);
    assert_eq!(port_or_fallback(None), FALLBACK_PORT);
    assert_eq!(FALLBACK_PORT, 3210);
}

#[test]
fn handles_are_taken_at_most_once() {
    let mut st: ServiceState<u32> = ServiceState::new();
    assert_eq!(st.port(), None);
    st.set_port(8080);
    assert_eq!(st.port(), Some(8080));
    st.store_server(11);
    st.store_worker(22);
    let (s, w) = st.take_all();
    assert_eq!(s, Some(11));
    assert_eq!(w, Some(22));
    // a second shutdown finds both slots empty
    let (s2, w2) = st.take_all();
    assert_eq!(s2, None);
    assert_eq!(w2, None);
    assert_eq!(st.port(), Some(8080));
}

#[test]
fn take_single_handles() {
    let mut st: ServiceState<u32> = ServiceState::new();
    st.store_server(7);
    assert_eq!(st.take_server(), Some(7));
    assert_eq!(st.take_server(), None);
    assert_eq!(st.take_worker(), None);
}

#[test]
fn probe_request_shape() {
    let req = http_get_request("127.0.0.1", 3000, "/api/projects");
    assert_eq!(
        req,
        "GET /api/projects HTTP/1.1\r\nHost: 127.0.0.1:3000\r\nConnection: close\r\n\r\n"
    );
}

#[test]
fn probe_success_detection() {
    assert!(answer_ok(b"HTTP/1.1 200 OK\r\ncontent-length: 2\r\n\r\nok"));
    assert!(answer_ok(b"HTTP/1.0 200\r\n"));
    // a truncated read that still shows the whole status code counts
    assert!(answer_ok(b"HTTP/1.1 200"));
    assert!(!answer_ok(b"HTTP/1.1 404 Not Found\r\n\r\n"));
    assert!(!answer_ok(b"HTTP/1.1 500 Internal Server Error\r\n\r\n"));
    // the status field must be exactly 200
    assert!(!answer_ok(b"HTTP/1.1 2000 X\r\n"));
    assert!(!answer_ok(b"HTTP/1.1 20"));
    // only the status line decides: a 200 later in the bytes does not count
    assert!(!answer_ok(b"HTTP/1.1 404 Not Found\r\n\r\nbytes 200 ok"));
    assert!(!answer_ok(b"Y 200 X"));
    assert!(!answer_ok(b" 200"));
    assert!(!answer_ok(b""));
}

#[test]
fn probe_decisions() {
    assert_eq!(probe_decision(true, 9999, 8000), ProbeDecision::Ready);
    assert_eq!(probe_decision(false, 100, 8000), ProbeDecision::RetryAfterSleep);
    assert_eq!(probe_decision(false, 8000, 8000), ProbeDecision::TimedOut);
    assert_eq!(probe_decision(false, 9000, 8000), ProbeDecision::TimedOut);
}
