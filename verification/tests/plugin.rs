use base64::Engine;
use diaryx_sync_extism::commands::{execute_command, Pages};
use diaryx_sync_extism::config;
use diaryx_sync_extism::config::{InitParams, Settings, SyncExtismConfig};
use diaryx_sync_extism::events;
use diaryx_sync_extism::host::{HostCall, HostReply};
use diaryx_sync_extism::http::{HttpBody, HttpRequest, HttpResponse};
use diaryx_sync_extism::json::{parse, JsonValue};
use diaryx_sync_extism::protocol;
use diaryx_sync_extism::state;
use diaryx_sync_extism::state::PluginState;
use diaryx_sync_extism::sync_manifest::{SyncManifest, SyncState};
use std::cell::RefCell;
use std::collections::BTreeMap;
use std::rc::Rc;

/// An object store with one namespace per name.
#[derive(Default)]
struct Server {
    objects: BTreeMap<String, (Vec<u8>, i64)>,
    log: Vec<String>,
    /// Requests whose line holds this text are answered with this status.
    refuse: Option<(String, u16)>,
    down: bool,
}

fn hash(bytes: &[u8]) -> String {
    format!("h-{}", String::from_utf8_lossy(bytes))
}

fn text_response(status: u16, body: String) -> HttpResponse {
    HttpResponse {
        status,
        body,
        body_base64: None,
    }
}

impl Server {
    fn answer(&mut self, request: HttpRequest, now: u64) -> Result<HttpResponse, String> {
        let line = format!("{} {}", request.method, request.url);
        self.log.push(line.clone());
        if self.down {
            return Err("no route".to_string());
        }
        if let Some((part, status)) = &self.refuse {
            if line.contains(part.as_str()) {
                return Ok(text_response(*status, "refused".to_string()));
            }
        }
        let path = request.url.strip_prefix("http://s").unwrap().to_string();
        if path == "/api/workspaces" {
            let body = "[{\"id\":\"w1\",\"name\":\"One\"},{\"id\":2,\"name\":\"x\"},{\"id\":\"w3\"}]";
            return Ok(text_response(200, body.to_string()));
        }
        if path == "/namespaces" {
            return Ok(match request.body {
                HttpBody::Text(body) => text_response(201, body),
                _ => text_response(200, "[]".to_string()),
            });
        }
        if let Some((_, query)) = path.split_once("/objects?") {
            let offset: usize = query.split("offset=").nth(1).unwrap().parse().unwrap();
            let page: Vec<String> = self
                .objects
                .iter()
                .skip(offset)
                .take(500)
                .map(|(key, (bytes, at))| {
                    format!(
                        "{{\"key\":\"{key}\",\"content_hash\":\"{}\",\"size_bytes\":{},\"updated_at\":{at}}}",
                        hash(bytes),
                        bytes.len()
                    )
                })
                .collect();
            return Ok(text_response(200, format!("[{}]", page.join(","))));
        }
        let key = path.split_once("/objects/").unwrap().1.to_string();
        Ok(match (request.method.as_str(), request.body) {
            ("PUT", HttpBody::Bytes(bytes)) => {
                self.objects.insert(key, (bytes, now as i64));
                text_response(200, "{}".to_string())
            }
            ("GET", _) => match self.objects.get(&key) {
                Some((bytes, _)) => HttpResponse {
                    status: 200,
                    body: String::new(),
                    body_base64: Some(base64::engine::general_purpose::STANDARD.encode(bytes)),
                },
                None => text_response(404, String::new()),
            },
            ("DELETE", _) => {
                self.objects.remove(&key);
                text_response(204, String::new())
            }
            (method, _) => panic!("{method} {key}"),
        })
    }
}

/// A device: a disk, a storage, a clock, and the plugin.
struct Device {
    files: BTreeMap<String, Vec<u8>>,
    stored_manifest: Option<SyncManifest>,
    stored_config: SyncExtismConfig,
    runtime: Option<String>,
    now: u64,
    read_only: bool,
    state: PluginState,
    server: Rc<RefCell<Server>>,
    saved: usize,
}

fn none_params() -> InitParams {
    InitParams {
        workspace_root: None,
        workspace_id: None,
        write_to_disk: None,
        server_url: None,
        auth_token: None,
    }
}

impl Device {
    fn new(server: &Rc<RefCell<Server>>) -> Device {
        Device {
            files: BTreeMap::new(),
            stored_manifest: None,
            stored_config: SyncExtismConfig::empty(),
            runtime: None,
            now: 1000,
            read_only: false,
            state: PluginState::off(),
            server: server.clone(),
            saved: 0,
        }
    }

    fn started(params: InitParams) -> Device {
        let server = Rc::new(RefCell::new(Server::default()));
        let mut device = Device::new(&server);
        device.init(params);
        device
    }

    fn linked(server: &Rc<RefCell<Server>>) -> Device {
        let mut device = Device::new(server);
        let mut params = none_params();
        params.workspace_root = Some("/w".to_string());
        params.workspace_id = Some("ns".to_string());
        params.server_url = Some("http://s/sync".to_string());
        params.auth_token = Some("t".to_string());
        device.init(params);
        device
    }

    fn stored(&self) -> Option<SyncManifest> {
        self.stored_manifest.as_ref().map(|m| m.copied())
    }

    fn init(&mut self, params: InitParams) {
        let (config, state) = state::init(&params, &self.stored_config, self.stored());
        self.stored_config = config;
        self.state = state;
    }

    fn settings(&self) -> Settings {
        Settings {
            config: self.stored_config.copied(),
            runtime: self.runtime.as_ref().map(|text| parse(text).unwrap()),
        }
    }

    fn write(&mut self, path: String, content: Vec<u8>) -> Result<(), String> {
        if self.read_only {
            return Err("read-only".to_string());
        }
        self.files.insert(path, content);
        Ok(())
    }

    fn answer(&mut self, call: HostCall) -> HostReply {
        match call {
            HostCall::ListFiles(p) => HostReply::Files(Ok(self
                .files
                .keys()
                .filter(|k| k.starts_with(&p))
                .cloned()
                .collect())),
            HostCall::HashFile(p) => HostReply::Hash(self.files.get(&p).map(|b| hash(b))),
            HostCall::ReadBinary(p) => {
                HostReply::Bytes(self.files.get(&p).cloned().ok_or("gone".to_string()))
            }
            HostCall::WriteText(p, c) => HostReply::Done(self.write(p, c.into_bytes())),
            HostCall::WriteBinary(p, c) => HostReply::Done(self.write(p, c)),
            HostCall::DeleteFile(p) => HostReply::Done(if self.read_only {
                Err("read-only".to_string())
            } else {
                self.files.remove(&p);
                Ok(())
            }),
            HostCall::Send(request) => {
                let now = self.now;
                HostReply::Response(self.server.borrow_mut().answer(request, now))
            }
            HostCall::Now => {
                self.now += 1;
                HostReply::Time(Some(self.now))
            }
            HostCall::LoadManifest => HostReply::Manifest(self.stored()),
            HostCall::SaveManifest(manifest) => {
                self.stored_manifest = Some(manifest);
                self.saved += 1;
                HostReply::Saved
            }
            HostCall::SaveConfig(config) => {
                self.stored_config = config;
                HostReply::Saved
            }
            HostCall::LoadSettings => HostReply::Settings(self.settings()),
            other => panic!("{other:?}"),
        }
    }

    fn command(&mut self, name: &str, params: &str) -> Result<JsonValue, String> {
        let pages = Pages {
            snapshots: "<p>snapshots</p>".to_string(),
            history: "<p>history</p>".to_string(),
        };
        let state = std::mem::replace(&mut self.state, PluginState::off());
        let settings = self.settings();
        let mut run = execute_command(name, parse(params).unwrap(), settings, state, &pages);
        while let Some(call) = run.call() {
            assert!(!run.is_over());
            let reply = self.answer(call);
            run = run.step(reply);
        }
        assert!(run.is_over());
        let (result, state) = run.into_result();
        self.state = state;
        result.unwrap()
    }

    fn text(&mut self, name: &str, params: &str) -> Result<String, String> {
        self.command(name, params).map(|v| v.into_text())
    }

    fn event(&mut self, event_type: &str, payload: &str) {
        self.now += 1;
        let now = Some(self.now);
        events::on_event(&mut self.state, event_type, &parse(payload).unwrap(), now, now);
    }

    fn send_file_created(&mut self, path: &str) {
        self.event("file_created", &format!("{{\"path\":\"{path}\"}}"));
    }

    fn send_file_saved(&mut self, path: &str) {
        self.event("file_saved", &format!("{{\"path\":\"{path}\"}}"));
    }

    fn send_file_deleted(&mut self, path: &str) {
        self.event("file_deleted", &format!("{{\"path\":\"{path}\"}}"));
    }

    fn manifest(&self) -> &SyncManifest {
        state::with_manifest(&self.state).unwrap()
    }
}

fn number(value: &JsonValue, key: &str) -> u64 {
    value.get(key).and_then(|v| v.as_u64()).unwrap_or(0)
}

fn new_server() -> Rc<RefCell<Server>> {
    Rc::new(RefCell::new(Server::default()))
}

// ============================================================================
// Init and lifecycle
// ============================================================================

#[test]
fn init_succeeds() {
    let device = Device::started(none_params());
    assert!(state::is_initialized(&device.state));
    assert_eq!(state::workspace_root(&device.state), None);
    assert_eq!(state::namespace_id(&device.state), None);
}

#[test]
fn init_with_workspace_root() {
    let mut params = none_params();
    params.workspace_root = Some("/tmp/diaryx-test-workspace".to_string());
    let device = Device::started(params);
    assert!(state::is_initialized(&device.state));
    assert_eq!(
        state::workspace_root(&device.state).as_deref(),
        Some("/tmp/diaryx-test-workspace")
    );
}

#[test]
fn shutdown_persists_sync_manifest() {
    let mut device = Device::started(none_params());
    device.send_file_saved("docs/test.md");
    let manifest = state::shutdown_state(&mut device.state).unwrap();
    assert!(manifest.files.contains_key("files/docs/test.md"));
    assert!(!state::is_initialized(&device.state));
    assert!(state::shutdown_state(&mut device.state).is_none());
}

#[test]
fn what_shutdown_stores_init_loads() {
    let mut device = Device::linked(&new_server());
    device.send_file_saved("/w/a.md");
    device.stored_manifest = state::shutdown_state(&mut device.state);
    device.init(none_params());
    assert_eq!(device.manifest().dirty_count(), 1);
    assert_eq!(state::namespace_id(&device.state).as_deref(), Some("ns"));
    // Another namespace starts anew.
    state::set_namespace_id(&mut device.state, Some("other".to_string()), device.stored_manifest.take());
    assert_eq!(device.manifest().namespace_id, "other");
    assert_eq!(device.manifest().files.len(), 0);
    state::set_namespace_id(&mut device.state, None, None);
    assert_eq!(device.manifest().namespace_id, "");
}

#[test]
fn the_manifest_can_be_changed_in_place() {
    let mut off = PluginState::off();
    assert!(state::with_manifest(&off).is_none());
    assert!(state::with_manifest_mut(&mut off).is_none());
    let mut on = state::init_state(None, None, None);
    state::with_manifest_mut(&mut on).unwrap().mark_dirty("files/a", Some(3));
    assert_eq!(state::with_manifest(&on).unwrap().files.get("files/a").unwrap().modified_at, 3);
}

// ============================================================================
// Configuration
// ============================================================================

#[test]
fn get_config_returns_defaults_when_empty() {
    let mut device = Device::started(none_params());
    let result = device.command("get_config", "{}").expect("get_config should succeed");
    assert!(
        matches!(result, JsonValue::Object(_)),
        "get_config should return a JSON object"
    );
    assert_eq!(
        result.into_text(),
        "{\"auth_token\":null,\"server_url\":null,\"workspace_id\":null}"
    );
}

#[test]
fn set_config_stores_server_url() {
    let mut device = Device::started(none_params());
    let answer = device
        .text("set_config", "{\"server_url\":\"https://test.example.com\"}")
        .expect("set_config should succeed");
    assert_eq!(answer, "null");
    let config = device.command("get_config", "{}").expect("get_config should succeed");
    assert_eq!(
        config.get("server_url").and_then(|v| v.as_str()),
        Some("https://test.example.com")
    );
}

#[test]
fn set_config_roundtrip() {
    let mut device = Device::started(none_params());
    device
        .command(
            "set_config",
            "{\"server_url\":\"https://sync.example.com\",\"auth_token\":\"test-token-123\",\"workspace_id\":\"ws-abc-456\"}",
        )
        .expect("set_config should succeed");
    let config = device.command("get_config", "{}").expect("get_config should succeed");
    assert_eq!(
        config.get("server_url").and_then(|v| v.as_str()),
        Some("https://sync.example.com")
    );
    assert_eq!(
        config.get("auth_token").and_then(|v| v.as_str()),
        Some("test-token-123"),
        "auth_token should be stored in config"
    );
    assert_eq!(
        config.get("workspace_id").and_then(|v| v.as_str()),
        Some("ws-abc-456")
    );
}

#[test]
fn set_config_null_clears_fields() {
    let mut device = Device::started(none_params());
    device
        .command("set_config", "{\"server_url\":\"https://sync.example.com\"}")
        .expect("set_config");
    device
        .command("set_config", "{\"server_url\":null}")
        .expect("set_config should succeed");
    let config = device.command("get_config", "{}").expect("get_config");
    let server_url = config.get("server_url");
    assert!(
        server_url.is_none() || server_url.unwrap().is_null(),
        "server_url should be cleared after setting null"
    );
}

#[test]
fn the_export_sets_what_the_command_sets() {
    let empty = SyncExtismConfig::empty();
    let set = config::set_config(&empty, "{\"auth_token\":\" t \"}").unwrap();
    assert_eq!(set.auth_token.as_deref(), Some("t"));
    assert_eq!(set.server_url, None);
    let e = serde_json::from_str::<serde_json::Value>("{").unwrap_err();
    assert_eq!(config::set_config(&empty, "{").unwrap_err(), e.to_string());
}

// ============================================================================
// Status
// ============================================================================

#[test]
fn get_sync_status_returns_idle_initially() {
    let mut device = Device::started(none_params());
    let result = device
        .command("GetSyncStatus", "{}")
        .expect("GetSyncStatus should succeed");
    assert_eq!(
        result.get("state").and_then(|v| v.as_str()),
        Some("synced"),
        "Initial sync status should be synced (no dirty files)"
    );
    assert_eq!(
        result.get("label").and_then(|v| v.as_str()),
        Some("Not linked"),
        "Initial sync label should be Not linked"
    );
}

#[test]
fn get_provider_status_not_ready_without_config() {
    let mut device = Device::started(none_params());
    let result = device
        .command("GetProviderStatus", "{}")
        .expect("GetProviderStatus should succeed");
    assert_eq!(
        result.get("ready"),
        Some(&JsonValue::Bool(false)),
        "Provider should not be ready without credentials"
    );
    assert_eq!(
        result.into_text(),
        "{\"message\":\"Sync server URL is not configured\",\"ready\":false}"
    );
}

#[test]
fn get_provider_status_ready_with_credentials() {
    let mut device = Device::started(none_params());
    device
        .command(
            "set_config",
            "{\"server_url\":\"https://sync.example.com\",\"auth_token\":\"valid-token\"}",
        )
        .expect("set_config");
    let result = device
        .command("GetProviderStatus", "{}")
        .expect("GetProviderStatus should succeed");
    assert_eq!(
        result.get("ready"),
        Some(&JsonValue::Bool(true)),
        "Provider should be ready with server_url + auth_token"
    );
    assert_eq!(result.into_text(), "{\"message\":null,\"ready\":true}");
}

#[test]
fn provider_status_without_token_or_for_others() {
    let mut device = Device::started(none_params());
    assert_eq!(
        device
            .text("GetProviderStatus", "{\"server_url\":\"u\"}")
            .unwrap(),
        "{\"message\":\"Sign in to enable sync\",\"ready\":false}"
    );
    assert_eq!(
        device
            .text("GetProviderStatus", "{\"provider_id\":\"git\"}")
            .unwrap(),
        "{\"message\":\"Unsupported provider\",\"ready\":false}"
    );
    device.runtime = Some("{\"server_url\":\"u\",\"auth_token\":\" t \"}".to_string());
    assert_eq!(
        device
            .text("GetProviderStatus", "{\"provider_id\":\"diaryx.sync\"}")
            .unwrap(),
        "{\"message\":null,\"ready\":true}"
    );
}

#[test]
fn sync_status_initially_synced() {
    let mut device = Device::started(none_params());
    let result = device
        .command("SyncStatus", "{}")
        .expect("SyncStatus should succeed");
    assert_eq!(
        result.get("dirty_count").and_then(|v| v.as_u64()),
        Some(0),
        "Initial dirty_count should be 0"
    );
}

#[test]
fn status_is_written_in_full() {
    let mut device = Device::linked(&new_server());
    assert_eq!(
        device.text("sync_status", "{}").unwrap(),
        "{\"clean_count\":0,\"dirty_count\":0,\"label\":\"Synced\",\"last_sync_at\":null,\"pending_deletes\":0,\"state\":\"synced\"}"
    );
    device.send_file_saved("/w/a.md");
    device.send_file_deleted("/w/b.md");
    assert_eq!(
        device.text("GetSyncStatus", "{}").unwrap(),
        "{\"clean_count\":0,\"dirty_count\":1,\"label\":\"Modified\",\"last_sync_at\":null,\"pending_deletes\":1,\"state\":\"dirty\"}"
    );
}

// ============================================================================
// Commands that need a namespace, a root or a server
// ============================================================================

#[test]
fn sync_push_fails_without_namespace() {
    let mut device = Device::started(none_params());
    let result = device.command("SyncPush", "{}");
    assert!(result.is_err(), "SyncPush should fail without namespace");
    assert_eq!(
        result.unwrap_err(),
        "No namespace linked. Use `sync link` first."
    );
}

#[test]
fn sync_pull_fails_without_namespace() {
    let mut device = Device::started(none_params());
    let result = device.command("SyncPull", "{}");
    assert!(result.is_err(), "SyncPull should fail without namespace");
    assert_eq!(
        device.command("sync", "{}").unwrap_err(),
        "No namespace linked. Use `sync link` first."
    );
}

#[test]
fn cycles_need_a_root_a_state_and_a_server() {
    let mut device = Device::started(none_params());
    assert_eq!(
        device.command("Sync", "{\"namespace_id\":\"n\"}").unwrap_err(),
        "Missing workspace_root"
    );
    device.state.workspace_root = Some("/w".to_string());
    for name in ["SyncPush", "SyncPull"] {
        assert_eq!(
            device.command(name, "{\"namespace_id\":\"n\"}").unwrap_err(),
            "Missing server_url"
        );
    }
    assert_eq!(
        device.text("Sync", "{\"namespace_id\":\"n\"}").unwrap(),
        "{\"deleted_local\":0,\"deleted_remote\":0,\"errors\":[\"fetch server manifest: Missing server_url\"],\"pulled\":0,\"pushed\":0}"
    );
    assert_eq!(device.saved, 0);
    device.state.manifest = None;
    for name in ["SyncPush", "SyncPull", "Sync"] {
        assert_eq!(
            device.command(name, "{\"namespace_id\":\"n\"}").unwrap_err(),
            "Plugin state not initialized"
        );
    }
}

#[test]
fn get_component_html_snapshots() {
    let mut device = Device::started(none_params());
    let result = device
        .command("get_component_html", "{\"component_id\":\"sync.snapshots\"}")
        .expect("get_component_html should succeed");
    let html = result.as_str().expect("Should return HTML string");
    assert!(html.contains("<") && html.contains(">"), "Should return valid HTML");
    assert_eq!(html, "<p>snapshots</p>");
    let history = device
        .command("get_component_html", "{\"component_id\":\"sync.history\"}")
        .unwrap();
    assert_eq!(history.as_str(), Some("<p>history</p>"));
}

#[test]
fn get_component_html_unknown_returns_error() {
    let mut device = Device::started(none_params());
    let result = device.command(
        "get_component_html",
        "{\"component_id\":\"nonexistent.component\"}",
    );
    assert!(result.is_err(), "Unknown component ID should return an error");
    assert_eq!(
        result.unwrap_err(),
        "Unknown sync component: nonexistent.component"
    );
    assert_eq!(
        device.command("get_component_html", "{}").unwrap_err(),
        "Unknown sync component: "
    );
}

#[test]
fn list_remote_workspaces_fails_without_server() {
    let mut device = Device::started(none_params());
    let result = device.command("ListRemoteWorkspaces", "{}");
    assert!(
        result.is_err(),
        "ListRemoteWorkspaces should fail without server config"
    );
    assert_eq!(result.unwrap_err(), "Missing server_url");
}

#[test]
fn link_workspace_fails_without_server() {
    let mut device = Device::started(none_params());
    let result = device.command("LinkWorkspace", "{}");
    assert!(
        result.is_err(),
        "LinkWorkspace should fail without server config"
    );
    assert_eq!(result.unwrap_err(), "Missing name or namespace_id");
    assert_eq!(
        device.command("LinkWorkspace", "{\"name\":\"n\"}").unwrap_err(),
        "Missing server_url"
    );
    assert_eq!(
        device
            .command("LinkWorkspace", "{\"name\":\"n\",\"provider_id\":\"git\"}")
            .unwrap_err(),
        "Unsupported provider"
    );
}

#[test]
fn unknown_commands_are_refused() {
    let mut device = Device::started(none_params());
    assert_eq!(device.command("Nope", "{}").unwrap_err(), "Unknown command: Nope");
}

#[test]
fn remote_workspaces_are_listed() {
    let mut device = Device::linked(&new_server());
    assert_eq!(
        device.text("ListRemoteWorkspaces", "{}").unwrap(),
        "{\"workspaces\":[{\"id\":\"w1\",\"name\":\"One\"}]}"
    );
    assert_eq!(
        device
            .text("ListRemoteWorkspaces", "{\"provider_id\":\"git\"}")
            .unwrap(),
        "{\"workspaces\":[]}"
    );
    device.server.borrow_mut().refuse = Some(("/api/".to_string(), 401));
    assert_eq!(
        device.text("ListRemoteWorkspaces", "{}").unwrap_err(),
        "HTTP 401: refused"
    );
    device.server.borrow_mut().down = true;
    assert_eq!(device.text("ListRemoteWorkspaces", "{}").unwrap_err(), "no route");
}

#[test]
fn namespace_commands() {
    let mut device = Device::linked(&new_server());
    assert_eq!(
        device.text("NsCreateNamespace", "{}").unwrap_err(),
        "Missing namespace_id"
    );
    assert_eq!(
        device.text("NsCreateNamespace", "{\"namespace_id\":\"n\"}").unwrap(),
        "{\"id\":\"n\"}"
    );
    assert_eq!(device.text("NsListNamespaces", "{}").unwrap(), "[]");
    let put = |extra: &str| format!("{{\"namespace_id\":\"n\",\"key\":\"k\"{extra}}}");
    assert_eq!(
        device.text("NsPutObject", "{\"namespace_id\":\"n\"}").unwrap_err(),
        "Missing key"
    );
    assert_eq!(
        device.text("NsPutObject", &put("")).unwrap_err(),
        "Missing body or body_base64"
    );
    let e = base64::engine::general_purpose::STANDARD.decode("?").unwrap_err();
    assert_eq!(
        device.text("NsPutObject", &put(",\"body_base64\":\"?\"")).unwrap_err(),
        format!("Invalid base64: {e}")
    );
    assert_eq!(
        device.text("NsPutObject", &put(",\"body_base64\":\"AQI=\",\"body\":\"x\"")).unwrap(),
        "{}"
    );
    assert_eq!(device.server.borrow().objects["k"].0, vec![1, 2]);
    assert_eq!(device.text("NsGetObject", &put("")).unwrap(), "[1,2]");
    device.text("NsPutObject", &put(",\"body\":\"xy\"")).unwrap();
    assert_eq!(device.server.borrow().objects["k"].0, b"xy");
    assert_eq!(device.text("NsDeleteObject", &put("")).unwrap(), "null");
    assert_eq!(device.text("NsGetObject", &put("")).unwrap(), "null");
    device.server.borrow_mut().refuse = Some(("/objects".to_string(), 403));
    assert_eq!(
        device.text("NsListObjects", &put("")).unwrap_err(),
        "HTTP 403: refused"
    );
}

// ============================================================================
// Events
// ============================================================================

#[test]
fn file_events_mark_manifest_dirty() {
    let mut device = Device::started(none_params());
    device.send_file_created("docs/new-entry.md");
    device.send_file_saved("docs/existing-entry.md");
    let result = device
        .command("SyncStatus", "{}")
        .expect("SyncStatus should succeed");
    let dirty = number(&result, "dirty_count");
    assert!(dirty > 0, "After file events, dirty_count should be > 0");
    assert_eq!(dirty, 2);
}

#[test]
fn file_deleted_event_records_pending_delete() {
    let mut device = Device::started(none_params());
    device.send_file_created("docs/temp.md");
    device.send_file_deleted("docs/temp.md");
    let result = device
        .command("SyncStatus", "{}")
        .expect("SyncStatus should succeed");
    let pending = number(&result, "pending_deletes");
    assert!(pending > 0, "After file delete, pending_deletes should be > 0");
    assert_eq!(pending, 1);
    assert_eq!(number(&result, "dirty_count"), 0);
}

#[test]
fn file_created_event_does_not_crash() {
    let mut device = Device::started(none_params());
    device.send_file_created("docs/new-entry.md");
    assert!(device.manifest().files.contains_key("files/docs/new-entry.md"));
}

#[test]
fn file_saved_event_does_not_crash() {
    let mut device = Device::started(none_params());
    device.send_file_saved("docs/existing-entry.md");
    assert!(device.manifest().files.contains_key("files/docs/existing-entry.md"));
}

#[test]
fn file_deleted_event_does_not_crash() {
    let mut device = Device::started(none_params());
    device.send_file_deleted("docs/removed-entry.md");
    assert_eq!(device.manifest().pending_deletes.len(), 1);
}

#[test]
fn file_deleted_event_creates_pending_delete_entry() {
    let mut device = Device::started(none_params());
    device.send_file_deleted("docs/removed-entry.md");
    let status = device
        .command("SyncStatus", "{}")
        .expect("SyncStatus should succeed");
    let pending = number(&status, "pending_deletes");
    assert!(
        pending > 0,
        "deleted file should create a pending delete record"
    );
    assert_eq!(device.manifest().pending_deletes[0].path, "files/docs/removed-entry.md");
    assert_eq!(device.manifest().pending_deletes[0].deleted_at, 1001);
}

#[test]
fn renames_delete_and_mark() {
    let mut device = Device::linked(&new_server());
    device.send_file_saved("/w/a.md");
    for (event, old, new) in [("file_renamed", "/w/a.md", "/w/b.md"), ("file_moved", "/w/b.md", "x/c.md")] {
        device.event(event, &format!("{{\"old_path\":\"{old}\",\"new_path\":\"{new}\"}}"));
    }
    assert_eq!(device.manifest().files.len(), 1);
    assert!(device.manifest().files.contains_key("files/x/c.md"));
    let gone: Vec<&str> = device
        .manifest()
        .pending_deletes
        .iter()
        .map(|d| d.path.as_str())
        .collect();
    assert_eq!(gone, vec!["files/a.md", "files/b.md"]);
}

#[test]
fn other_events_change_nothing() {
    let mut device = Device::linked(&new_server());
    device.event("file_opened", "{\"path\":\"/w/a.md\"}");
    device.event("file_saved", "{\"path\":1}");
    device.event("file_renamed", "{\"old_path\":\"/w/a.md\"}");
    assert_eq!(device.manifest().files.len(), 0);
    assert!(device.manifest().pending_deletes.is_empty());
    device.state = PluginState::off();
    device.send_file_saved("/w/a.md");
    assert!(!state::is_initialized(&device.state));
}

// ============================================================================
// Protocol
// ============================================================================

#[test]
fn requests_are_read() {
    let (command, params) =
        protocol::read_command("{\"command\":\"Sync\",\"params\":{\"a\":1}}").unwrap();
    assert_eq!(command, "Sync");
    assert_eq!(params.into_text(), "{\"a\":1}");
    let e = serde_json::from_str::<diaryx_plugin_sdk::protocol::CommandRequest>("{}")
        .err()
        .unwrap();
    assert_eq!(protocol::read_command("{}").unwrap_err(), e.to_string());
    let (event, payload) =
        protocol::read_event("{\"event_type\":\"file_saved\",\"payload\":[]}").unwrap();
    assert_eq!(event, "file_saved");
    assert_eq!(payload.into_text(), "[]");
    let e = serde_json::from_str::<diaryx_plugin_sdk::protocol::GuestEvent>("1")
        .err()
        .unwrap();
    assert_eq!(protocol::read_event("1").unwrap_err(), e.to_string());
}

#[test]
fn typed_commands_are_read() {
    let (command, params) =
        protocol::read_typed_command("{\"type\":\"Sync\",\"params\":2}").unwrap();
    assert_eq!(command, "Sync");
    assert_eq!(params.into_text(), "2");
    let (_, params) = protocol::read_typed_command("{\"type\":\"Sync\"}").unwrap();
    assert!(params.is_null());
    for input in ["{}", "[]", "{\"type\":1}"] {
        assert_eq!(
            protocol::read_typed_command(input).unwrap_err(),
            "Missing 'type' field in command"
        );
    }
    let e = serde_json::from_str::<serde_json::Value>("?").unwrap_err();
    assert_eq!(
        protocol::read_typed_command("?").unwrap_err(),
        format!("Invalid JSON: {e}")
    );
}

#[test]
fn responses_are_written() {
    let ok = || Ok(parse("{\"b\":1,\"a\":\"x\"}").unwrap());
    assert_eq!(
        protocol::command_response(ok()).unwrap(),
        "{\"success\":true,\"data\":{\"a\":\"x\",\"b\":1},\"error\":null}"
    );
    assert_eq!(
        protocol::command_response(Err("\"no\"".to_string())).unwrap(),
        "{\"success\":false,\"data\":null,\"error\":\"\\\"no\\\"\"}"
    );
    assert_eq!(
        protocol::typed_response(ok()).unwrap(),
        "{\"data\":{\"a\":\"x\",\"b\":1},\"type\":\"PluginResult\"}"
    );
    assert_eq!(
        protocol::typed_response(Err("Unknown command: x".to_string())).unwrap(),
        ""
    );
    assert_eq!(
        protocol::typed_response(Err("no".to_string())).unwrap_err(),
        "no"
    );
}

// ============================================================================
// Cycles
// ============================================================================

#[test]
fn two_devices_converge() {
    let server = new_server();
    let mut one = Device::linked(&server);
    let mut two = Device::linked(&server);
    one.files.insert("/w/a.md".to_string(), b"A".to_vec());
    one.files.insert("/w/img/x.png".to_string(), vec![200, 255]);
    one.files.insert("/w/.git/config".to_string(), b"skip".to_vec());
    assert_eq!(
        one.text("Sync", "{}").unwrap(),
        "{\"deleted_local\":0,\"deleted_remote\":0,\"errors\":[],\"pulled\":0,\"pushed\":2}"
    );
    assert_eq!(one.manifest().clean_count(), 2);
    assert_eq!(one.stored_manifest.as_ref().unwrap().last_sync_at, Some(one.now));
    assert_eq!(
        two.text("Sync", "{}").unwrap(),
        "{\"deleted_local\":0,\"deleted_remote\":0,\"errors\":[],\"pulled\":2,\"pushed\":0}"
    );
    assert_eq!(two.files["/w/a.md"], b"A");
    assert_eq!(two.files["/w/img/x.png"], vec![200, 255]);
    assert_eq!(two.files.len(), 2);

    // A change travels.
    two.files.insert("/w/a.md".to_string(), b"B".to_vec());
    two.send_file_saved("/w/a.md");
    assert_eq!(two.text("SyncPush", "{}").unwrap(), "{\"errors\":[],\"pushed\":1}");
    assert_eq!(one.text("SyncPull", "{}").unwrap(), "{\"errors\":[],\"pulled\":1}");
    assert_eq!(one.files["/w/a.md"], b"B");

    // A second cycle finds nothing to do.
    for device in [&mut one, &mut two] {
        assert_eq!(
            device.text("sync", "{}").unwrap(),
            "{\"deleted_local\":0,\"deleted_remote\":0,\"errors\":[],\"pulled\":0,\"pushed\":0}"
        );
    }

    // So does a removal, once the other side pushes its removals.
    one.files.remove("/w/img/x.png");
    one.send_file_deleted("/w/img/x.png");
    assert_eq!(one.text("SyncPush", "{}").unwrap(), "{\"errors\":[],\"pushed\":0}");
    assert!(!server.borrow().objects.contains_key("files/img/x.png"));
    assert!(one.manifest().pending_deletes.is_empty());
    assert_eq!(two.text("SyncPull", "{}").unwrap(), "{\"errors\":[],\"pulled\":0}");
    assert!(!two.files.contains_key("/w/img/x.png"));
    assert!(!two.manifest().files.contains_key("files/img/x.png"));
}

#[test]
fn the_later_writer_wins() {
    let server = new_server();
    let mut one = Device::linked(&server);
    let mut two = Device::linked(&server);
    one.files.insert("/w/a.md".to_string(), b"0".to_vec());
    one.text("Sync", "{}").unwrap();
    two.text("Sync", "{}").unwrap();
    one.now = 5000;
    one.files.insert("/w/a.md".to_string(), b"1".to_vec());
    one.text("Sync", "{}").unwrap();
    two.files.insert("/w/a.md".to_string(), b"2".to_vec());
    two.text("Sync", "{}").unwrap();
    assert_eq!(two.files["/w/a.md"], b"1");
}

#[test]
fn large_namespaces_are_fetched_page_by_page() {
    let server = new_server();
    for i in 0..1000 {
        server
            .borrow_mut()
            .objects
            .insert(format!("files/{i:04}.txt"), (b"x".to_vec(), 1));
    }
    let mut device = Device::linked(&server);
    assert_eq!(device.text("SyncPull", "{}").unwrap(), "{\"errors\":[],\"pulled\":1000}");
    assert_eq!(device.files.len(), 1000);
    let pages: Vec<String> = server
        .borrow()
        .log
        .iter()
        .filter(|line| line.contains('?'))
        .cloned()
        .collect();
    assert_eq!(
        pages,
        [0, 500, 1000]
            .iter()
            .map(|offset| format!(
                "GET http://s/namespaces/ns/objects?prefix=files/&limit=500&offset={offset}"
            ))
            .collect::<Vec<_>>()
    );
}

#[test]
fn failures_are_reported() {
    let server = new_server();
    let mut device = Device::linked(&server);
    device.files.insert("/w/a.md".to_string(), b"A".to_vec());
    server.borrow_mut().refuse = Some(("PUT".to_string(), 507));
    assert_eq!(
        device.text("SyncPush", "{}").unwrap(),
        "{\"errors\":[\"push files/a.md: HTTP 507\"],\"pushed\":0}"
    );
    assert!(!device.manifest().files.contains_key("files/a.md"));

    device.files.clear();
    server
        .borrow_mut()
        .objects
        .insert("files/b.md".to_string(), (b"B".to_vec(), 1));
    server.borrow_mut().refuse = Some(("objects/files".to_string(), 500));
    device.send_file_deleted("/w/b.md");
    assert_eq!(
        device.text("Sync", "{}").unwrap(),
        "{\"deleted_local\":0,\"deleted_remote\":1,\"errors\":[\"delete remote files/b.md: HTTP 500\",\"pull files/b.md: HTTP 500\"],\"pulled\":0,\"pushed\":0}"
    );
    assert!(device.manifest().pending_deletes.is_empty());

    server.borrow_mut().refuse = None;
    device.read_only = true;
    assert_eq!(
        device.text("SyncPull", "{}").unwrap(),
        "{\"errors\":[\"write files/b.md: read-only\"],\"pulled\":0}"
    );

    server.borrow_mut().refuse = Some(("?".to_string(), 503));
    let saved = device.saved;
    assert_eq!(device.text("SyncPull", "{}").unwrap_err(), "HTTP 503: refused");
    assert_eq!(
        device.text("Sync", "{}").unwrap(),
        "{\"deleted_local\":0,\"deleted_remote\":0,\"errors\":[\"fetch server manifest: HTTP 503: refused\"],\"pulled\":0,\"pushed\":0}"
    );
    assert_eq!(device.saved, saved);

    server.borrow_mut().down = true;
    assert_eq!(device.text("SyncPush", "{}").unwrap_err(), "no route");
}

#[test]
fn pulled_text_is_made_valid() {
    let server = new_server();
    for name in ["files/a.md", "files/a.bin"] {
        server
            .borrow_mut()
            .objects
            .insert(name.to_string(), (vec![b'a', 0xFF], 1));
    }
    let mut device = Device::linked(&server);
    device.text("SyncPull", "{}").unwrap();
    assert_eq!(device.files["/w/a.md"], "a\u{FFFD}".as_bytes());
    assert_eq!(device.files["/w/a.bin"], vec![b'a', 0xFF]);
    // The recorded size is that of what came.
    assert_eq!(device.manifest().files.get("files/a.md").unwrap().size_bytes, 2);
}

#[test]
fn equal_files_need_no_transfer() {
    let server = new_server();
    server
        .borrow_mut()
        .objects
        .insert("files/a.md".to_string(), (b"A".to_vec(), 1));
    let mut device = Device::linked(&server);
    device.files.insert("/w/a.md".to_string(), b"A".to_vec());
    assert_eq!(
        device.text("Sync", "{}").unwrap(),
        "{\"deleted_local\":0,\"deleted_remote\":0,\"errors\":[],\"pulled\":0,\"pushed\":0}"
    );
    let entry = device.manifest().files.get("files/a.md").unwrap();
    assert!(entry.state == SyncState::Clean);
    assert_eq!(entry.content_hash, "h-A");
    assert_eq!(entry.size_bytes, 1);
}

#[test]
fn linking_and_unlinking() {
    let server = new_server();
    let mut device = Device::linked(&server);
    device.files.insert("/w/a.md".to_string(), b"A".to_vec());
    let synced = "{\"deleted_local\":0,\"deleted_remote\":0,\"errors\":[],\"pulled\":0,\"pushed\":1}";
    assert_eq!(
        device.text("LinkWorkspace", "{\"name\":\"mine\"}").unwrap(),
        format!("{{\"created\":true,\"namespace_id\":\"mine\",\"sync\":{synced}}}")
    );
    assert_eq!(device.stored_config.workspace_id.as_deref(), Some("mine"));
    assert_eq!(state::namespace_id(&device.state).as_deref(), Some("mine"));
    assert_eq!(device.stored_manifest.as_ref().unwrap().namespace_id, "mine");

    assert_eq!(device.text("UnlinkWorkspace", "{}").unwrap(), "{\"ok\":true}");
    assert_eq!(device.stored_config.workspace_id, None);
    assert_eq!(state::namespace_id(&device.state), None);
    assert_eq!(device.manifest().namespace_id, "");
    assert_eq!(
        device.command("Sync", "{}").unwrap_err(),
        "No namespace linked. Use `sync link` first."
    );

    // The manifest of the namespace is still stored.
    let linked = device
        .command("LinkWorkspace", "{\"remote_id\":\"mine\"}")
        .unwrap();
    assert_eq!(linked.get("created"), Some(&JsonValue::Bool(false)));
    assert_eq!(number(linked.get("sync").unwrap(), "pushed"), 0);
    assert_eq!(device.manifest().clean_count(), 1);
}

#[test]
fn a_namespace_without_id_cannot_be_linked() {
    let server = new_server();
    let mut device = Device::linked(&server);
    server.borrow_mut().refuse = Some(("POST".to_string(), 409));
    assert_eq!(
        device.command("LinkWorkspace", "{\"name\":\"n\"}").unwrap_err(),
        "HTTP 409: refused"
    );
    server.borrow_mut().refuse = Some(("POST".to_string(), 200));
    assert_eq!(
        device.command("LinkWorkspace", "{\"name\":\"n\"}").unwrap_err(),
        "Invalid namespace response"
    );
    assert_eq!(device.stored_config.workspace_id.as_deref(), Some("ns"));
}

#[test]
fn a_file_deleted_elsewhere_is_deleted_here() {
    let server = new_server();
    let mut device = Device::linked(&server);
    device.files.insert("/w/a.md".to_string(), b"A".to_vec());
    device.text("Sync", "{}").unwrap();
    server.borrow_mut().objects.clear();
    assert_eq!(
        device.text("Sync", "{}").unwrap(),
        "{\"deleted_local\":1,\"deleted_remote\":0,\"errors\":[],\"pulled\":0,\"pushed\":0}"
    );
    assert!(device.files.is_empty());
    assert!(device.manifest().files.get("files/a.md").unwrap().state == SyncState::Clean);
    assert_eq!(
        device.text("Sync", "{}").unwrap(),
        "{\"deleted_local\":0,\"deleted_remote\":0,\"errors\":[],\"pulled\":0,\"pushed\":0}"
    );
}

#[test]
fn a_full_cycle_asks_for_what_it_removed() {
    let server = new_server();
    let mut device = Device::linked(&server);
    device.files.insert("/w/a.md".to_string(), b"A".to_vec());
    device.text("Sync", "{}").unwrap();
    device.files.clear();
    device.send_file_deleted("/w/a.md");
    assert_eq!(
        device.text("Sync", "{}").unwrap(),
        "{\"deleted_local\":0,\"deleted_remote\":1,\"errors\":[\"pull files/a.md: HTTP 404\"],\"pulled\":0,\"pushed\":0}"
    );
    assert!(server.borrow().objects.is_empty());
    assert!(device.files.is_empty());
    assert_eq!(
        device.text("Sync", "{}").unwrap(),
        "{\"deleted_local\":0,\"deleted_remote\":0,\"errors\":[],\"pulled\":0,\"pushed\":0}"
    );
}

/// The settings that are read for each part of a cycle in turn.
fn sync_with(servers: [Option<&str>; 3]) -> (String, Vec<String>, SyncManifest) {
    let mut device = Device::linked(&new_server());
    device.files.insert("/w/a.md".to_string(), b"A".to_vec());
    device.send_file_deleted("/w/gone.md");
    let state = std::mem::replace(&mut device.state, PluginState::off());
    let pages = Pages {
        snapshots: String::new(),
        history: String::new(),
    };
    let mut run = execute_command("Sync", parse("{}").unwrap(), device.settings(), state, &pages);
    let mut sent: Vec<String> = Vec::new();
    let mut read: usize = 0;
    while let Some(call) = run.call() {
        let reply = match call {
            HostCall::LoadSettings => {
                let server_url = servers[read].map(String::from);
                read += 1;
                HostReply::Settings(Settings {
                    config: SyncExtismConfig {
                        server_url,
                        auth_token: Some(format!("t{read}")),
                        workspace_id: None,
                    },
                    runtime: None,
                })
            }
            HostCall::Send(request) => {
                sent.push(format!(
                    "{} {} {}",
                    request.method, request.url, request.headers[1].1
                ));
                let body = "[{\"key\":\"files/b.md\",\"content_hash\":\"h-B\"}]";
                HostReply::Response(Ok(text_response(200, body.to_string())))
            }
            other => device.answer(other),
        };
        run = run.step(reply);
    }
    let (result, state) = run.into_result();
    (
        result.unwrap().unwrap().into_text(),
        sent,
        state.manifest.unwrap(),
    )
}

#[test]
fn settings_are_read_before_each_part_of_a_cycle() {
    let (result, sent, _) = sync_with([Some("http://1"), Some("http://2"), Some("http://3")]);
    assert_eq!(
        result,
        "{\"deleted_local\":0,\"deleted_remote\":0,\"errors\":[],\"pulled\":1,\"pushed\":1}"
    );
    assert_eq!(
        sent,
        vec![
            "GET http://1/namespaces/ns/objects?prefix=files/&limit=500&offset=0 Bearer t1",
            "PUT http://2/namespaces/ns/objects/files/a.md Bearer t2",
            "GET http://3/namespaces/ns/objects/files/b.md Bearer t3",
        ]
    );
}

#[test]
fn a_server_can_go_missing_in_the_middle_of_a_cycle() {
    let (result, sent, manifest) = sync_with([Some("http://1"), None, Some("http://3")]);
    assert_eq!(
        result,
        "{\"deleted_local\":0,\"deleted_remote\":0,\"errors\":[\"Missing server_url\"],\"pulled\":1,\"pushed\":0}"
    );
    assert_eq!(sent.len(), 2);
    // Without a server to push to, the removals stay pending.
    assert_eq!(manifest.pending_deletes.len(), 1);

    let (result, sent, manifest) = sync_with([Some("http://1"), Some("http://2"), None]);
    assert_eq!(
        result,
        "{\"deleted_local\":0,\"deleted_remote\":0,\"errors\":[\"Missing server_url\"],\"pulled\":0,\"pushed\":1}"
    );
    assert_eq!(sent.len(), 2);
    assert!(manifest.pending_deletes.is_empty());

    let (result, sent, _) = sync_with([None, Some("http://2"), Some("http://3")]);
    assert_eq!(
        result,
        "{\"deleted_local\":0,\"deleted_remote\":0,\"errors\":[\"fetch server manifest: Missing server_url\"],\"pulled\":0,\"pushed\":0}"
    );
    assert!(sent.is_empty());
}
