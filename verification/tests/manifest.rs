use diaryx_core::plugin::UiContribution;
use diaryx_sync_extism::commands::find_command;
use diaryx_sync_extism::json::{parse, JsonValue};
use diaryx_sync_extism::manifest::{all_commands, build_manifest, manifest, PluginManifest};

fn load() -> PluginManifest {
    build_manifest("1.2.3")
}

fn slot_and_id(ui: &JsonValue) -> (String, String) {
    (
        ui.text("slot").unwrap_or_default(),
        ui.text("id").unwrap_or_default(),
    )
}

#[test]
fn manifest_settings_tab_uses_declarative_fields() {
    let manifest = load();
    let tab = manifest
        .ui
        .iter()
        .find(|ui| {
            ui.get("slot").and_then(|v| v.as_str()) == Some("SettingsTab")
                && ui.get("id").and_then(|v| v.as_str()) == Some("sync-settings")
        })
        .expect("sync settings tab should exist");

    assert!(
        tab.get("component").unwrap().is_null(),
        "settings tab component should be null (no iframe)"
    );

    let fields = tab
        .get("fields")
        .and_then(|v| v.as_array())
        .expect("fields should be an array");
    assert!(!fields.is_empty(), "fields should not be empty");

    assert_eq!(
        fields[0].get("type").and_then(|v| v.as_str()),
        Some("AuthStatus")
    );

    assert_eq!(
        fields[1].get("type").and_then(|v| v.as_str()),
        Some("UpgradeBanner")
    );

    assert_eq!(
        fields[2].get("type").and_then(|v| v.as_str()),
        Some("Conditional")
    );
}

#[test]
fn manifest_declares_requested_permissions() {
    let manifest = load();
    let perms = &manifest.requested_permissions;

    assert!(perms.defaults.get("plugin_storage").is_some());
    assert!(perms.defaults.get("http_requests").is_some());
}

#[test]
fn cli_has_push_pull_no_start() {
    let manifest = load();
    let cli = &manifest.cli;
    let subcommands = cli[0].get("subcommands").unwrap().as_array().unwrap();
    let names: Vec<&str> = subcommands
        .iter()
        .filter_map(|s: &JsonValue| s.get("name").and_then(|v| v.as_str()))
        .collect();
    assert!(names.contains(&"push"));
    assert!(names.contains(&"pull"));
    assert!(!names.contains(&"start"));
}

#[test]
fn manifest_has_correct_id_and_name() {
    let manifest = load();
    assert_eq!(manifest.id, "diaryx.sync");
    assert_eq!(manifest.name, "Sync");
}

#[test]
fn manifest_declares_expected_capabilities() {
    let manifest = load();
    let has = |name: &str| manifest.capabilities.iter().any(|c| c == name);
    assert!(has("file_events"), "Missing FileEvents capability");
    assert!(has("workspace_events"), "Missing WorkspaceEvents capability");
    assert!(has("custom_commands"), "Missing CustomCommands capability");
}

#[test]
fn manifest_declares_commands() {
    let manifest = load();
    let commands: Vec<&str> = manifest.commands.iter().map(|s| s.as_str()).collect();

    for expected in [
        "GetSyncStatus",
        "SyncPush",
        "SyncPull",
        "Sync",
        "SyncStatus",
        "GetProviderStatus",
        "get_config",
        "set_config",
        "ListRemoteWorkspaces",
        "LinkWorkspace",
    ] {
        assert!(
            commands.contains(&expected),
            "Missing command: {expected}. Got: {commands:?}"
        );
    }
}

#[test]
fn manifest_declares_ui_contributions() {
    let manifest = load();

    assert!(
        !manifest.ui.is_empty(),
        "Manifest should declare UI contributions"
    );

    let ui: Vec<UiContribution> = manifest
        .ui
        .into_iter()
        .map(|v| serde_json::from_value(v.into_value()).unwrap())
        .collect();

    let has_settings_tab = ui
        .iter()
        .any(|ui| matches!(ui, UiContribution::SettingsTab { id, .. } if id == "sync-settings"));
    assert!(has_settings_tab, "Should have sync-settings SettingsTab");

    let has_sidebar_tab = ui.iter().any(|ui| {
        matches!(ui, UiContribution::SidebarTab { id, .. } if id == "snapshots" || id == "history")
    });
    assert!(has_sidebar_tab, "Should have sidebar tabs");

    let has_status_bar = ui
        .iter()
        .any(|ui| matches!(ui, UiContribution::StatusBarItem { .. }));
    assert!(has_status_bar, "Should have StatusBarItem");
}

#[test]
fn contributions_stand_in_order() {
    let slots: Vec<(String, String)> = load().ui.iter().map(slot_and_id).collect();
    let pair = |a: &str, b: &str| (a.to_string(), b.to_string());
    assert_eq!(
        slots,
        vec![
            pair("SettingsTab", "sync-settings"),
            pair("SidebarTab", "snapshots"),
            pair("SidebarTab", "history"),
            pair("StatusBarItem", "sync-status"),
            pair("WorkspaceProvider", "diaryx.sync"),
        ]
    );
}

#[test]
fn contributions_are_written_in_full() {
    let texts: Vec<String> = load().ui.into_iter().map(|v| v.into_text()).collect();
    assert_eq!(
        texts[0],
        concat_lines(&[
            "{\"component\":null,\"fields\":[",
            "{\"description\":\"Sign in to enable sync.\",\"label\":\"Account\",\"type\":\"AuthStatus\"},",
            "{\"description\":\"Upgrade to sync workspaces across devices.\",\"feature\":\"Sync\",\"type\":\"UpgradeBanner\"},",
            "{\"condition\":\"plus\",\"fields\":[",
            "{\"description\":null,\"label\":\"Connection\",\"type\":\"Section\"},",
            "{\"description\":\"Automatically configured when you sign in.\",\"key\":\"server_url\",\"label\":\"Server URL\",\"placeholder\":\"https://sync.diaryx.org\",\"type\":\"Text\"},",
            "{\"command\":\"GetProviderStatus\",\"label\":\"Check Status\",\"type\":\"Button\",\"variant\":\"outline\"}",
            "],\"type\":\"Conditional\"}",
            "],\"icon\":null,\"id\":\"sync-settings\",\"label\":\"Sync\",\"slot\":\"SettingsTab\"}",
        ])
    );
    assert_eq!(
        texts[1],
        concat_lines(&[
            "{\"component\":{\"component_id\":\"sync.snapshots\",\"type\":\"Iframe\"},",
            "\"icon\":\"history\",\"id\":\"snapshots\",\"label\":\"Snapshots\",\"side\":\"Left\",\"slot\":\"SidebarTab\"}",
        ])
    );
    assert_eq!(
        texts[2],
        concat_lines(&[
            "{\"component\":{\"component_id\":\"sync.history\",\"type\":\"Iframe\"},",
            "\"icon\":\"history\",\"id\":\"history\",\"label\":\"History\",\"side\":\"Right\",\"slot\":\"SidebarTab\"}",
        ])
    );
    assert_eq!(
        texts[3],
        concat_lines(&[
            "{\"id\":\"sync-status\",\"label\":\"Sync\",\"plugin_command\":\"GetSyncStatus\",",
            "\"position\":\"Right\",\"slot\":\"StatusBarItem\"}",
        ])
    );
    assert_eq!(
        texts[4],
        "{\"icon\":\"cloud\",\"id\":\"diaryx.sync\",\"label\":\"Diaryx Sync\",\"slot\":\"WorkspaceProvider\"}"
    );
}

fn concat_lines(lines: &[&str]) -> String {
    lines.join("")
}

#[test]
fn subcommands_are_written_in_full() {
    let text = load().cli.remove(0).into_text();
    assert_eq!(
        text,
        concat_lines(&[
            "{\"about\":\"Sync workspace with remote server\",\"aliases\":[\"sy\"],\"name\":\"sync\",\"subcommands\":[",
            "{\"about\":\"Authenticate via magic link\",\"args\":[",
            "{\"help\":\"Email address\",\"name\":\"email\",\"required\":true},",
            "{\"help\":\"Server URL\",\"long\":\"server\",\"name\":\"server\",\"short\":\"s\"}",
            "],\"name\":\"login\",\"native_handler\":\"sync_login\",\"requires_workspace\":false},",
            "{\"about\":\"Complete authentication\",\"args\":[",
            "{\"help\":\"Verification token\",\"name\":\"token\",\"required\":true},",
            "{\"help\":\"Device name\",\"long\":\"device-name\",\"name\":\"device-name\"}",
            "],\"name\":\"verify\",\"native_handler\":\"sync_verify\",\"requires_workspace\":false},",
            "{\"about\":\"Clear credentials\",\"name\":\"logout\",\"native_handler\":\"sync_logout\",\"requires_workspace\":false},",
            "{\"about\":\"Show sync status\",\"name\":\"status\",\"native_handler\":\"sync_status\"},",
            "{\"about\":\"Push local changes to server\",\"name\":\"push\",\"native_handler\":\"sync_push\"},",
            "{\"about\":\"Pull remote changes from server\",\"name\":\"pull\",\"native_handler\":\"sync_pull\"},",
            "{\"about\":\"Configure sync settings\",\"args\":[",
            "{\"help\":\"Set server URL\",\"long\":\"server\",\"name\":\"server\"},",
            "{\"help\":\"Set workspace ID\",\"long\":\"workspace-id\",\"name\":\"workspace-id\"},",
            "{\"help\":\"Show current config\",\"is_flag\":true,\"long\":\"show\",\"name\":\"show\"}",
            "],\"name\":\"config\",\"native_handler\":\"sync_config\"}",
            "]}",
        ])
    );
}

#[test]
fn declared_commands_are_known() {
    for name in all_commands() {
        assert!(find_command(&name).is_some(), "{name}");
    }
    assert_eq!(all_commands().len(), 18);
    assert!(find_command("sync_push").is_some());
    assert!(find_command("").is_none());
}

#[test]
fn the_text_holds_the_manifest() {
    let text = manifest("9.9").unwrap();
    let value = parse(&text).unwrap();
    assert_eq!(value.text("id").as_deref(), Some("diaryx.sync"));
    assert_eq!(value.text("version").as_deref(), Some("9.9"));
    assert_eq!(value.text("description").as_deref(), Some("File sync across devices"));
    assert_eq!(value.get("protocol_version").unwrap().as_u64(), Some(1));
    assert_eq!(value.get("ui").unwrap().as_array().unwrap().len(), 5);
    assert_eq!(value.get("commands").unwrap().as_array().unwrap().len(), 18);
    assert_eq!(value.get("cli").unwrap().as_array().unwrap().len(), 1);
    assert!(value.get("conversions").unwrap().as_array().unwrap().is_empty());
    assert!(value.get("min_app_version").is_none());
    let functions = value.get("server_functions").unwrap().as_array().unwrap();
    assert_eq!(functions.len(), 6);
    assert_eq!(functions[2].text("path").as_deref(), Some("/namespaces/{id}/objects/{key}"));
    assert_eq!(functions[2].text("method").as_deref(), Some("PUT"));
    let permissions = value.get("requested_permissions").unwrap();
    assert_eq!(
        permissions.get("reasons").unwrap().text("read_files").as_deref(),
        Some("Read workspace files for syncing")
    );
    let everything = permissions.get("defaults").unwrap().get("edit_files").unwrap();
    assert_eq!(everything.get("include").unwrap().as_array().unwrap()[0].as_str(), Some("all"));
    let back: diaryx_plugin_sdk::protocol::GuestManifest = serde_json::from_str(&text).unwrap();
    assert_eq!(back.name, "Sync");
}
