use diaryx_sync_extism::config::{
    apply_config_patch, initial_config, normalize_server_base, provider_supported,
    resolve_auth_token, resolve_namespace_id, resolve_server_url, resolve_workspace_root,
    set_config, workspace_relative_path, InitParams, Settings, SyncExtismConfig,
};
use diaryx_sync_extism::json::{member, object, parse, string, JsonValue};

fn config(server: Option<&str>, token: Option<&str>, workspace: Option<&str>) -> SyncExtismConfig {
    SyncExtismConfig {
        server_url: server.map(String::from),
        auth_token: token.map(String::from),
        workspace_id: workspace.map(String::from),
    }
}

#[test]
fn apply_config_patch_clears_and_sets_values() {
    let mut cfg = SyncExtismConfig {
        server_url: Some("https://old.example".to_string()),
        auth_token: Some("old-token".to_string()),
        workspace_id: Some("old-workspace".to_string()),
    };

    let patch = object(vec![
        member("server_url", JsonValue::Null),
        member("auth_token", string("  ")),
        member("workspace_id", string("new-workspace")),
    ]);
    apply_config_patch(&mut cfg, &patch);

    assert_eq!(cfg.server_url, None);
    assert_eq!(cfg.auth_token, None);
    assert_eq!(cfg.workspace_id.as_deref(), Some("new-workspace"));
}

#[test]
fn normalize_server_base_strips_sync_suffixes_and_trailing_slashes() {
    assert_eq!(
        normalize_server_base("https://sync.diaryx.org/sync2/"),
        "https://sync.diaryx.org"
    );
    assert_eq!(
        normalize_server_base("https://sync.diaryx.org/sync/"),
        "https://sync.diaryx.org"
    );
}

#[test]
fn workspace_relative_path_strips_root() {
    // Simulate state not initialized — falls back to returning path as-is
    let result = workspace_relative_path(&None, "/workspace/doc.md");
    assert_eq!(result, "/workspace/doc.md");
}

#[test]
fn server_addresses() {
    assert_eq!(normalize_server_base("  http://x//  "), "http://x");
    assert_eq!(normalize_server_base("http://x/sync/sync2//sync"), "http://x");
    assert_eq!(normalize_server_base("http://x/async"), "http://x/async");
    assert_eq!(normalize_server_base("/sync"), "");
    // What is cut off can leave white space, which a second pass then cuts off.
    assert_eq!(normalize_server_base("a /sync"), "a ");
    assert_eq!(normalize_server_base("a "), "a");
}

#[test]
fn relative_paths() {
    let root = Some(" /work/space/ ".to_string());
    assert_eq!(workspace_relative_path(&root, "/work/space/a/b.md"), "a/b.md");
    assert_eq!(workspace_relative_path(&root, "\\work\\space\\a.md"), "a.md");
    assert_eq!(workspace_relative_path(&root, "/work/spaces/a.md"), "/work/spaces/a.md");
    assert_eq!(workspace_relative_path(&Some(".".to_string()), "a\\b"), "a/b");
    assert_eq!(workspace_relative_path(&Some("".to_string()), "a"), "a");
    assert_eq!(workspace_relative_path(&Some("C:\\w".to_string()), "C:/w/a"), "a");
}

#[test]
fn patches_leave_what_they_do_not_mention() {
    let mut cfg = config(Some("s"), Some("t"), Some("w"));
    apply_config_patch(&mut cfg, &parse("{\"auth_token\": 5}").unwrap());
    assert_eq!(cfg.server_url.as_deref(), Some("s"));
    assert_eq!(cfg.auth_token.as_deref(), Some("t"));
    apply_config_patch(&mut cfg, &parse("[]").unwrap());
    assert_eq!(cfg.workspace_id.as_deref(), Some("w"));
    apply_config_patch(&mut cfg, &parse("{\"server_url\": \" x \"}").unwrap());
    apply_config_patch(&mut cfg, &parse("{\"server_url\": \" x \"}").unwrap());
    assert_eq!(cfg.server_url.as_deref(), Some("x"));
}

#[test]
fn patches_come_as_texts() {
    let cfg = config(None, None, Some("w"));
    let after = set_config(&cfg, "{\"server_url\": \"x\"}").unwrap();
    assert_eq!(after.server_url.as_deref(), Some("x"));
    assert_eq!(after.workspace_id.as_deref(), Some("w"));
    let expected = serde_json::from_str::<serde_json::Value>("{").unwrap_err().to_string();
    assert_eq!(set_config(&cfg, "{").unwrap_err(), expected);
    assert_eq!(
        after.to_json().into_text(),
        "{\"auth_token\":null,\"server_url\":\"x\",\"workspace_id\":\"w\"}"
    );
}

#[test]
fn starting_replaces_what_is_passed() {
    let params = InitParams {
        workspace_root: Some("/w".to_string()),
        workspace_id: Some("new".to_string()),
        write_to_disk: None,
        server_url: None,
        auth_token: Some("t2".to_string()),
    };
    let after = initial_config(&params, &config(Some("s"), Some("t"), Some("w")));
    assert_eq!(after.server_url.as_deref(), Some("s"));
    assert_eq!(after.auth_token.as_deref(), Some("t2"));
    assert_eq!(after.workspace_id.as_deref(), Some("new"));
}

#[test]
fn servers_and_tokens_are_looked_up_in_order() {
    let params = parse("{\"server_url\": \"http://p/\", \"auth_token\": \"tp\"}").unwrap();
    let none = parse("{}").unwrap();
    let context = parse("{\"server_url\": \" http://c/sync \", \"auth_token\": \"  \"}").unwrap();
    let full = Settings {
        config: config(Some("http://s/"), Some("ts"), None),
        runtime: Some(context),
    };
    assert_eq!(resolve_server_url(&params, &full).as_deref(), Some("http://p"));
    assert_eq!(resolve_server_url(&none, &full).as_deref(), Some("http://s"));
    assert_eq!(resolve_auth_token(&params, &full).as_deref(), Some("tp"));
    assert_eq!(resolve_auth_token(&none, &full).as_deref(), Some("ts"));
    let bare = Settings {
        config: SyncExtismConfig::empty(),
        runtime: full.runtime,
    };
    assert_eq!(resolve_server_url(&none, &bare).as_deref(), Some("http://c"));
    assert_eq!(resolve_auth_token(&none, &bare), None);
    let nothing = Settings {
        config: SyncExtismConfig::empty(),
        runtime: None,
    };
    assert_eq!(resolve_server_url(&none, &nothing), None);
}

#[test]
fn namespaces_and_roots() {
    let none = parse("{}").unwrap();
    let named = parse("{\"namespace_id\": \"p\"}").unwrap();
    let blank = parse("{\"namespace_id\": \" \"}").unwrap();
    let linked = Settings {
        config: config(None, None, Some("c")),
        runtime: None,
    };
    let unlinked = Settings {
        config: SyncExtismConfig::empty(),
        runtime: None,
    };
    let held = Some("h".to_string());
    assert_eq!(resolve_namespace_id(&named, &linked, &held).unwrap(), "p");
    assert_eq!(resolve_namespace_id(&none, &linked, &held).unwrap(), "c");
    assert_eq!(resolve_namespace_id(&none, &unlinked, &held).unwrap(), "h");
    for (params, held) in [(&none, None), (&blank, held)] {
        assert_eq!(
            resolve_namespace_id(params, &unlinked, &held).unwrap_err(),
            "No namespace linked. Use `sync link` first."
        );
    }
    assert_eq!(resolve_workspace_root(&Some("/w".to_string())).unwrap(), "/w");
    assert_eq!(resolve_workspace_root(&None).unwrap_err(), "Missing workspace_root");
    assert_eq!(
        resolve_workspace_root(&Some(" ".to_string())).unwrap_err(),
        "Missing workspace_root"
    );
}

#[test]
fn providers() {
    for (text, expected) in [
        ("{}", true),
        ("{\"provider_id\": \"sync\"}", true),
        ("{\"provider_id\": \"diaryx.sync\"}", true),
        ("{\"provider_id\": \"other\"}", false),
        ("{\"provider_id\": 3}", true),
    ] {
        assert_eq!(provider_supported(&parse(text).unwrap()), expected);
    }
}

#[test]
fn only_sync_is_cut_off_an_address() {
    let url = "http://x/sync2x/syn//sync2/sync/";
    let base = normalize_server_base(url);
    assert_eq!(base, "http://x/sync2x/syn");
    assert_eq!(url.strip_prefix(base.as_str()), Some("//sync2/sync/"));
}
