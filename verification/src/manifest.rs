//! What the plugin tells the host of itself: its metadata, its place in the user interface, its
//! commands, and what it asks for.

use diaryx_plugin_sdk::protocol::{GuestManifest, GuestRequestedPermissions, ServerFunctionDecl};
use vstd::prelude::*;
use vstd::string::*;

use crate::commands::command_named;
use crate::host_bridge::{header_map, map_json};
use crate::json;
use crate::json::{
    is_plain, is_shallow, items_view, json_parse, keys_of, nullable, optional_keys,
    optional_members, present, strings_json, texts, value_contents, Json, JsonNumber, JsonValue,
};
use crate::key_map::precedes;

verus! {

/// An endpoint of the server that the plugin uses.
#[derive(Debug)]
pub struct ServerFunction {
    pub name: String,
    pub method: String,
    pub path: String,
    pub description: String,
}

/// What the plugin asks the user for.
#[derive(Debug)]
pub struct Permissions {
    pub defaults: JsonValue,
    pub reasons: Vec<(String, String)>,
}

/// What the plugin tells the host of itself.
#[derive(Debug)]
pub struct PluginManifest {
    pub id: String,
    pub name: String,
    pub version: String,
    pub description: String,
    pub capabilities: Vec<String>,
    pub ui: Vec<JsonValue>,
    pub commands: Vec<String>,
    pub server_functions: Vec<ServerFunction>,
    pub requested_permissions: Permissions,
    pub cli: Vec<JsonValue>,
}

/// A side of the window.
#[derive(Debug, Clone, Copy, PartialEq, Eq, Structural)]
pub enum Side {
    Left,
    Right,
}

// ---------------------------------------------------------------------------
// Outside types and functions
// ---------------------------------------------------------------------------

/// A field of a settings form, of `diaryx_core`.
#[verifier::external_type_specification]
#[verifier::external_body]
pub struct ExSettingsField(diaryx_core::plugin::SettingsField);

/// A contribution to the user interface, of `diaryx_core`.
#[verifier::external_type_specification]
#[verifier::external_body]
pub struct ExUiContribution(diaryx_core::plugin::UiContribution);

/// The document that a settings field is written as.
pub uninterp spec fn field_json(field: diaryx_core::plugin::SettingsField) -> Json;

/// The document that a contribution to the user interface is written as.
pub uninterp spec fn ui_json(ui: diaryx_core::plugin::UiContribution) -> Json;

/// The model of an optional text.
pub open spec fn optional_str(s: Option<&str>) -> Option<Seq<char>> {
    match s {
        Some(s) => Some(s@),
        None => None,
    }
}

/// `SettingsField::AuthStatus` of `diaryx_core`: it is written as its fields, with its variant
/// as `type`.
#[verifier::external_body]
fn auth_status_field(label: &str, description: Option<&str>) -> (
    field: diaryx_core::plugin::SettingsField)
    ensures
        field_json(field) == auth_status_json(label@, optional_str(description)),
{
    diaryx_core::plugin::SettingsField::AuthStatus {
        label: label.to_string(),
        description: description.map(|s| s.to_string()),
    }
}

/// `SettingsField::UpgradeBanner` of `diaryx_core`: it is written as its fields, with its
/// variant as `type`.
#[verifier::external_body]
fn upgrade_banner_field(feature: &str, description: Option<&str>) -> (
    field: diaryx_core::plugin::SettingsField)
    ensures
        field_json(field) == upgrade_banner_json(feature@, optional_str(description)),
{
    diaryx_core::plugin::SettingsField::UpgradeBanner {
        feature: feature.to_string(),
        description: description.map(|s| s.to_string()),
    }
}

/// `SettingsField::Section` of `diaryx_core`: it is written as its fields, with its variant as
/// `type`.
#[verifier::external_body]
fn section_field(label: &str, description: Option<&str>) -> (
    field: diaryx_core::plugin::SettingsField)
    ensures
        field_json(field) == section_json(label@, optional_str(description)),
{
    diaryx_core::plugin::SettingsField::Section {
        label: label.to_string(),
        description: description.map(|s| s.to_string()),
    }
}

/// `SettingsField::Text` of `diaryx_core`: it is written as its fields, with its variant as
/// `type`.
#[verifier::external_body]
fn text_field(key: &str, label: &str, description: Option<&str>, placeholder: Option<&str>) -> (
    field: diaryx_core::plugin::SettingsField)
    ensures
        field_json(field) == text_field_json(
            key@,
            label@,
            optional_str(description),
            optional_str(placeholder),
        ),
{
    diaryx_core::plugin::SettingsField::Text {
        key: key.to_string(),
        label: label.to_string(),
        description: description.map(|s| s.to_string()),
        placeholder: placeholder.map(|s| s.to_string()),
    }
}

/// `SettingsField::Button` of `diaryx_core`: it is written as its fields, with its variant as
/// `type`.
#[verifier::external_body]
fn button_field(label: &str, command: &str, variant: Option<&str>) -> (
    field: diaryx_core::plugin::SettingsField)
    ensures
        field_json(field) == button_json(label@, command@, optional_str(variant)),
{
    diaryx_core::plugin::SettingsField::Button {
        label: label.to_string(),
        command: command.to_string(),
        variant: variant.map(|s| s.to_string()),
    }
}

/// `SettingsField::Conditional` of `diaryx_core`: it is written as its fields, with its variant
/// as `type`.
#[verifier::external_body]
fn conditional_field(condition: &str, fields: Vec<diaryx_core::plugin::SettingsField>) -> (
    field: diaryx_core::plugin::SettingsField)
    ensures
        field_json(field) == conditional_json(condition@, fields_json(fields@)),
{
    diaryx_core::plugin::SettingsField::Conditional { condition: condition.to_string(), fields }
}

/// `UiContribution::SettingsTab` of `diaryx_core`, without an icon and without a component: it is
/// written as its fields, with its variant as `slot`.
#[verifier::external_body]
fn settings_tab(id: &str, label: &str, fields: Vec<diaryx_core::plugin::SettingsField>) -> (
    ui: diaryx_core::plugin::UiContribution)
    ensures
        ui_json(ui) == settings_tab_json(id@, label@, fields_json(fields@)),
{
    diaryx_core::plugin::UiContribution::SettingsTab {
        id: id.to_string(),
        label: label.to_string(),
        icon: None,
        fields,
        component: None,
    }
}

/// `UiContribution::SidebarTab` of `diaryx_core`, rendered from a page of the plugin: it is
/// written as its fields, with its variant as `slot`.
#[verifier::external_body]
fn sidebar_tab(id: &str, label: &str, icon: &str, side: Side, component_id: &str) -> (
    ui: diaryx_core::plugin::UiContribution)
    ensures
        ui_json(ui) == sidebar_tab_json(id@, label@, icon@, side, component_id@),
{
    diaryx_core::plugin::UiContribution::SidebarTab {
        id: id.to_string(),
        label: label.to_string(),
        icon: Some(icon.to_string()),
        side: match side {
            Side::Left => diaryx_core::plugin::SidebarSide::Left,
            Side::Right => diaryx_core::plugin::SidebarSide::Right,
        },
        component: diaryx_core::plugin::ComponentRef::Iframe {
            component_id: component_id.to_string(),
        },
    }
}

/// `UiContribution::StatusBarItem` of `diaryx_core`: it is written as its fields, with its variant
/// as `slot`.
#[verifier::external_body]
fn status_bar_item(id: &str, label: &str, side: Side, plugin_command: &str) -> (
    ui: diaryx_core::plugin::UiContribution)
    ensures
        ui_json(ui) == status_bar_json(id@, label@, side, plugin_command@),
{
    diaryx_core::plugin::UiContribution::StatusBarItem {
        id: id.to_string(),
        label: label.to_string(),
        position: match side {
            Side::Left => diaryx_core::plugin::StatusBarPosition::Left,
            Side::Right => diaryx_core::plugin::StatusBarPosition::Right,
        },
        plugin_command: Some(plugin_command.to_string()),
    }
}

/// `serde_json::to_value` on a contribution of `diaryx_core`, with `null` in place of an error:
/// the document that it is written as.
#[verifier::external_body]
fn ui_value(ui: &diaryx_core::plugin::UiContribution) -> (value: serde_json::Value)
    ensures
        value_contents(value) == ui_json(*ui),
{
    serde_json::to_value(ui).unwrap_or_default()
}

// ---------------------------------------------------------------------------
// Models of the user interface
// ---------------------------------------------------------------------------

/// The documents that settings fields are written as.
pub open spec fn fields_json(fields: Seq<diaryx_core::plugin::SettingsField>) -> Seq<Json> {
    fields.map_values(|f: diaryx_core::plugin::SettingsField| field_json(f))
}

/// The sign-in status.
pub open spec fn auth_status_json(label: Seq<char>, description: Option<Seq<char>>) -> Json {
    Json::Object(
        seq![
            ("description"@, nullable(description)),
            ("label"@, Json::Str(label)),
            ("type"@, Json::Str("AuthStatus"@)),
        ],
    )
}

/// A banner for a feature that takes an upgrade.
pub open spec fn upgrade_banner_json(feature: Seq<char>, description: Option<Seq<char>>) -> Json {
    Json::Object(
        seq![
            ("description"@, nullable(description)),
            ("feature"@, Json::Str(feature)),
            ("type"@, Json::Str("UpgradeBanner"@)),
        ],
    )
}

/// A heading.
pub open spec fn section_json(label: Seq<char>, description: Option<Seq<char>>) -> Json {
    Json::Object(
        seq![
            ("description"@, nullable(description)),
            ("label"@, Json::Str(label)),
            ("type"@, Json::Str("Section"@)),
        ],
    )
}

/// A text field.
pub open spec fn text_field_json(
    key: Seq<char>,
    label: Seq<char>,
    description: Option<Seq<char>>,
    placeholder: Option<Seq<char>>,
) -> Json {
    Json::Object(
        seq![
            ("description"@, nullable(description)),
            ("key"@, Json::Str(key)),
            ("label"@, Json::Str(label)),
            ("placeholder"@, nullable(placeholder)),
            ("type"@, Json::Str("Text"@)),
        ],
    )
}

/// A button.
pub open spec fn button_json(
    label: Seq<char>,
    command: Seq<char>,
    variant: Option<Seq<char>>,
) -> Json {
    Json::Object(
        seq![
            ("command"@, Json::Str(command)),
            ("label"@, Json::Str(label)),
            ("type"@, Json::Str("Button"@)),
            ("variant"@, nullable(variant)),
        ],
    )
}

/// Fields that are shown under a condition.
pub open spec fn conditional_json(condition: Seq<char>, fields: Seq<Json>) -> Json {
    Json::Object(
        seq![
            ("condition"@, Json::Str(condition)),
            ("fields"@, Json::Array(fields)),
            ("type"@, Json::Str("Conditional"@)),
        ],
    )
}

/// A tab of the settings dialog.
pub open spec fn settings_tab_json(id: Seq<char>, label: Seq<char>, fields: Seq<Json>) -> Json {
    Json::Object(
        seq![
            ("component"@, Json::Null),
            ("fields"@, Json::Array(fields)),
            ("icon"@, Json::Null),
            ("id"@, Json::Str(id)),
            ("label"@, Json::Str(label)),
            ("slot"@, Json::Str("SettingsTab"@)),
        ],
    )
}

/// The word for a side.
pub open spec fn side_word(side: Side) -> Seq<char> {
    match side {
        Side::Left => "Left"@,
        Side::Right => "Right"@,
    }
}

/// A tab of a sidebar.
pub open spec fn sidebar_tab_json(
    id: Seq<char>,
    label: Seq<char>,
    icon: Seq<char>,
    side: Side,
    component_id: Seq<char>,
) -> Json {
    Json::Object(
        seq![
            (
                "component"@,
                Json::Object(
                    seq![
                        ("component_id"@, Json::Str(component_id)),
                        ("type"@, Json::Str("Iframe"@)),
                    ],
                ),
            ),
            ("icon"@, Json::Str(icon)),
            ("id"@, Json::Str(id)),
            ("label"@, Json::Str(label)),
            ("side"@, Json::Str(side_word(side))),
            ("slot"@, Json::Str("SidebarTab"@)),
        ],
    )
}

/// An item of the status bar.
pub open spec fn status_bar_json(
    id: Seq<char>,
    label: Seq<char>,
    side: Side,
    plugin_command: Seq<char>,
) -> Json {
    Json::Object(
        seq![
            ("id"@, Json::Str(id)),
            ("label"@, Json::Str(label)),
            ("plugin_command"@, Json::Str(plugin_command)),
            ("position"@, Json::Str(side_word(side))),
            ("slot"@, Json::Str("StatusBarItem"@)),
        ],
    )
}

/// The provider of workspaces.
pub open spec fn provider_json() -> Json {
    Json::Object(
        seq![
            ("icon"@, Json::Str("cloud"@)),
            ("id"@, Json::Str("diaryx.sync"@)),
            ("label"@, Json::Str("Diaryx Sync"@)),
            ("slot"@, Json::Str("WorkspaceProvider"@)),
        ],
    )
}

/// The fields of the settings tab: the sign-in status, the upgrade banner, and, for those who
/// have upgraded, the connection.
pub open spec fn sync_settings() -> Seq<Json> {
    seq![
        auth_status_json("Account"@, Some("Sign in to enable sync."@)),
        upgrade_banner_json("Sync"@, Some("Upgrade to sync workspaces across devices."@)),
        conditional_json(
            "plus"@,
            seq![
                section_json("Connection"@, None),
                text_field_json(
                    "server_url"@,
                    "Server URL"@,
                    Some("Automatically configured when you sign in."@),
                    Some("https://sync.diaryx.org"@),
                ),
                button_json("Check Status"@, "GetProviderStatus"@, Some("outline"@)),
            ],
        ),
    ]
}

/// The contributions to the user interface.
pub open spec fn contributions() -> Seq<Json> {
    seq![
        settings_tab_json("sync-settings"@, "Sync"@, sync_settings()),
        sidebar_tab_json(
            "snapshots"@,
            "Snapshots"@,
            "history"@,
            Side::Left,
            "sync.snapshots"@,
        ),
        sidebar_tab_json("history"@, "History"@, "history"@, Side::Right, "sync.history"@),
        status_bar_json("sync-status"@, "Sync"@, Side::Right, "GetSyncStatus"@),
        provider_json(),
    ]
}

// ---------------------------------------------------------------------------
// Building the user interface
// ---------------------------------------------------------------------------

/// The fields of the settings tab.
fn build_settings() -> (fields: Vec<diaryx_core::plugin::SettingsField>)
    ensures
        fields_json(fields@) == sync_settings(),
{
    let connection: Vec<diaryx_core::plugin::SettingsField> = vec![
        section_field("Connection", None),
        text_field(
            "server_url",
            "Server URL",
            Some("Automatically configured when you sign in."),
            Some("https://sync.diaryx.org"),
        ),
        button_field("Check Status", "GetProviderStatus", Some("outline")),
    ];
    assert(fields_json(connection@) =~= seq![
        section_json("Connection"@, None),
        text_field_json(
            "server_url"@,
            "Server URL"@,
            Some("Automatically configured when you sign in."@),
            Some("https://sync.diaryx.org"@),
        ),
        button_json("Check Status"@, "GetProviderStatus"@, Some("outline"@)),
    ]);
    let fields: Vec<diaryx_core::plugin::SettingsField> = vec![
        auth_status_field("Account", Some("Sign in to enable sync.")),
        upgrade_banner_field("Sync", Some("Upgrade to sync workspaces across devices.")),
        conditional_field("plus", connection),
    ];
    assert(fields_json(fields@) =~= sync_settings());
    fields
}

/// The provider of workspaces.
fn build_provider() -> (r: JsonValue)
    ensures
        r@ == provider_json(),
        is_plain(r@),
{
    let r = json::object(
        vec![
            json::member("icon", json::string("cloud")),
            json::member("id", json::string("diaryx.sync")),
            json::member("label", json::string("Diaryx Sync")),
            json::member("slot", json::string("WorkspaceProvider")),
        ],
    );
    proof {
        let members = r@->Object_0;
        assert(members =~= provider_json()->Object_0);
        reveal_strlit("icon");
        reveal_strlit("id");
        reveal_strlit("label");
        reveal_strlit("slot");
        assert(precedes("icon"@, "id"@)) by {
            reveal_with_fuel(precedes, 3);
        }
        lemma_plain_leaves(members);
    }
    r
}

/// An object of leaves is written down as `serde_json` holds it, if its keys ascend.
proof fn lemma_plain_leaves(members: Seq<(Seq<char>, Json)>)
    requires
        forall|i: int|
            0 <= i < members.len() ==> (#[trigger] members[i]).1 is Str || members[i].1 is Bool
                || members[i].1 is Null,
        forall|i: int, j: int|
            0 <= i < j < members.len() ==> precedes(
                (#[trigger] members[i]).0,
                (#[trigger] members[j]).0,
            ),
    ensures
        is_plain(Json::Object(members)),
{
    let keys = keys_of(members);
    assert forall|i: int, j: int| 0 <= i < j < keys.len() implies precedes(
        #[trigger] keys[i],
        #[trigger] keys[j],
    ) by {
        assert(keys[i] == members[i].0);
        assert(keys[j] == members[j].0);
    }
    assert forall|i: int| 0 <= i < members.len() implies is_plain((#[trigger] members[i]).1) by {
        json::lemma_plain_leaf(members[i].1);
    }
    json::lemma_plain_object(members);
}

/// The contributions to the user interface.
fn build_ui() -> (ui: Vec<JsonValue>)
    ensures
        items_view(ui@) == contributions(),
        forall|i: int| 0 <= i < ui@.len() ==> is_plain((#[trigger] ui@[i])@),
{
    let settings = settings_tab("sync-settings", "Sync", build_settings());
    let snapshots = sidebar_tab("snapshots", "Snapshots", "history", Side::Left, "sync.snapshots");
    let history = sidebar_tab("history", "History", "history", Side::Right, "sync.history");
    let status = status_bar_item("sync-status", "Sync", Side::Right, "GetSyncStatus");
    let ui: Vec<JsonValue> = vec![
        json::from_value(ui_value(&settings)),
        json::from_value(ui_value(&snapshots)),
        json::from_value(ui_value(&history)),
        json::from_value(ui_value(&status)),
        build_provider(),
    ];
    assert(items_view(ui@) =~= contributions());
    ui
}

// ---------------------------------------------------------------------------
// Models of the rest
// ---------------------------------------------------------------------------

/// The model of a [`ServerFunction`].
pub struct FunctionView {
    pub name: Seq<char>,
    pub method: Seq<char>,
    pub path: Seq<char>,
    pub description: Seq<char>,
}

impl View for ServerFunction {
    type V = FunctionView;

    open spec fn view(&self) -> FunctionView {
        FunctionView {
            name: self.name@,
            method: self.method@,
            path: self.path@,
            description: self.description@,
        }
    }
}

/// The model of a [`PluginManifest`].
#[verifier::ext_equal]
pub struct ManifestDoc {
    pub id: Seq<char>,
    pub name: Seq<char>,
    pub version: Seq<char>,
    pub description: Seq<char>,
    pub capabilities: Seq<Seq<char>>,
    pub ui: Seq<Json>,
    pub commands: Seq<Seq<char>>,
    pub server_functions: Seq<FunctionView>,
    pub defaults: Json,
    pub reasons: Seq<(Seq<char>, Seq<char>)>,
    pub cli: Seq<Json>,
}

/// The models of the functions.
pub open spec fn functions_view(functions: Seq<ServerFunction>) -> Seq<FunctionView> {
    functions.map_values(|f: ServerFunction| f@)
}

impl View for PluginManifest {
    type V = ManifestDoc;

    open spec fn view(&self) -> ManifestDoc {
        ManifestDoc {
            id: self.id@,
            name: self.name@,
            version: self.version@,
            description: self.description@,
            capabilities: texts(self.capabilities@),
            ui: items_view(self.ui@),
            commands: texts(self.commands@),
            server_functions: functions_view(self.server_functions@),
            defaults: self.requested_permissions.defaults@,
            reasons: crate::http::headers_view(self.requested_permissions.reasons@),
            cli: items_view(self.cli@),
        }
    }
}

/// The commands that the plugin declares.
pub open spec fn declared_commands() -> Seq<Seq<char>> {
    seq![
        // Sync
        "SyncPush"@,
        "SyncPull"@,
        "Sync"@,
        "SyncStatus"@,
        "GetSyncStatus"@,
        // Provider
        "GetProviderStatus"@,
        "ListRemoteWorkspaces"@,
        "LinkWorkspace"@,
        "UnlinkWorkspace"@,
        // Iframe Components
        "get_component_html"@,
        "get_config"@,
        "set_config"@,
        // Namespace API
        "NsCreateNamespace"@,
        "NsListNamespaces"@,
        "NsPutObject"@,
        "NsGetObject"@,
        "NsDeleteObject"@,
        "NsListObjects"@,
    ]
}

/// An endpoint of the server.
pub open spec fn function_of(
    name: Seq<char>,
    method: Seq<char>,
    path: Seq<char>,
    description: Seq<char>,
) -> FunctionView {
    FunctionView { name, method, path, description }
}

/// The endpoints of the server that the plugin uses.
pub open spec fn declared_functions() -> Seq<FunctionView> {
    seq![
        function_of(
            "create_namespace"@,
            "POST"@,
            "/namespaces"@,
            "Create a user-owned namespace"@,
        ),
        function_of(
            "list_namespaces"@,
            "GET"@,
            "/namespaces"@,
            "List namespaces owned by the authenticated user"@,
        ),
        function_of(
            "put_object"@,
            "PUT"@,
            "/namespaces/{id}/objects/{key}"@,
            "Store bytes under the given key in a namespace"@,
        ),
        function_of(
            "get_object"@,
            "GET"@,
            "/namespaces/{id}/objects/{key}"@,
            "Retrieve bytes by key from a namespace"@,
        ),
        function_of(
            "delete_object"@,
            "DELETE"@,
            "/namespaces/{id}/objects/{key}"@,
            "Delete an object from a namespace"@,
        ),
        function_of(
            "list_objects"@,
            "GET"@,
            "/namespaces/{id}/objects"@,
            "List object metadata in a namespace"@,
        ),
    ]
}

/// A permission for everything.
pub open spec fn everything_json() -> Json {
    Json::Object(
        seq![("exclude"@, strings_json(Seq::empty())), ("include"@, strings_json(seq!["all"@]))],
    )
}

/// The permissions that the plugin asks for.
pub open spec fn default_permissions() -> Json {
    Json::Object(
        seq![
            ("create_files"@, everything_json()),
            ("delete_files"@, everything_json()),
            ("edit_files"@, everything_json()),
            ("http_requests"@, everything_json()),
            ("plugin_storage"@, everything_json()),
            ("read_files"@, everything_json()),
        ],
    )
}

/// Why the plugin asks for them.
pub open spec fn permission_reasons() -> Seq<(Seq<char>, Seq<char>)> {
    seq![
        ("plugin_storage"@, "Store sync configuration and manifest"@),
        ("http_requests"@, "Communicate with the sync server"@),
        ("read_files"@, "Read workspace files for syncing"@),
        ("edit_files"@, "Apply remote changes to workspace files"@),
        ("create_files"@, "Create files received from remote sync"@),
        ("delete_files"@, "Delete files removed by remote sync"@),
    ]
}

/// A string that there may be, as a document.
pub open spec fn maybe_string(s: Option<Seq<char>>) -> Option<Json> {
    match s {
        Some(s) => Some(Json::Str(s)),
        None => None,
    }
}

/// `true`, or nothing.
pub open spec fn maybe_true(b: bool) -> Option<Json> {
    if b {
        Some(Json::Bool(true))
    } else {
        None
    }
}

/// The members of an argument of a subcommand.
pub open spec fn argument_members(
    name: Seq<char>,
    help: Seq<char>,
    short: Option<Seq<char>>,
    long: Option<Seq<char>>,
    required: bool,
    is_flag: bool,
) -> Seq<(Seq<char>, Option<Json>)> {
    seq![
        ("help"@, Some(Json::Str(help))),
        ("is_flag"@, maybe_true(is_flag)),
        ("long"@, maybe_string(long)),
        ("name"@, Some(Json::Str(name))),
        ("required"@, maybe_true(required)),
        ("short"@, maybe_string(short)),
    ]
}

/// An argument of a subcommand that has to be given.
pub open spec fn required_argument(name: Seq<char>, help: Seq<char>) -> Json {
    Json::Object(present(argument_members(name, help, None, None, true, false)))
}

/// An argument of a subcommand that is given by its name.
pub open spec fn named_argument(
    name: Seq<char>,
    short: Option<Seq<char>>,
    help: Seq<char>,
) -> Json {
    Json::Object(present(argument_members(name, help, short, Some(name), false, false)))
}

/// An argument of a subcommand that stands for itself.
pub open spec fn flag_argument(name: Seq<char>, help: Seq<char>) -> Json {
    Json::Object(present(argument_members(name, help, None, Some(name), false, true)))
}

/// The members of a subcommand.
pub open spec fn subcommand_members(
    name: Seq<char>,
    about: Seq<char>,
    handler: Seq<char>,
    outside_workspace: bool,
    args: Option<Seq<Json>>,
) -> Seq<(Seq<char>, Option<Json>)> {
    seq![
        ("about"@, Some(Json::Str(about))),
        (
            "args"@,
            match args {
                Some(items) => Some(Json::Array(items)),
                None => None,
            },
        ),
        ("name"@, Some(Json::Str(name))),
        ("native_handler"@, Some(Json::Str(handler))),
        (
            "requires_workspace"@,
            if outside_workspace {
                Some(Json::Bool(false))
            } else {
                None
            },
        ),
    ]
}

/// A subcommand.
pub open spec fn subcommand(
    name: Seq<char>,
    about: Seq<char>,
    handler: Seq<char>,
    outside_workspace: bool,
    args: Option<Seq<Json>>,
) -> Json {
    Json::Object(present(subcommand_members(name, about, handler, outside_workspace, args)))
}

/// The subcommands of `sync`.
pub open spec fn subcommands() -> Seq<Json> {
    seq![
        subcommand(
            "login"@,
            "Authenticate via magic link"@,
            "sync_login"@,
            true,
            Some(
                seq![
                    required_argument("email"@, "Email address"@),
                    named_argument("server"@, Some("s"@), "Server URL"@),
                ],
            ),
        ),
        subcommand(
            "verify"@,
            "Complete authentication"@,
            "sync_verify"@,
            true,
            Some(
                seq![
                    required_argument("token"@, "Verification token"@),
                    named_argument("device-name"@, None, "Device name"@),
                ],
            ),
        ),
        subcommand("logout"@, "Clear credentials"@, "sync_logout"@, true, None),
        subcommand("status"@, "Show sync status"@, "sync_status"@, false, None),
        subcommand("push"@, "Push local changes to server"@, "sync_push"@, false, None),
        subcommand("pull"@, "Pull remote changes from server"@, "sync_pull"@, false, None),
        subcommand(
            "config"@,
            "Configure sync settings"@,
            "sync_config"@,
            false,
            Some(
                seq![
                    named_argument("server"@, None, "Set server URL"@),
                    named_argument("workspace-id"@, None, "Set workspace ID"@),
                    flag_argument("show"@, "Show current config"@),
                ],
            ),
        ),
    ]
}

/// The command that the plugin adds to the command line.
pub open spec fn sync_cli() -> Json {
    Json::Object(
        seq![
            ("about"@, Json::Str("Sync workspace with remote server"@)),
            ("aliases"@, strings_json(seq!["sy"@])),
            ("name"@, Json::Str("sync"@)),
            ("subcommands"@, Json::Array(subcommands())),
        ],
    )
}

/// What the plugin tells the host of itself, in a given version.
pub open spec fn plugin_manifest(version: Seq<char>) -> ManifestDoc {
    ManifestDoc {
        id: "diaryx.sync"@,
        name: "Sync"@,
        version,
        description: "File sync across devices"@,
        capabilities: seq!["workspace_events"@, "file_events"@, "custom_commands"@],
        ui: contributions(),
        commands: declared_commands(),
        server_functions: declared_functions(),
        defaults: default_permissions(),
        reasons: permission_reasons(),
        cli: seq![sync_cli()],
    }
}

// ---------------------------------------------------------------------------
// Building the rest
// ---------------------------------------------------------------------------

/// The commands that the plugin declares.
pub fn all_commands() -> (commands: Vec<String>)
    ensures
        texts(commands@) == declared_commands(),
{
    let commands: Vec<String> = vec![
        // Sync
        "SyncPush".to_owned(),
        "SyncPull".to_owned(),
        "Sync".to_owned(),
        "SyncStatus".to_owned(),
        "GetSyncStatus".to_owned(),
        // Provider
        "GetProviderStatus".to_owned(),
        "ListRemoteWorkspaces".to_owned(),
        "LinkWorkspace".to_owned(),
        "UnlinkWorkspace".to_owned(),
        // Iframe Components
        "get_component_html".to_owned(),
        "get_config".to_owned(),
        "set_config".to_owned(),
        // Namespace API
        "NsCreateNamespace".to_owned(),
        "NsListNamespaces".to_owned(),
        "NsPutObject".to_owned(),
        "NsGetObject".to_owned(),
        "NsDeleteObject".to_owned(),
        "NsListObjects".to_owned(),
    ];
    assert(texts(commands@) =~= declared_commands());
    commands
}

/// An endpoint of the server.
fn server_function(name: &str, method: &str, path: &str, description: &str) -> (f: ServerFunction)
    ensures
        f@ == function_of(name@, method@, path@, description@),
{
    ServerFunction {
        name: name.to_owned(),
        method: method.to_owned(),
        path: path.to_owned(),
        description: description.to_owned(),
    }
}

/// The endpoints of the server that the plugin uses.
fn build_functions() -> (functions: Vec<ServerFunction>)
    ensures
        functions_view(functions@) == declared_functions(),
{
    let functions: Vec<ServerFunction> = vec![
        server_function(
            "create_namespace",
            "POST",
            "/namespaces",
            "Create a user-owned namespace",
        ),
        server_function(
            "list_namespaces",
            "GET",
            "/namespaces",
            "List namespaces owned by the authenticated user",
        ),
        server_function(
            "put_object",
            "PUT",
            "/namespaces/{id}/objects/{key}",
            "Store bytes under the given key in a namespace",
        ),
        server_function(
            "get_object",
            "GET",
            "/namespaces/{id}/objects/{key}",
            "Retrieve bytes by key from a namespace",
        ),
        server_function(
            "delete_object",
            "DELETE",
            "/namespaces/{id}/objects/{key}",
            "Delete an object from a namespace",
        ),
        server_function(
            "list_objects",
            "GET",
            "/namespaces/{id}/objects",
            "List object metadata in a namespace",
        ),
    ];
    assert(functions_view(functions@) =~= declared_functions());
    functions
}

/// A permission for everything.
fn build_everything() -> (r: JsonValue)
    ensures
        r@ == everything_json(),
        is_plain(r@),
{
    let none: Vec<String> = Vec::new();
    let all: Vec<String> = vec!["all".to_owned()];
    assert(texts(none@) =~= Seq::empty());
    assert(texts(all@) =~= seq!["all"@]);
    let r = json::object(
        vec![
            json::member("exclude", json::strings(&none)),
            json::member("include", json::strings(&all)),
        ],
    );
    proof {
        let members = r@->Object_0;
        assert(members =~= everything_json()->Object_0);
        reveal_strlit("exclude");
        reveal_strlit("include");
        assert(precedes("exclude"@, "include"@));
        json::lemma_plain_strings(Seq::empty());
        json::lemma_plain_strings(seq!["all"@]);
        json::lemma_plain_object(members);
    }
    r
}

/// The permissions that the plugin asks for.
fn build_defaults() -> (r: JsonValue)
    ensures
        r@ == default_permissions(),
        is_plain(r@),
{
    let r = json::object(
        vec![
            json::member("create_files", build_everything()),
            json::member("delete_files", build_everything()),
            json::member("edit_files", build_everything()),
            json::member("http_requests", build_everything()),
            json::member("plugin_storage", build_everything()),
            json::member("read_files", build_everything()),
        ],
    );
    proof {
        let members = r@->Object_0;
        assert(members =~= default_permissions()->Object_0);
        reveal_strlit("create_files");
        reveal_strlit("delete_files");
        reveal_strlit("edit_files");
        reveal_strlit("http_requests");
        reveal_strlit("plugin_storage");
        reveal_strlit("read_files");
        let keys = keys_of(members);
        assert forall|i: int, j: int| 0 <= i < j < keys.len() implies precedes(
            #[trigger] keys[i],
            #[trigger] keys[j],
        ) by {
            assert(keys[i] == members[i].0);
            assert(keys[j] == members[j].0);
        }
        json::lemma_plain_object(members);
    }
    r
}

/// A reason for a permission.
fn reason(permission: &str, why: &str) -> (r: (String, String))
    ensures
        r.0@ == permission@,
        r.1@ == why@,
{
    (permission.to_owned(), why.to_owned())
}

/// Why the plugin asks for the permissions.
fn build_reasons() -> (reasons: Vec<(String, String)>)
    ensures
        crate::http::headers_view(reasons@) == permission_reasons(),
{
    let reasons: Vec<(String, String)> = vec![
        reason("plugin_storage", "Store sync configuration and manifest"),
        reason("http_requests", "Communicate with the sync server"),
        reason("read_files", "Read workspace files for syncing"),
        reason("edit_files", "Apply remote changes to workspace files"),
        reason("create_files", "Create files received from remote sync"),
        reason("delete_files", "Delete files removed by remote sync"),
    ];
    assert(crate::http::headers_view(reasons@) =~= permission_reasons());
    reasons
}

/// A string that there may be, as a document.
fn string_if(s: Option<&str>) -> (r: Option<JsonValue>)
    ensures
        (match r {
            Some(v) => Some(v@),
            None => None,
        }) == maybe_string(optional_str(s)),
{
    match s {
        Some(s) => Some(json::string(s)),
        None => None,
    }
}

/// `true`, or nothing.
fn true_if(b: bool) -> (r: Option<JsonValue>)
    ensures
        (match r {
            Some(v) => Some(v@),
            None => None,
        }) == maybe_true(b),
{
    if b {
        Some(JsonValue::Bool(true))
    } else {
        None
    }
}

/// An argument of a subcommand.
fn argument(
    name: &str,
    help: &str,
    short: Option<&str>,
    long: Option<&str>,
    required: bool,
    is_flag: bool,
) -> (r: JsonValue)
    ensures
        r@ == Json::Object(
            present(
                argument_members(
                    name@,
                    help@,
                    optional_str(short),
                    optional_str(long),
                    required,
                    is_flag,
                ),
            ),
        ),
        is_plain(r@),
{
    let members: Vec<(String, Option<JsonValue>)> = vec![
        json::optional_member("help", Some(json::string(help))),
        json::optional_member("is_flag", true_if(is_flag)),
        json::optional_member("long", string_if(long)),
        json::optional_member("name", Some(json::string(name))),
        json::optional_member("required", true_if(required)),
        json::optional_member("short", string_if(short)),
    ];
    proof {
        let all = argument_members(
            name@,
            help@,
            optional_str(short),
            optional_str(long),
            required,
            is_flag,
        );
        assert(optional_members(members@) =~= all);
        reveal_strlit("help");
        reveal_strlit("is_flag");
        reveal_strlit("long");
        reveal_strlit("name");
        reveal_strlit("required");
        reveal_strlit("short");
        lemma_plain_optional_leaves(all);
    }
    json::object_of(members)
}

/// An object of leaves that there may be is written down as `serde_json` holds it, if its keys
/// ascend.
proof fn lemma_plain_optional_leaves(members: Seq<(Seq<char>, Option<Json>)>)
    requires
        forall|i: int|
            0 <= i < members.len() && (#[trigger] members[i]).1 is Some ==> members[i].1->0 is Str
                || members[i].1->0 is Bool,
        forall|i: int, j: int|
            0 <= i < j < members.len() ==> precedes(
                (#[trigger] members[i]).0,
                (#[trigger] members[j]).0,
            ),
    ensures
        is_plain(Json::Object(present(members))),
{
    let keys = optional_keys(members);
    assert forall|i: int, j: int| 0 <= i < j < keys.len() implies precedes(
        #[trigger] keys[i],
        #[trigger] keys[j],
    ) by {
        assert(keys[i] == members[i].0);
        assert(keys[j] == members[j].0);
    }
    assert forall|i: int| 0 <= i < members.len() && (#[trigger] members[i]).1 is Some implies is_plain(
        members[i].1->0,
    ) by {
        json::lemma_plain_leaf(members[i].1->0);
    }
    json::lemma_plain_present(members);
}

/// The models of items that there may be.
pub open spec fn optional_items(items: Option<Vec<JsonValue>>) -> Option<Seq<Json>> {
    match items {
        Some(items) => Some(items_view(items@)),
        None => None,
    }
}

/// A subcommand.
fn build_subcommand(
    name: &str,
    about: &str,
    handler: &str,
    outside_workspace: bool,
    args: Option<Vec<JsonValue>>,
) -> (r: JsonValue)
    requires
        args matches Some(items) ==> forall|i: int|
            0 <= i < items@.len() ==> is_plain((#[trigger] items@[i])@),
    ensures
        r@ == subcommand(
            name@,
            about@,
            handler@,
            outside_workspace,
            optional_items(args),
        ),
        is_plain(r@),
{
    let ghost given = optional_items(args);
    let list: Option<JsonValue> = match args {
        Some(items) => Some(json::array(items)),
        None => None,
    };
    let requires_workspace: Option<JsonValue> = if outside_workspace {
        Some(JsonValue::Bool(false))
    } else {
        None
    };
    let members: Vec<(String, Option<JsonValue>)> = vec![
        json::optional_member("about", Some(json::string(about))),
        json::optional_member("args", list),
        json::optional_member("name", Some(json::string(name))),
        json::optional_member("native_handler", Some(json::string(handler))),
        json::optional_member("requires_workspace", requires_workspace),
    ];
    proof {
        let all = subcommand_members(name@, about@, handler@, outside_workspace, given);
        assert(optional_members(members@) =~= all);
        reveal_strlit("about");
        reveal_strlit("args");
        reveal_strlit("name");
        reveal_strlit("native_handler");
        reveal_strlit("requires_workspace");
        assert(precedes("about"@, "args"@)) by {
            reveal_with_fuel(precedes, 3);
        }
        assert(precedes("name"@, "native_handler"@)) by {
            reveal_with_fuel(precedes, 4);
        }
        let keys = optional_keys(all);
        assert forall|i: int, j: int| 0 <= i < j < keys.len() implies precedes(
            #[trigger] keys[i],
            #[trigger] keys[j],
        ) by {
            assert(keys[i] == all[i].0);
            assert(keys[j] == all[j].0);
        }
        assert forall|i: int| 0 <= i < all.len() && (#[trigger] all[i]).1 is Some implies is_plain(
            all[i].1->0,
        ) by {
            if i == 1 {
                json::lemma_plain_array(given->0);
            } else {
                json::lemma_plain_leaf(all[i].1->0);
            }
        }
        json::lemma_plain_present(all);
    }
    json::object_of(members)
}

/// The subcommands of `sync`.
fn build_subcommands() -> (r: Vec<JsonValue>)
    ensures
        items_view(r@) == subcommands(),
        forall|i: int| 0 <= i < r@.len() ==> is_plain((#[trigger] r@[i])@),
{
    let login: Vec<JsonValue> = vec![
        argument("email", "Email address", None, None, true, false),
        argument("server", "Server URL", Some("s"), Some("server"), false, false),
    ];
    assert(items_view(login@) =~= seq![
        required_argument("email"@, "Email address"@),
        named_argument("server"@, Some("s"@), "Server URL"@),
    ]);
    let verify: Vec<JsonValue> = vec![
        argument("token", "Verification token", None, None, true, false),
        argument("device-name", "Device name", None, Some("device-name"), false, false),
    ];
    assert(items_view(verify@) =~= seq![
        required_argument("token"@, "Verification token"@),
        named_argument("device-name"@, None, "Device name"@),
    ]);
    let config: Vec<JsonValue> = vec![
        argument("server", "Set server URL", None, Some("server"), false, false),
        argument("workspace-id", "Set workspace ID", None, Some("workspace-id"), false, false),
        argument("show", "Show current config", None, Some("show"), false, true),
    ];
    assert(items_view(config@) =~= seq![
        named_argument("server"@, None, "Set server URL"@),
        named_argument("workspace-id"@, None, "Set workspace ID"@),
        flag_argument("show"@, "Show current config"@),
    ]);
    let r: Vec<JsonValue> = vec![
        build_subcommand("login", "Authenticate via magic link", "sync_login", true, Some(login)),
        build_subcommand("verify", "Complete authentication", "sync_verify", true, Some(verify)),
        build_subcommand("logout", "Clear credentials", "sync_logout", true, None),
        build_subcommand("status", "Show sync status", "sync_status", false, None),
        build_subcommand("push", "Push local changes to server", "sync_push", false, None),
        build_subcommand("pull", "Pull remote changes from server", "sync_pull", false, None),
        build_subcommand("config", "Configure sync settings", "sync_config", false, Some(config)),
    ];
    assert(items_view(r@) =~= subcommands());
    r
}

/// The command that the plugin adds to the command line.
fn build_cli() -> (r: JsonValue)
    ensures
        r@ == sync_cli(),
        is_plain(r@),
{
    let aliases: Vec<String> = vec!["sy".to_owned()];
    assert(texts(aliases@) =~= seq!["sy"@]);
    let list: Vec<JsonValue> = build_subcommands();
    proof {
        let items = items_view(list@);
        json::lemma_plain_array(items);
    }
    let r = json::object(
        vec![
            json::member("about", json::string("Sync workspace with remote server")),
            json::member("aliases", json::strings(&aliases)),
            json::member("name", json::string("sync")),
            json::member("subcommands", json::array(list)),
        ],
    );
    proof {
        let members = r@->Object_0;
        assert(members =~= sync_cli()->Object_0);
        reveal_strlit("about");
        reveal_strlit("aliases");
        reveal_strlit("name");
        reveal_strlit("subcommands");
        assert(precedes("about"@, "aliases"@)) by {
            reveal_with_fuel(precedes, 3);
        }
        json::lemma_plain_leaf(members[0].1);
        json::lemma_plain_strings(seq!["sy"@]);
        json::lemma_plain_leaf(members[2].1);
        let keys = keys_of(members);
        assert forall|i: int, j: int| 0 <= i < j < keys.len() implies precedes(
            #[trigger] keys[i],
            #[trigger] keys[j],
        ) by {
            assert(keys[i] == members[i].0);
            assert(keys[j] == members[j].0);
        }
        json::lemma_plain_object(members);
    }
    r
}

/// What the plugin tells the host of itself, in a given version.
pub fn build_manifest(version: &str) -> (manifest: PluginManifest)
    ensures
        manifest@ == plugin_manifest(version@),
        forall|i: int| 0 <= i < manifest.ui@.len() ==> is_plain((#[trigger] manifest.ui@[i])@),
        forall|i: int| 0 <= i < manifest.cli@.len() ==> is_plain((#[trigger] manifest.cli@[i])@),
        is_plain(manifest.requested_permissions.defaults@),
{
    let manifest = PluginManifest {
        id: "diaryx.sync".to_owned(),
        name: "Sync".to_owned(),
        version: version.to_owned(),
        description: "File sync across devices".to_owned(),
        capabilities: vec![
            "workspace_events".to_owned(),
            "file_events".to_owned(),
            "custom_commands".to_owned(),
        ],
        ui: build_ui(),
        commands: all_commands(),
        server_functions: build_functions(),
        requested_permissions: Permissions { defaults: build_defaults(), reasons: build_reasons() },
        cli: vec![build_cli()],
    };
    proof {
        assert(manifest@.capabilities =~= plugin_manifest(version@).capabilities);
        assert(manifest@.cli =~= plugin_manifest(version@).cli);
        assert(manifest@ =~= plugin_manifest(version@));
    }
    manifest
}

// ---------------------------------------------------------------------------
// The text of the manifest
// ---------------------------------------------------------------------------

/// The parts of a `GuestManifest` of `diaryx_plugin_sdk`.
struct GuestParts {
    id: String,
    name: String,
    version: String,
    description: String,
    capabilities: Vec<String>,
    ui: Vec<serde_json::Value>,
    commands: Vec<String>,
    server_functions: Vec<ServerFunction>,
    defaults: serde_json::Value,
    reasons: Vec<(String, String)>,
    cli: Vec<serde_json::Value>,
}

/// What values of `serde_json` hold.
spec fn values_contents(values: Seq<serde_json::Value>) -> Seq<Json> {
    values.map_values(|v: serde_json::Value| value_contents(v))
}

impl GuestParts {
    spec fn view(&self) -> ManifestDoc {
        ManifestDoc {
            id: self.id@,
            name: self.name@,
            version: self.version@,
            description: self.description@,
            capabilities: texts(self.capabilities@),
            ui: values_contents(self.ui@),
            commands: texts(self.commands@),
            server_functions: functions_view(self.server_functions@),
            defaults: value_contents(self.defaults),
            reasons: crate::http::headers_view(self.reasons@),
            cli: values_contents(self.cli@),
        }
    }
}

/// An endpoint of the server as a document.
pub open spec fn function_json(f: FunctionView) -> Json {
    Json::Object(
        seq![
            ("description"@, Json::Str(f.description)),
            ("method"@, Json::Str(f.method)),
            ("name"@, Json::Str(f.name)),
            ("path"@, Json::Str(f.path)),
        ],
    )
}

impl ManifestDoc {
    /// Whether what the manifest holds is nested no deeper than a parser follows, and all its
    /// numbers are integers.
    pub open spec fn is_shallow(self) -> bool {
        &&& forall|i: int| 0 <= i < self.ui.len() ==> is_shallow(#[trigger] self.ui[i], 100)
        &&& forall|i: int| 0 <= i < self.cli.len() ==> is_shallow(#[trigger] self.cli[i], 100)
        &&& is_shallow(self.defaults, 100)
    }

    /// The manifest as a document. The endpoints are left out if there are none.
    pub open spec fn json(self) -> Json {
        Json::Object(
            present(
                seq![
                    ("capabilities"@, Some(strings_json(self.capabilities))),
                    ("cli"@, Some(Json::Array(self.cli))),
                    ("commands"@, Some(strings_json(self.commands))),
                    ("conversions"@, Some(strings_json(Seq::empty()))),
                    ("description"@, Some(Json::Str(self.description))),
                    ("id"@, Some(Json::Str(self.id))),
                    ("name"@, Some(Json::Str(self.name))),
                    ("protocol_version"@, Some(Json::Number(JsonNumber::PosInt(1)))),
                    (
                        "requested_permissions"@,
                        Some(
                            Json::Object(
                                seq![
                                    ("defaults"@, self.defaults),
                                    ("reasons"@, map_json(header_map(self.reasons))),
                                ],
                            ),
                        ),
                    ),
                    (
                        "server_functions"@,
                        if self.server_functions.len() == 0 {
                            None
                        } else {
                            Some(
                                Json::Array(
                                    self.server_functions.map_values(
                                        |f: FunctionView| function_json(f),
                                    ),
                                ),
                            )
                        },
                    ),
                    ("ui"@, Some(Json::Array(self.ui))),
                    ("version"@, Some(Json::Str(self.version))),
                ],
            ),
        )
    }
}

/// `GuestManifest` of `diaryx_plugin_sdk`, made of its parts by its builder functions and written
/// by `serde_json::to_string`, which cannot fail: `serde_json` reads the text back as the document
/// of those parts, unless a part is nested deeper than it follows or holds a number that is no
/// integer. Nothing is stated of the order in which the reasons stand in the text.
#[verifier::external_body]
fn guest_manifest_text(parts: GuestParts) -> (r: Result<String, String>)
    ensures
        match r {
            Ok(text) => parts@.is_shallow() ==> json_parse(text@) == Ok::<Json, Seq<char>>(
                parts@.json(),
            ),
            Err(_) => false,
        },
{
    let functions = parts.server_functions.into_iter().map(|f| ServerFunctionDecl {
        name: f.name,
        method: f.method,
        path: f.path,
        description: f.description,
    }).collect();
    let permissions = GuestRequestedPermissions {
        defaults: parts.defaults,
        reasons: parts.reasons.into_iter().collect(),
    };
    let manifest = GuestManifest::new(
        parts.id, parts.name, parts.version, parts.description, parts.capabilities,
    ).ui(parts.ui).commands(parts.commands).cli(parts.cli).server_functions(functions)
        .requested_permissions(permissions);
    serde_json::to_string(&manifest).map_err(|e| e.to_string())
}

/// Documents as ones of `serde_json`.
fn into_values(items: Vec<JsonValue>) -> (values: Vec<serde_json::Value>)
    requires
        forall|i: int| 0 <= i < items@.len() ==> is_plain((#[trigger] items@[i])@),
    ensures
        values_contents(values@) == items_view(items@),
{
    let mut values: Vec<serde_json::Value> = Vec::new();
    for item in it: items
        invariant
            it.seq() == items@,
            forall|i: int| 0 <= i < items@.len() ==> is_plain((#[trigger] items@[i])@),
            values@.len() == it.index(),
            forall|j: int|
                0 <= j < it.index() ==> value_contents(#[trigger] values@[j]) == items@[j]@,
    {
        assert(is_plain(items@[it.index() as int]@));
        values.push(item.into_value());
    }
    assert(values_contents(values@) =~= items_view(items@));
    values
}

/// The text by which the plugin tells the host of itself, in a given version.
pub fn manifest(version: &str) -> (r: Result<String, String>)
    ensures
        match r {
            Ok(text) => json_parse(text@) == Ok::<Json, Seq<char>>(
                plugin_manifest(version@).json(),
            ),
            Err(_) => false,
        },
{
    let m: PluginManifest = build_manifest(version);
    let ghost doc = m@;
    let ghost defaults = m.requested_permissions.defaults@;
    let parts = GuestParts {
        id: m.id,
        name: m.name,
        version: m.version,
        description: m.description,
        capabilities: m.capabilities,
        ui: into_values(m.ui),
        commands: m.commands,
        server_functions: m.server_functions,
        defaults: m.requested_permissions.defaults.into_value(),
        reasons: m.requested_permissions.reasons,
        cli: into_values(m.cli),
    };
    proof {
        assert(parts@ =~= doc);
        lemma_manifest_is_shallow(version@);
    }
    guest_manifest_text(parts)
}

proof fn lemma_flat(value: Json)
    requires
        value matches Json::Object(members) && forall|i: int|
            0 <= i < members.len() ==> (#[trigger] members[i]).1 is Str || members[i].1 is Null,
    ensures
        is_shallow(value, 1),
{
    json::lemma_shallow_object(value->Object_0, 0);
}

proof fn lemma_flat_present(members: Seq<(Seq<char>, Option<Json>)>)
    requires
        forall|i: int|
            0 <= i < members.len() && (#[trigger] members[i]).1 is Some ==> members[i].1->0 is Str
                || members[i].1->0 is Bool,
    ensures
        is_shallow(Json::Object(present(members)), 1),
{
    json::lemma_shallow_present(members, 0);
}

proof fn lemma_shallow_settings()
    ensures
        forall|i: int|
            0 <= i < contributions().len() ==> is_shallow(#[trigger] contributions()[i], 100),
{
    let connection = seq![
        section_json("Connection"@, None),
        text_field_json(
            "server_url"@,
            "Server URL"@,
            Some("Automatically configured when you sign in."@),
            Some("https://sync.diaryx.org"@),
        ),
        button_json("Check Status"@, "GetProviderStatus"@, Some("outline"@)),
    ];
    lemma_flat(connection[0]);
    lemma_flat(connection[1]);
    lemma_flat(connection[2]);
    json::lemma_shallow_array(connection, 1);
    let settings = sync_settings();
    lemma_flat(settings[0]);
    lemma_flat(settings[1]);
    json::lemma_shallow_object(settings[2]->Object_0, 2);
    json::lemma_shallow_more(settings[0], 1, 3);
    json::lemma_shallow_more(settings[1], 1, 3);
    json::lemma_shallow_array(settings, 3);
    let all = contributions();
    json::lemma_shallow_object(all[0]->Object_0, 4);
    json::lemma_shallow_more(all[0], 5, 100);
    lemma_flat(all[1]->Object_0[0].1);
    lemma_flat(all[2]->Object_0[0].1);
    json::lemma_shallow_object(all[1]->Object_0, 1);
    json::lemma_shallow_object(all[2]->Object_0, 1);
    json::lemma_shallow_more(all[1], 2, 100);
    json::lemma_shallow_more(all[2], 2, 100);
    lemma_flat(all[3]);
    lemma_flat(all[4]);
    json::lemma_shallow_more(all[3], 1, 100);
    json::lemma_shallow_more(all[4], 1, 100);
}

proof fn lemma_shallow_subcommand(
    name: Seq<char>,
    about: Seq<char>,
    handler: Seq<char>,
    outside_workspace: bool,
    args: Option<Seq<Json>>,
)
    requires
        args matches Some(items) ==> forall|i: int|
            0 <= i < items.len() ==> is_shallow(#[trigger] items[i], 1),
    ensures
        is_shallow(subcommand(name, about, handler, outside_workspace, args), 3),
{
    if args is Some {
        json::lemma_shallow_array(args->0, 1);
    }
    json::lemma_shallow_present(
        subcommand_members(name, about, handler, outside_workspace, args),
        2,
    );
}

proof fn lemma_shallow_argument(
    name: Seq<char>,
    help: Seq<char>,
    short: Option<Seq<char>>,
    long: Option<Seq<char>>,
    required: bool,
    is_flag: bool,
)
    ensures
        is_shallow(
            Json::Object(present(argument_members(name, help, short, long, required, is_flag))),
            1,
        ),
{
    lemma_flat_present(argument_members(name, help, short, long, required, is_flag));
}

proof fn lemma_shallow_cli()
    ensures
        is_shallow(sync_cli(), 100),
{
    lemma_shallow_argument("email"@, "Email address"@, None, None, true, false);
    lemma_shallow_argument("server"@, "Server URL"@, Some("s"@), Some("server"@), false, false);
    lemma_shallow_argument("token"@, "Verification token"@, None, None, true, false);
    lemma_shallow_argument(
        "device-name"@,
        "Device name"@,
        None,
        Some("device-name"@),
        false,
        false,
    );
    lemma_shallow_argument("server"@, "Set server URL"@, None, Some("server"@), false, false);
    lemma_shallow_argument(
        "workspace-id"@,
        "Set workspace ID"@,
        None,
        Some("workspace-id"@),
        false,
        false,
    );
    lemma_shallow_argument("show"@, "Show current config"@, None, Some("show"@), false, true);
    let login = seq![
        required_argument("email"@, "Email address"@),
        named_argument("server"@, Some("s"@), "Server URL"@),
    ];
    let verify = seq![
        required_argument("token"@, "Verification token"@),
        named_argument("device-name"@, None, "Device name"@),
    ];
    let config = seq![
        named_argument("server"@, None, "Set server URL"@),
        named_argument("workspace-id"@, None, "Set workspace ID"@),
        flag_argument("show"@, "Show current config"@),
    ];
    lemma_shallow_subcommand(
        "login"@,
        "Authenticate via magic link"@,
        "sync_login"@,
        true,
        Some(login),
    );
    lemma_shallow_subcommand(
        "verify"@,
        "Complete authentication"@,
        "sync_verify"@,
        true,
        Some(verify),
    );
    lemma_shallow_subcommand("logout"@, "Clear credentials"@, "sync_logout"@, true, None);
    lemma_shallow_subcommand("status"@, "Show sync status"@, "sync_status"@, false, None);
    lemma_shallow_subcommand("push"@, "Push local changes to server"@, "sync_push"@, false, None);
    lemma_shallow_subcommand(
        "pull"@,
        "Pull remote changes from server"@,
        "sync_pull"@,
        false,
        None,
    );
    lemma_shallow_subcommand(
        "config"@,
        "Configure sync settings"@,
        "sync_config"@,
        false,
        Some(config),
    );
    let list = subcommands();
    json::lemma_shallow_array(list, 3);
    let members = sync_cli()->Object_0;
    lemma_shallow_strings(seq!["sy"@]);
    json::lemma_shallow_more(members[1].1, 1, 4);
    json::lemma_shallow_object(members, 4);
    json::lemma_shallow_more(sync_cli(), 5, 100);
}

proof fn lemma_shallow_strings(strings: Seq<Seq<char>>)
    ensures
        is_shallow(strings_json(strings), 1),
{
    json::lemma_shallow_array(strings.map_values(|s: Seq<char>| Json::Str(s)), 0);
}

/// What the plugin tells of itself is nested no deeper than a parser follows, and holds no
/// number that is no integer.
pub proof fn lemma_manifest_is_shallow(version: Seq<char>)
    ensures
        plugin_manifest(version).is_shallow(),
{
    lemma_shallow_settings();
    lemma_shallow_cli();
    lemma_shallow_strings(Seq::empty());
    lemma_shallow_strings(seq!["all"@]);
    json::lemma_shallow_object(everything_json()->Object_0, 1);
    let members = default_permissions()->Object_0;
    json::lemma_shallow_object(members, 2);
    json::lemma_shallow_more(default_permissions(), 3, 100);
}

// ---------------------------------------------------------------------------
// Laws
// ---------------------------------------------------------------------------

/// Every command that the plugin declares is one that it carries out.
pub proof fn lemma_declared_commands_are_known(i: int)
    requires
        0 <= i < declared_commands().len(),
    ensures
        command_named(declared_commands()[i]) is Some,
{
}

/// Every permission that the plugin asks for has a reason.
pub proof fn lemma_permissions_have_reasons(i: int)
    requires
        0 <= i < default_permissions()->Object_0.len(),
    ensures
        exists|j: int|
            0 <= j < permission_reasons().len() && (#[trigger] permission_reasons()[j]).0
                == default_permissions()->Object_0[i].0,
{
    let reasons = permission_reasons();
    assert(reasons[0].0 == "plugin_storage"@);
    assert(reasons[1].0 == "http_requests"@);
    assert(reasons[2].0 == "read_files"@);
    assert(reasons[3].0 == "edit_files"@);
    assert(reasons[4].0 == "create_files"@);
    assert(reasons[5].0 == "delete_files"@);
}

} // verus!
