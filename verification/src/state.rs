//! Plugin state for the LWW file sync engine: the sync manifest and the workspace
//! configuration.

use vstd::prelude::*;
use vstd::string::*;

use crate::config::{copy_text, initial_config, ConfigView, InitParams, SyncExtismConfig};
use crate::json::optional_text;
use crate::sync_manifest::{ManifestView, SyncManifest};

verus! {

/// What the plugin holds between calls.
#[derive(Debug)]
pub struct PluginState {
    pub manifest: Option<SyncManifest>,
    pub workspace_root: Option<String>,
    pub namespace_id: Option<String>,
}

// ---------------------------------------------------------------------------
// Models
// ---------------------------------------------------------------------------

/// The model of a [`PluginState`].
pub struct StateView {
    pub manifest: Option<ManifestView>,
    pub workspace_root: Option<Seq<char>>,
    pub namespace_id: Option<Seq<char>>,
}

/// The model of an optional manifest.
pub open spec fn manifest_view(manifest: Option<SyncManifest>) -> Option<ManifestView> {
    match manifest {
        Some(m) => Some(m@),
        None => None,
    }
}

impl View for PluginState {
    type V = StateView;

    open spec fn view(&self) -> StateView {
        StateView {
            manifest: manifest_view(self.manifest),
            workspace_root: optional_text(self.workspace_root),
            namespace_id: optional_text(self.namespace_id),
        }
    }
}

/// The manifest for a namespace, where `stored` is what storage holds: the stored one if it is
/// of that namespace, and else a new one; without a namespace a new one of the empty namespace.
pub open spec fn manifest_for(
    namespace_id: Option<Seq<char>>,
    stored: Option<ManifestView>,
) -> ManifestView {
    match namespace_id {
        Some(id) => match stored {
            Some(m) => if m.namespace_id == id {
                m
            } else {
                ManifestView::fresh(id)
            },
            None => ManifestView::fresh(id),
        },
        None => ManifestView::fresh(Seq::empty()),
    }
}

impl StateView {
    /// The state of a plugin that does not run.
    pub open spec fn off() -> StateView {
        StateView { manifest: None, workspace_root: None, namespace_id: None }
    }

    /// The state with another namespace.
    pub open spec fn with_namespace(
        self,
        namespace_id: Option<Seq<char>>,
        stored: Option<ManifestView>,
    ) -> StateView {
        StateView { manifest: Some(manifest_for(namespace_id, stored)), namespace_id, ..self }
    }

    /// The name of the namespace, empty if there is none.
    pub open spec fn namespace(self) -> Seq<char> {
        match self.namespace_id {
            Some(id) => id,
            None => Seq::empty(),
        }
    }

    /// Whether the manifest, if there is one, is of the namespace.
    pub open spec fn is_coherent(self) -> bool {
        self.manifest matches Some(m) ==> m.namespace_id == self.namespace()
    }
}

// ---------------------------------------------------------------------------
// Functions
// ---------------------------------------------------------------------------

impl PluginState {
    /// The state of a plugin that does not run.
    pub fn off() -> (state: PluginState)
        ensures
            state@ == StateView::off(),
    {
        PluginState { manifest: None, workspace_root: None, namespace_id: None }
    }
}

/// The manifest for a namespace, where `stored` is what storage holds.
fn load_manifest(namespace_id: &Option<String>, stored: Option<SyncManifest>) -> (m: SyncManifest)
    ensures
        m@ == manifest_for(optional_text(*namespace_id), manifest_view(stored)),
{
    match namespace_id {
        Some(id) => SyncManifest::load(id.as_str(), stored),
        None => {
            let empty = String::new();
            assert(empty@ =~= Seq::empty());
            SyncManifest::new(empty)
        },
    }
}

/// Initialize the plugin state, with the manifest from storage if it holds one.
pub fn init_state(
    namespace_id: Option<String>,
    workspace_root: Option<String>,
    stored: Option<SyncManifest>,
) -> (state: PluginState)
    ensures
        state@ == (StateView {
            manifest: Some(
                manifest_for(optional_text(namespace_id), manifest_view(stored)),
            ),
            workspace_root: optional_text(workspace_root),
            namespace_id: optional_text(namespace_id),
        }),
{
    let manifest: SyncManifest = load_manifest(&namespace_id, stored);
    PluginState { manifest: Some(manifest), workspace_root, namespace_id }
}

/// Starts the plugin: gives the configuration, which is to be stored, and the state, with the
/// manifest from storage if it holds one.
pub fn init(
    params: &InitParams,
    config: &SyncExtismConfig,
    stored: Option<SyncManifest>,
) -> (r: (SyncExtismConfig, PluginState))
    ensures
        r.0@ == config@.after_init(*params),
        r.1@ == (StateView {
            manifest: Some(manifest_for(r.0@.workspace_id, manifest_view(stored))),
            workspace_root: optional_text(params.workspace_root),
            namespace_id: r.0@.workspace_id,
        }),
{
    let config: SyncExtismConfig = initial_config(params, config);
    let state: PluginState = init_state(
        copy_text(&config.workspace_id),
        copy_text(&params.workspace_root),
        stored,
    );
    (config, state)
}

/// Clean up on shutdown: gives the manifest that is to be stored, if there is one.
pub fn shutdown_state(state: &mut PluginState) -> (manifest: Option<SyncManifest>)
    ensures
        final(state)@ == StateView::off(),
        manifest_view(manifest) == old(state)@.manifest,
{
    let manifest: Option<SyncManifest> = state.manifest.take();
    state.workspace_root = None;
    state.namespace_id = None;
    manifest
}

/// Access the sync manifest.
pub fn with_manifest(state: &PluginState) -> (r: Option<&SyncManifest>)
    ensures
        match r {
            Some(m) => state@.manifest == Some(m@),
            None => state@.manifest is None,
        },
{
    match &state.manifest {
        Some(m) => Some(m),
        None => None,
    }
}

/// Mutably access the sync manifest.
pub fn with_manifest_mut(state: &mut PluginState) -> (r: Option<&mut SyncManifest>)
    ensures
        match r {
            Some(m) => {
                &&& old(state)@.manifest == Some((*m)@)
                &&& final(state)@ == (StateView {
                    manifest: Some((*final(m))@),
                    ..old(state)@
                })
            },
            None => old(state)@.manifest is None && final(state)@ == old(state)@,
        },
{
    match &mut state.manifest {
        Some(m) => Some(m),
        None => None,
    }
}

/// Get the current workspace root.
pub fn workspace_root(state: &PluginState) -> (r: Option<String>)
    ensures
        optional_text(r) == state@.workspace_root,
{
    copy_text(&state.workspace_root)
}

/// Get the current namespace ID.
pub fn namespace_id(state: &PluginState) -> (r: Option<String>)
    ensures
        optional_text(r) == state@.namespace_id,
{
    copy_text(&state.namespace_id)
}

/// Update the namespace ID and take over the manifest from storage.
pub fn set_namespace_id(
    state: &mut PluginState,
    ns_id: Option<String>,
    stored: Option<SyncManifest>,
)
    ensures
        final(state)@ == old(state)@.with_namespace(optional_text(ns_id), manifest_view(stored)),
{
    let manifest: SyncManifest = load_manifest(&ns_id, stored);
    state.manifest = Some(manifest);
    state.namespace_id = ns_id;
}

/// Check if state is initialized.
pub fn is_initialized(state: &PluginState) -> (r: bool)
    ensures
        r == (state@.manifest is Some),
{
    state.manifest.is_some()
}

// ---------------------------------------------------------------------------
// Laws
// ---------------------------------------------------------------------------

/// Whenever the namespace is set, the manifest becomes one of that namespace: a stored manifest
/// of another namespace is never taken over, and one of that namespace always is.
pub proof fn lemma_manifest_is_of_namespace(
    state: StateView,
    namespace_id: Option<Seq<char>>,
    stored: Option<ManifestView>,
)
    ensures
        StateView::off().is_coherent(),
        state.with_namespace(namespace_id, stored).is_coherent(),
        stored matches Some(m) ==> (namespace_id == Some(m.namespace_id) ==> state.with_namespace(
            namespace_id,
            stored,
        ).manifest == stored),
{
}

/// A plugin that is started again with the manifest that it gave at shutdown goes on where it
/// was.
pub proof fn lemma_shutdown_and_init(state: StateView, config: ConfigView, params: InitParams)
    requires
        state.is_coherent(),
        state.manifest is Some,
        state.namespace_id is Some,
        config.after_init(params).workspace_id == state.namespace_id,
        optional_text(params.workspace_root) == state.workspace_root,
    ensures
        (StateView {
            manifest: Some(
                manifest_for(config.after_init(params).workspace_id, state.manifest),
            ),
            workspace_root: optional_text(params.workspace_root),
            namespace_id: config.after_init(params).workspace_id,
        }) == state,
{
}

} // verus!
