//! What the library asks of the host, and what the host replies.

use vstd::prelude::*;
use vstd::string::*;

use crate::config::{ConfigView, Settings, SettingsView, SyncExtismConfig};
use crate::http::{HttpRequest, HttpResponse, RequestView, ResponseView};
use crate::json::{optional_text, texts};
use crate::sync_manifest::{ManifestView, SyncManifest};

verus! {

/// A call of the host.
#[derive(Debug)]
pub enum HostCall {
    /// List all files below a directory.
    ListFiles(String),
    /// Tell whether there is a file.
    FileExists(String),
    /// Read a file as text.
    ReadText(String),
    /// Hash the content of a file.
    HashFile(String),
    /// Read the content of a file.
    ReadBinary(String),
    /// Write a text to a file.
    WriteText(String, String),
    /// Write bytes to a file.
    WriteBinary(String, Vec<u8>),
    /// Delete a file.
    DeleteFile(String),
    /// Send a request to a server.
    Send(HttpRequest),
    /// Tell the time in milliseconds.
    Now,
    /// Give the stored manifest.
    LoadManifest,
    /// Store a manifest.
    SaveManifest(SyncManifest),
    /// Store the configuration.
    SaveConfig(SyncExtismConfig),
    /// Give the stored configuration and the context.
    LoadSettings,
}

/// The reply to a call.
#[derive(Debug)]
pub enum HostReply {
    /// The files, or why they could not be listed.
    Files(Result<Vec<String>, String>),
    /// Whether there is a file, or why this cannot be told.
    Exists(Result<bool, String>),
    /// The text, or why it could not be read.
    Text(Result<String, String>),
    /// The hash, if the file could be read.
    Hash(Option<String>),
    /// The content, or why it could not be read.
    Bytes(Result<Vec<u8>, String>),
    /// That a file was written or deleted, or why it was not.
    Done(Result<(), String>),
    /// The response, or why there is none.
    Response(Result<HttpResponse, String>),
    /// The time, if there is a clock.
    Time(Option<u64>),
    /// The stored manifest, if there is one that can be read.
    Manifest(Option<SyncManifest>),
    /// That something was stored, if it could be.
    Saved,
    /// The stored configuration and the context.
    Settings(Settings),
}

// ---------------------------------------------------------------------------
// Models
// ---------------------------------------------------------------------------

/// The model of a [`HostCall`].
pub enum Call {
    ListFiles(Seq<char>),
    FileExists(Seq<char>),
    ReadText(Seq<char>),
    HashFile(Seq<char>),
    ReadBinary(Seq<char>),
    WriteText(Seq<char>, Seq<char>),
    WriteBinary(Seq<char>, Seq<u8>),
    DeleteFile(Seq<char>),
    Send(RequestView),
    Now,
    LoadManifest,
    SaveManifest(ManifestView),
    SaveConfig(ConfigView),
    LoadSettings,
}

/// The model of a [`HostReply`].
pub enum Reply {
    Files(Result<Seq<Seq<char>>, Seq<char>>),
    Exists(Result<bool, Seq<char>>),
    Text(Result<Seq<char>, Seq<char>>),
    Hash(Option<Seq<char>>),
    Bytes(Result<Seq<u8>, Seq<char>>),
    Done(Result<(), Seq<char>>),
    Response(Result<ResponseView, Seq<char>>),
    Time(Option<u64>),
    Manifest(Option<ManifestView>),
    Saved,
    Settings(SettingsView),
}

impl View for HostCall {
    type V = Call;

    open spec fn view(&self) -> Call {
        match self {
            HostCall::ListFiles(path) => Call::ListFiles(path@),
            HostCall::FileExists(path) => Call::FileExists(path@),
            HostCall::ReadText(path) => Call::ReadText(path@),
            HostCall::HashFile(path) => Call::HashFile(path@),
            HostCall::ReadBinary(path) => Call::ReadBinary(path@),
            HostCall::WriteText(path, content) => Call::WriteText(path@, content@),
            HostCall::WriteBinary(path, content) => Call::WriteBinary(path@, content@),
            HostCall::DeleteFile(path) => Call::DeleteFile(path@),
            HostCall::Send(request) => Call::Send(request@),
            HostCall::Now => Call::Now,
            HostCall::LoadManifest => Call::LoadManifest,
            HostCall::SaveManifest(manifest) => Call::SaveManifest(manifest@),
            HostCall::SaveConfig(config) => Call::SaveConfig(config@),
            HostCall::LoadSettings => Call::LoadSettings,
        }
    }
}

impl View for HostReply {
    type V = Reply;

    open spec fn view(&self) -> Reply {
        match self {
            HostReply::Files(Ok(files)) => Reply::Files(Ok(texts(files@))),
            HostReply::Files(Err(e)) => Reply::Files(Err(e@)),
            HostReply::Exists(Ok(exists)) => Reply::Exists(Ok(*exists)),
            HostReply::Exists(Err(e)) => Reply::Exists(Err(e@)),
            HostReply::Text(Ok(text)) => Reply::Text(Ok(text@)),
            HostReply::Text(Err(e)) => Reply::Text(Err(e@)),
            HostReply::Hash(hash) => Reply::Hash(optional_text(*hash)),
            HostReply::Bytes(Ok(bytes)) => Reply::Bytes(Ok(bytes@)),
            HostReply::Bytes(Err(e)) => Reply::Bytes(Err(e@)),
            HostReply::Done(Ok(_)) => Reply::Done(Ok(())),
            HostReply::Done(Err(e)) => Reply::Done(Err(e@)),
            HostReply::Response(Ok(response)) => Reply::Response(Ok(response@)),
            HostReply::Response(Err(e)) => Reply::Response(Err(e@)),
            HostReply::Time(time) => Reply::Time(*time),
            HostReply::Manifest(Some(manifest)) => Reply::Manifest(Some(manifest@)),
            HostReply::Manifest(None) => Reply::Manifest(None),
            HostReply::Saved => Reply::Saved,
            HostReply::Settings(settings) => Reply::Settings(settings@),
        }
    }
}

/// Whether a reply is one to a call.
pub open spec fn answers(call: Call, reply: Reply) -> bool {
    match call {
        Call::ListFiles(_) => reply is Files,
        Call::FileExists(_) => reply is Exists,
        Call::ReadText(_) => reply is Text,
        Call::HashFile(_) => reply is Hash,
        Call::ReadBinary(_) => reply is Bytes,
        Call::WriteText(_, _) => reply is Done,
        Call::WriteBinary(_, _) => reply is Done,
        Call::DeleteFile(_) => reply is Done,
        Call::Send(_) => reply is Response,
        Call::Now => reply is Time,
        Call::LoadManifest => reply is Manifest,
        Call::SaveManifest(_) => reply is Saved,
        Call::SaveConfig(_) => reply is Saved,
        Call::LoadSettings => reply is Settings,
    }
}

/// The model of an optional call.
pub open spec fn call_view(call: Option<HostCall>) -> Option<Call> {
    match call {
        Some(c) => Some(c@),
        None => None,
    }
}

} // verus!
