//! Installing and uninstalling plugins.

use vstd::prelude::*;
use crate::plugin_runtime::{
    PluginInfo, PluginManager, PluginKind, LoadedPlugin, header_outcome,
};
use crate::text::cat;

verus! {

/// What the frontend sends to install a script plugin: a path to a `.js`
/// file, or the script itself.
pub struct InstallPluginPayload {
    pub js_path: Option<String>,
    pub source: Option<String>,
}

/// Where the script of a plugin to install comes from.
pub enum PluginSource {
    /// A file to read; a path wins over an inline script.
    File(String),
    /// The script itself.
    Inline(String),
}

/// Where the script comes from, or the error when the payload names nothing.
pub fn plugin_source(payload: InstallPluginPayload) -> (res: Result<PluginSource, String>)
    ensures
        payload.js_path matches Some(p) ==> res == Ok::<PluginSource, String>(PluginSource::File(p)),
        payload.js_path is None && payload.source is Some ==> res == Ok::<PluginSource, String>(
            PluginSource::Inline(payload.source->Some_0),
        ),
        payload.js_path is None && payload.source is None ==> res is Err && res->Err_0@
            == "Must provide either jsPath or source"@,
{
    match payload.js_path {
        Some(p) => Ok(PluginSource::File(p)),
        None => match payload.source {
            Some(src) => Ok(PluginSource::Inline(src)),
            None => Err(String::from_str("Must provide either jsPath or source")),
        },
    }
}

/// The error text for a plugin whose header does not read.
pub open spec fn invalid_plugin(reason: Seq<char>) -> Seq<char> {
    "Invalid plugin (bad @plugin-info header): "@ + reason
}

/// Installs a script plugin from its source: reads its header and registers
/// it under its id. A plugin whose header does not read is refused and the
/// installed plugins stay as they were.
pub fn install_from_source(manager: &mut PluginManager, source: String) -> (res: Result<PluginInfo, String>)
    requires
        old(manager).wf(),
    ensures
        final(manager).wf(),
        match header_outcome(source@) {
            Err(reason) => res is Err && res->Err_0@ == invalid_plugin(reason)
                && final(manager)@ == old(manager)@,
            Ok(v) => res is Ok && res->Ok_0@ == v
                && final(manager)@ == old(manager)@.insert(v.id, final(manager)@[v.id])
                && final(manager)@[v.id].info@ == v
                && final(manager)@[v.id].kind == PluginKind::Script(source),
        },
{
    match PluginManager::parse_plugin_info(source.as_str()) {
        Err(e) => Err(cat("Invalid plugin (bad @plugin-info header): ", e.message().as_str())),
        Ok(info) => {
            let copy = info.duplicate();
            let _ = manager.load_plugin_from_source(source, info);
            Ok(copy)
        },
    }
}

/// What the frontend sends to install a CloudStream extension: a URL of a
/// `.cs3` file, or the path of one already downloaded.
pub struct InstallNativePayload {
    pub plugin_url: Option<String>,
    pub plugin_path: Option<String>,
}

/// Where a CloudStream extension comes from.
pub enum NativeSource {
    /// A URL; a URL wins over a path.
    Url(String),
    /// A local file.
    File(String),
}

/// Where the extension comes from, or the error when the payload names nothing.
pub fn native_source(payload: InstallNativePayload) -> (res: Result<NativeSource, String>)
    ensures
        payload.plugin_url matches Some(u) ==> res == Ok::<NativeSource, String>(NativeSource::Url(u)),
        payload.plugin_url is None && payload.plugin_path is Some ==> res == Ok::<NativeSource, String>(
            NativeSource::File(payload.plugin_path->Some_0),
        ),
        payload.plugin_url is None && payload.plugin_path is None ==> res is Err && res->Err_0@
            == "Must provide either pluginUrl or pluginPath"@,
{
    match payload.plugin_url {
        Some(u) => Ok(NativeSource::Url(u)),
        None => match payload.plugin_path {
            Some(p) => Ok(NativeSource::File(p)),
            None => Err(String::from_str("Must provide either pluginUrl or pluginPath")),
        },
    }
}

/// The bridge request that loads an extension: `(action, pluginUrl, arg)`.
pub open spec fn load_request(src: NativeSource) -> (Seq<char>, Seq<char>, Seq<char>) {
    match src {
        NativeSource::Url(u) => ("loadPlugin"@, u@, Seq::empty()),
        NativeSource::File(p) => ("loadPluginFromFile"@, Seq::empty(), p@),
    }
}

pub fn native_load_request(src: &NativeSource) -> (res: (String, String, String))
    ensures
        (res.0@, res.1@, res.2@) == load_request(*src),
{
    match src {
        NativeSource::Url(u) => (String::from_str("loadPlugin"), u.clone(), String::new()),
        NativeSource::File(p) => (String::from_str("loadPluginFromFile"), String::new(), p.clone()),
    }
}

/// The error text when loading an extension failed for `reason`.
pub fn native_failure(src: &NativeSource, reason: &str) -> (res: String)
    ensures
        res@ == match src {
            NativeSource::Url(_) => "Failed to install native plugin from URL: "@ + reason@,
            NativeSource::File(_) => "Failed to install native plugin from file: "@ + reason@,
        },
{
    match src {
        NativeSource::Url(_) => cat("Failed to install native plugin from URL: ", reason),
        NativeSource::File(_) => cat("Failed to install native plugin from file: ", reason),
    }
}

/// Registers an extension that the bridge loaded.
pub fn install_native(manager: &mut PluginManager, info: PluginInfo) -> (res: PluginInfo)
    requires
        old(manager).wf(),
    ensures
        final(manager).wf(),
        res@ == info@,
        final(manager)@ == old(manager)@.insert(info.id@, LoadedPlugin { info, kind: PluginKind::Native }),
{
    let copy = info.duplicate();
    manager.register_native(info);
    copy
}

} // verus!
