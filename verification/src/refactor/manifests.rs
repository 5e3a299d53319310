//! Built-in refactor providers and the plugin manifests built from them.
//!
//! One catalogue lists each provider's name, version, languages and time
//! limit; the names offered to operators and the manifests registered for
//! execution are both read from it.

use vstd::prelude::*;

use crate::text::{owned, str_eq, str_views, string_views, to_strings};

verus! {

/// Environment variable overriding the rope plugin executable path.
pub const ROPE_PLUGIN_PATH_ENV: &'static str = "WEAVER_ROPE_PLUGIN_PATH";

/// Default executable path for the rope plugin.
pub const DEFAULT_ROPE_PLUGIN_PATH: &'static str = "/usr/bin/weaver-plugin-rope";

/// Registered rope plugin provider name.
pub const ROPE_PLUGIN_NAME: &'static str = "rope";

/// Registered rope plugin provider version.
pub const ROPE_PLUGIN_VERSION: &'static str = "0.1.0";

/// Environment variable overriding the rust-analyzer plugin executable path.
pub const RUST_ANALYZER_PLUGIN_PATH_ENV: &'static str = "WEAVER_RUST_ANALYZER_PLUGIN_PATH";

/// Default executable path for the rust-analyzer plugin.
pub const DEFAULT_RUST_ANALYZER_PLUGIN_PATH: &'static str = "/usr/bin/weaver-plugin-rust-analyzer";

/// Registered rust-analyzer plugin provider name.
pub const RUST_ANALYZER_PLUGIN_NAME: &'static str = "rust-analyzer";

/// Registered rust-analyzer plugin provider version.
pub const RUST_ANALYZER_PLUGIN_VERSION: &'static str = "0.1.0";

/// Time limit for rust-analyzer plugin execution, in seconds.
pub const RUST_ANALYZER_PLUGIN_TIMEOUT_SECS: u64 = 60;

/// Capabilities a plugin can declare.
#[derive(Debug, Clone, Copy, PartialEq, Eq, Structural)]
pub enum CapabilityId {
    /// Renames a symbol across a workspace.
    RenameSymbol,
}

impl CapabilityId {
    /// The capability's identifier.
    pub fn as_str(&self) -> (r: &'static str)
        ensures
            r@ == "rename-symbol"@,
    {
        "rename-symbol"
    }
}

/// Kinds of plugin.
#[derive(Debug, Clone, Copy, PartialEq, Eq, Structural)]
pub enum PluginKind {
    /// Acts on the workspace (produces edits).
    Actuator,
}

/// What the daemon knows of a registered plugin.
#[derive(Debug, Clone)]
pub struct PluginManifest {
    pub name: String,
    pub version: String,
    pub kind: PluginKind,
    pub languages: Vec<String>,
    pub executable: String,
    pub capabilities: Vec<CapabilityId>,
    pub timeout_secs: Option<u64>,
}

/// A built-in provider's catalogue entry.
pub struct BuiltInProviderSpec {
    pub name: &'static str,
    pub version: &'static str,
    pub languages: Vec<&'static str>,
    pub timeout_secs: Option<u64>,
}

/// A catalogue entry as plain values: name, version, languages, time limit.
pub open spec fn spec_entry(s: BuiltInProviderSpec) -> (Seq<char>, Seq<char>, Seq<Seq<char>>, Option<u64>) {
    (s.name@, s.version@, str_views(s.languages@), s.timeout_secs)
}

/// The built-in provider catalogue.
pub open spec fn catalogue() -> Seq<(Seq<char>, Seq<char>, Seq<Seq<char>>, Option<u64>)> {
    seq![
        ("rope"@, "0.1.0"@, seq!["python"@], None),
        ("rust-analyzer"@, "0.1.0"@, seq!["rust"@], Some(60u64)),
    ]
}

/// Names of the built-in providers, in catalogue order.
pub open spec fn provider_names_spec() -> Seq<Seq<char>> {
    seq!["rope"@, "rust-analyzer"@]
}

/// The built-in provider catalogue.
pub fn built_in_provider_specs() -> (v: Vec<BuiltInProviderSpec>)
    ensures
        v@.map_values(|s: BuiltInProviderSpec| spec_entry(s)) == catalogue(),
{
    let mut rope_languages: Vec<&'static str> = Vec::new();
    rope_languages.push("python");
    let mut ra_languages: Vec<&'static str> = Vec::new();
    ra_languages.push("rust");
    let mut v: Vec<BuiltInProviderSpec> = Vec::new();
    v.push(
        BuiltInProviderSpec {
            name: ROPE_PLUGIN_NAME,
            version: ROPE_PLUGIN_VERSION,
            languages: rope_languages,
            timeout_secs: None,
        },
    );
    v.push(
        BuiltInProviderSpec {
            name: RUST_ANALYZER_PLUGIN_NAME,
            version: RUST_ANALYZER_PLUGIN_VERSION,
            languages: ra_languages,
            timeout_secs: Some(RUST_ANALYZER_PLUGIN_TIMEOUT_SECS),
        },
    );
    assert(str_views(v@[0].languages@) =~= seq!["python"@]);
    assert(str_views(v@[1].languages@) =~= seq!["rust"@]);
    assert(v@.map_values(|s: BuiltInProviderSpec| spec_entry(s)) =~= catalogue());
    v
}

/// Names of the built-in providers, in catalogue order.
pub fn built_in_provider_names() -> (v: Vec<&'static str>)
    ensures
        str_views(v@) == provider_names_spec(),
{
    let mut v: Vec<&'static str> = Vec::new();
    v.push(ROPE_PLUGIN_NAME);
    v.push(RUST_ANALYZER_PLUGIN_NAME);
    assert(str_views(v@) =~= provider_names_spec());
    v
}

/// The catalogue entry of a built-in provider.
pub fn provider_spec(name: &str) -> (s: BuiltInProviderSpec)
    requires
        provider_names_spec().contains(name@),
    ensures
        s.name@ == name@,
        forall|k: int| 0 <= k < catalogue().len() && catalogue()[k].0 == name@ ==> spec_entry(s)
            == catalogue()[k],
{
    let specs = built_in_provider_specs();
    let ghost entries = specs@.map_values(|s: BuiltInProviderSpec| spec_entry(s));
    assert(catalogue().len() == 2);
    assert(entries.len() == 2);
    assert(specs@.len() == 2);
    assert(entries[0] == spec_entry(specs@[0]));
    assert(entries[1] == spec_entry(specs@[1]));
    proof {
        reveal_strlit("rope");
        reveal_strlit("rust-analyzer");
    }
    let mut specs = specs;
    if str_eq(specs[0].name, name) {
        let s = specs.remove(0);
        assert(catalogue()[0] == spec_entry(s));
        s
    } else {
        let s = specs.remove(1);
        assert(catalogue()[1] == spec_entry(s));
        s
    }
}

/// Builds a plugin manifest from a catalogue entry: an actuator that
/// declares `rename-symbol`.
pub fn manifest_from_spec(spec: &BuiltInProviderSpec, executable: String) -> (m: PluginManifest)
    ensures
        m.name@ == spec.name@,
        m.version@ == spec.version@,
        m.kind == PluginKind::Actuator,
        string_views(m.languages@) == str_views(spec.languages@),
        m.executable == executable,
        m.capabilities@ == seq![CapabilityId::RenameSymbol],
        m.timeout_secs == spec.timeout_secs,
{
    let mut capabilities: Vec<CapabilityId> = Vec::new();
    capabilities.push(CapabilityId::RenameSymbol);
    PluginManifest {
        name: owned(spec.name),
        version: owned(spec.version),
        kind: PluginKind::Actuator,
        languages: to_strings(&spec.languages),
        executable,
        capabilities,
        timeout_secs: spec.timeout_secs,
    }
}

/// The default rope plugin manifest.
pub fn rope_manifest(executable: String) -> (m: PluginManifest)
    ensures
        m.name@ == "rope"@,
        m.version@ == "0.1.0"@,
        string_views(m.languages@) == seq!["python"@],
        m.executable == executable,
        m.capabilities@ == seq![CapabilityId::RenameSymbol],
        m.timeout_secs is None,
{
    let spec = provider_spec(ROPE_PLUGIN_NAME);
    assert(catalogue()[0].0 == ROPE_PLUGIN_NAME@);
    manifest_from_spec(&spec, executable)
}

/// The default rust-analyzer plugin manifest.
pub fn rust_analyzer_manifest(executable: String) -> (m: PluginManifest)
    ensures
        m.name@ == "rust-analyzer"@,
        m.version@ == "0.1.0"@,
        string_views(m.languages@) == seq!["rust"@],
        m.executable == executable,
        m.capabilities@ == seq![CapabilityId::RenameSymbol],
        m.timeout_secs == Some(60u64),
{
    let spec = provider_spec(RUST_ANALYZER_PLUGIN_NAME);
    assert(catalogue()[1].0 == RUST_ANALYZER_PLUGIN_NAME@);
    manifest_from_spec(&spec, executable)
}

} // verus!
