//! The version manifest: what a game version needs (libraries, asset index,
//! client jar, runtime), and the platform rules that select libraries.

use vstd::prelude::*;
use crate::text::eq_str;
use crate::paths::Platform;

verus! {

#[derive(Clone, Debug)]
pub struct Arguments {
    pub game: Vec<GameArgument>,
    pub jvm: Vec<JvmArgument>,
}

#[derive(Clone, Debug)]
pub enum GameArgument {
    String(String),
    Object(GameArgumentObject),
}

#[derive(Clone, Debug)]
pub struct GameArgumentObject {
    pub rules: Vec<Rule>,
    pub value: Value,
}

#[derive(Clone, Debug)]
pub enum JvmArgument {
    String(String),
    Object(JvmArgumentObject),
}

#[derive(Clone, Debug)]
pub struct JvmArgumentObject {
    pub rules: Vec<Rule>,
    pub value: Value,
}

#[derive(Clone, Debug)]
pub enum Value {
    String(String),
    Array(Vec<String>),
}

/// A platform rule: `action` is `allow` or `disallow`, for the platforms that
/// `os` names (all of them when absent).
#[derive(Clone, Debug)]
pub struct Rule {
    pub action: String,
    pub features: Option<Features>,
    pub os: Option<Os>,
}

#[derive(Clone, Debug)]
pub struct Features {
    pub is_demo_user: Option<bool>,
    pub has_custom_resolution: Option<bool>,
    pub has_quick_plays_support: Option<bool>,
    pub is_quick_play_singleplayer: Option<bool>,
    pub is_quick_play_multiplayer: Option<bool>,
    pub is_quick_play_realms: Option<bool>,
}

#[derive(Clone, Debug)]
pub struct Os {
    pub name: Option<String>,
    pub arch: Option<String>,
}

/// Where the asset index of a version is published.
#[derive(Clone, Debug)]
pub struct AssetIndex {
    pub id: String,
    pub sha1: String,
    pub size: u64,
    pub total_size: u64,
    pub url: String,
}

#[derive(Clone, Debug)]
pub struct Downloads {
    pub client: Download,
    pub client_mappings: Download,
    pub server: Download,
    pub server_mappings: Download,
}

#[derive(Clone, Debug)]
pub struct Download {
    pub sha1: String,
    pub size: u64,
    pub url: String,
}

#[derive(Clone, Debug)]
pub struct JavaVersion {
    pub component: String,
    pub major_version: u32,
}

#[derive(Clone, Debug)]
pub struct Library {
    pub downloads: LibraryDownloads,
    pub name: String,
    pub rules: Option<Vec<Rule>>,
}

#[derive(Clone, Debug)]
pub struct LibraryDownloads {
    pub artifact: Artifact,
}

#[derive(Clone, Debug)]
pub struct Artifact {
    pub path: String,
    pub sha1: String,
    pub size: u64,
    pub url: String,
}

#[derive(Clone, Debug)]
pub struct Logging {
    pub client: LoggingClient,
}

#[derive(Clone, Debug)]
pub struct LoggingClient {
    pub argument: String,
    pub file: LoggingFile,
    pub log_type: String,
}

#[derive(Clone, Debug)]
pub struct LoggingFile {
    pub id: String,
    pub sha1: String,
    pub size: u64,
    pub url: String,
}

/// The metadata of one game version.
#[derive(Clone, Debug)]
pub struct VersionManifest {
    pub arguments: Arguments,
    pub asset_index: AssetIndex,
    pub assets: String,
    pub compliance_level: u32,
    pub downloads: Downloads,
    pub id: String,
    pub java_version: JavaVersion,
    pub libraries: Vec<Library>,
    pub logging: Logging,
    pub main_class: String,
    pub minimum_launcher_version: u32,
    pub release_time: String,
    pub time: String,
    pub version_type: String,
}

/// The list of published versions.
#[derive(Clone, Debug)]
pub struct VersionsManifest {
    pub latest: Latest,
    pub versions: Vec<Version>,
}

#[derive(Clone, Debug)]
pub struct Latest {
    pub release: String,
    pub snapshot: String,
}

/// One published version.
#[derive(Clone, Debug)]
pub struct Version {
    pub id: String,
    pub version_type: String,
    pub url: String,
    pub time: String,
    pub release_time: String,
    pub sha1: String,
    pub compliance_level: i32,
}

/// The action that removes a library.
pub open spec fn disallow() -> Seq<char> {
    seq!['d', 'i', 's', 'a', 'l', 'l', 'o', 'w']
}

/// Whether an optional field, when present, names `v`.
pub open spec fn field_matches(f: Option<String>, v: Seq<char>) -> bool {
    match f {
        None => true,
        Some(s) => s@ == v,
    }
}

/// Whether a rule's platform selector covers the platform `os_name`/`arch`.
pub open spec fn os_matches(os: Option<Os>, os_name: Seq<char>, arch: Seq<char>) -> bool {
    match os {
        None => true,
        Some(o) => field_matches(o.name, os_name) && field_matches(o.arch, arch),
    }
}

/// Whether a rule explicitly excludes the platform.
pub open spec fn rule_excludes(r: Rule, os_name: Seq<char>, arch: Seq<char>) -> bool {
    r.action@ == disallow() && os_matches(r.os, os_name, arch)
}

/// A library applies unless one of its rules explicitly excludes the platform.
pub open spec fn library_applies(lib: Library, os_name: Seq<char>, arch: Seq<char>) -> bool {
    match lib.rules {
        None => true,
        Some(rs) => forall|i: int| 0 <= i < rs@.len() ==> !rule_excludes(#[trigger] rs@[i], os_name, arch),
    }
}

fn field_matches_exec(f: &Option<String>, v: &str) -> (r: bool)
    ensures
        r == field_matches(*f, v@),
{
    match f {
        None => true,
        Some(s) => eq_str(s.as_str(), v),
    }
}

/// Whether `rule` explicitly excludes the platform `os_name`/`arch`.
pub fn excludes(rule: &Rule, os_name: &str, arch: &str) -> (r: bool)
    ensures
        r == rule_excludes(*rule, os_name@, arch@),
{
    proof {
        reveal_strlit("disallow");
        assert("disallow"@ =~= disallow());
    }
    if !eq_str(rule.action.as_str(), "disallow") {
        return false;
    }
    match &rule.os {
        None => true,
        Some(o) => field_matches_exec(&o.name, os_name) && field_matches_exec(&o.arch, arch),
    }
}

/// Whether `lib` is needed on the platform `os_name`/`arch`.
pub fn applies(lib: &Library, os_name: &str, arch: &str) -> (r: bool)
    ensures
        r == library_applies(*lib, os_name@, arch@),
{
    match &lib.rules {
        None => true,
        Some(rs) => {
            let mut i: usize = 0;
            while i < rs.len()
                invariant
                    lib.rules == Some(*rs),
                    0 <= i <= rs@.len(),
                    forall|k: int| 0 <= k < i ==> !rule_excludes(#[trigger] rs@[k], os_name@, arch@),
                decreases rs.len() - i,
            {
                if excludes(&rs[i], os_name, arch) {
                    proof {
                        assert(rule_excludes(rs@[i as int], os_name@, arch@));
                        let rules = lib.rules->0;
                        assert(rules@[i as int] == rs@[i as int]);
                        assert(!library_applies(*lib, os_name@, arch@));
                    }
                    return false;
                }
                i += 1;
            }
            true
        },
    }
}

/// The name that platform rules give an operating system.
pub open spec fn rule_os_name_spec(p: Platform) -> Seq<char> {
    match p {
        Platform::Windows => "windows"@,
        Platform::MacOs => "osx"@,
        Platform::Linux => "linux"@,
        Platform::Other => "unknown"@,
    }
}

pub fn rule_os_name(platform: Platform) -> (r: &'static str)
    ensures
        r@ == rule_os_name_spec(platform),
{
    match platform {
        Platform::Windows => "windows",
        Platform::MacOs => "osx",
        Platform::Linux => "linux",
        Platform::Other => "unknown",
    }
}

} // verus!
