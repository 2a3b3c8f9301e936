//! Java runtimes: where a runtime's executable lies, what the catalog is asked,
//! and what `java -version` and the settings dump say about a runtime.

use vstd::prelude::*;
use crate::text::{views, split_spec, lines_spec, trim_spec, has_prefix, contains_spec, decimal,
    parse_u8_spec, split_char, lines, trim, strip_prefix, contains, eq_str,
    parse_u8, decimal_string, lemma_split_nonempty};
use crate::paths::{Platform, join_path, path_join_spec, file_name_spec, with_file_name_spec,
    file_name, with_file_name};

verus! {

/// The configured runtime of each supported major version; empty when unset.
#[derive(Clone, Debug)]
pub struct JavaConfig {
    pub java_8_path: String,
    pub java_17_path: String,
    pub java_21_path: String,
}

impl JavaConfig {
    /// No runtime configured.
    pub fn default() -> (r: Self)
        ensures
            r.java_8_path@.len() == 0,
            r.java_17_path@.len() == 0,
            r.java_21_path@.len() == 0,
    {
        JavaConfig { java_8_path: String::new(), java_17_path: String::new(), java_21_path: String::new() }
    }
}

/// One package of the runtime catalog.
#[derive(Clone, Debug)]
pub struct JavaInfo {
    pub availability_type: String,
    pub distro_version: Vec<u32>,
    pub download_url: String,
    pub java_version: Vec<u32>,
    pub latest: bool,
    pub name: String,
    pub openjdk_build_number: u32,
    pub package_uuid: String,
    pub product: String,
}

/// What testing a runtime found.
#[derive(Clone, Debug, PartialEq, Eq)]
pub struct JavaTestInfo {
    pub valid: bool,
    pub version: u8,
    pub vendor: String,
    pub expected_version: u8,
    pub version_mismatch: bool,
}

#[derive(Clone, Debug)]
pub struct JavaDownloadStartedEvent(pub String);

#[derive(Clone, Debug)]
pub struct JavaDownloadFinishedEvent {
    pub paths: Vec<String>,
}

#[derive(Clone, Debug)]
pub struct JavaExtractStartedEvent(pub String);

#[derive(Clone, Debug)]
pub struct JavaExtractFinishedEvent {
    pub paths: Vec<String>,
}

/// Why a runtime cannot be fetched.
#[derive(Clone, Debug, PartialEq, Eq)]
pub enum RuntimeError {
    UnsupportedOs(String),
    UnsupportedArch(String),
    /// The catalog offered no package for the major version.
    NoPackage(u8),
    /// Archives and versions were given in different numbers.
    CountMismatch,
}

// ---------------------------------------------------------------- versions

/// The major version in a `java.version` value: the second field of a legacy
/// `1.x` version, the first field otherwise.
pub open spec fn major_version_spec(v: Seq<char>) -> Option<u8> {
    let parts = split_spec(v, '.');
    parse_u8_spec(if parts[0] == seq!['1'] && parts.len() > 1 { parts[1] } else { parts[0] })
}

/// The major version of a `java.version` value, if it has one.
pub fn extract_major_version(version: &str) -> (r: Option<u8>)
    ensures
        r == major_version_spec(version@),
{
    proof {
        lemma_split_nonempty(version@, '.');
        reveal_strlit("1");
        assert("1"@ =~= seq!['1']);
    }
    let parts = split_char(version, '.');
    proof {
        assert(parts@[0]@ == split_spec(version@, '.')[0]);
    }
    let first = parts[0].as_str();
    if eq_str(first, "1") && parts.len() > 1 {
        proof {
            assert(parts@[1]@ == split_spec(version@, '.')[1]);
        }
        parse_u8(parts[1].as_str())
    } else {
        parse_u8(first)
    }
}

/// What a settings dump has told so far: major version, whether it differs
/// from the expected one, and vendor.
pub type SettingsScan = (u8, bool, Seq<char>);

/// Reads one line of a settings dump.
pub open spec fn scan_line(st: SettingsScan, line: Seq<char>, expected: u8) -> SettingsScan {
    let t = trim_spec(line);
    let vk = "java.version = "@;
    let nk = "java.vendor = "@;
    let st1 = if has_prefix(t, vk) && major_version_spec(t.skip(vk.len() as int)) is Some {
        let v = major_version_spec(t.skip(vk.len() as int))->0;
        (v, v != expected, st.2)
    } else {
        st
    };
    if has_prefix(t, nk) {
        (st1.0, st1.1, t.skip(nk.len() as int))
    } else {
        st1
    }
}

/// Reads the lines of a settings dump in order.
pub open spec fn scan_lines(ls: Seq<Seq<char>>, expected: u8) -> SettingsScan
    decreases ls.len(),
{
    if ls.len() == 0 {
        (0u8, false, Seq::<char>::empty())
    } else {
        scan_line(scan_lines(ls.drop_last(), expected), ls.last(), expected)
    }
}

impl JavaTestInfo {
    /// The result for a runtime that is not configured.
    pub fn not_configured(expected: u8) -> (r: Self)
        ensures
            !r.valid,
            r.version == 0,
            r.vendor@.len() == 0,
            r.expected_version == expected,
            !r.version_mismatch,
    {
        JavaTestInfo {
            valid: false,
            version: 0,
            vendor: String::new(),
            expected_version: expected,
            version_mismatch: false,
        }
    }

    /// Reads the settings dump of a runtime expected to be `expected`: the last
    /// `java.version` with a major version, and the last `java.vendor`. The
    /// runtime is valid when both were found and the version is not zero.
    pub fn from_settings_output(output: &str, expected: u8) -> (r: Self)
        ensures
            ({
                let st = scan_lines(lines_spec(output@), expected);
                &&& r.version == st.0
                &&& r.version_mismatch == st.1
                &&& r.vendor@ == st.2
                &&& r.expected_version == expected
                &&& r.valid == (st.0 != 0 && st.2.len() > 0)
            }),
    {
        let ls = lines(output);
        let mut version: u8 = 0;
        let mut mismatch = false;
        let mut vendor = String::new();
        let mut i: usize = 0;
        while i < ls.len()
            invariant
                0 <= i <= ls@.len(),
                views(ls@) == lines_spec(output@),
                (version, mismatch, vendor@) == scan_lines(views(ls@).subrange(0, i as int), expected),
            decreases ls.len() - i,
        {
            proof {
                assert(views(ls@).subrange(0, i as int + 1).drop_last() =~= views(ls@).subrange(0, i as int));
                assert(views(ls@).subrange(0, i as int + 1).last() == ls@[i as int]@);
            }
            let t = trim(ls[i].as_str());
            match strip_prefix(t.as_str(), "java.version = ") {
                Some(rest) => {
                    match extract_major_version(rest.as_str()) {
                        Some(v) => {
                            version = v;
                            mismatch = v != expected;
                        },
                        None => {},
                    }
                },
                None => {},
            }
            match strip_prefix(t.as_str(), "java.vendor = ") {
                Some(rest) => {
                    vendor = rest;
                },
                None => {},
            }
            i += 1;
        }
        proof {
            assert(views(ls@).subrange(0, ls@.len() as int) =~= views(ls@));
        }
        let valid = version != 0 && vendor.unicode_len() > 0;
        JavaTestInfo { valid, version, vendor, expected_version: expected, version_mismatch: mismatch }
    }
}

/// The version that a line of `java -version` output quotes, when the line
/// mentions `version` and holds a quoted part.
pub open spec fn banner_line_version(line: Seq<char>) -> Option<Seq<char>> {
    if contains_spec(line, "version"@) && split_spec(line, '"').len() > 1 {
        Some(split_spec(line, '"')[1])
    } else {
        None
    }
}

/// The version quoted by the first line that quotes one.
pub open spec fn first_banner_version(ls: Seq<Seq<char>>) -> Option<Seq<char>>
    decreases ls.len(),
{
    if ls.len() == 0 {
        None
    } else if banner_line_version(ls[0]) is Some {
        banner_line_version(ls[0])
    } else {
        first_banner_version(ls.skip(1))
    }
}

/// The version string that `java -version` prints on its error stream.
pub fn version_from_banner(stderr: &str) -> (r: Option<String>)
    ensures
        r is Some == first_banner_version(lines_spec(stderr@)) is Some,
        r matches Some(v) ==> first_banner_version(lines_spec(stderr@)) == Some(v@),
{
    let ls = lines(stderr);
    let mut i: usize = 0;
    proof {
        assert(views(ls@).skip(0) =~= views(ls@));
    }
    while i < ls.len()
        invariant
            0 <= i <= ls@.len(),
            views(ls@) == lines_spec(stderr@),
            first_banner_version(views(ls@)) == first_banner_version(views(ls@).skip(i as int)),
        decreases ls.len() - i,
    {
        let line = ls[i].as_str();
        proof {
            assert(views(ls@).skip(i as int)[0] == line@);
            assert(views(ls@).skip(i as int).skip(1) =~= views(ls@).skip(i as int + 1));
        }
        if contains(line, "version") {
            let parts = split_char(line, '"');
            if parts.len() > 1 {
                proof {
                    assert(parts@[1]@ == split_spec(line@, '"')[1]);
                }
                return Some(String::from_str(parts[1].as_str()));
            }
        }
        i += 1;
    }
    proof {
        assert(views(ls@).skip(i as int).len() == 0);
    }
    None
}

/// The supported major version that a detected runtime's version belongs to:
/// its parsed major version, when that is 8, 17 or 21.
pub open spec fn detected_major_spec(v: Seq<char>) -> Option<u8> {
    match major_version_spec(v) {
        Some(m) => if m == 8 || m == 17 || m == 21 { Some(m) } else { None },
        None => None,
    }
}

/// Classifies a detected runtime's version as 8, 17 or 21.
pub fn detected_major(v: &str) -> (r: Option<u8>)
    ensures
        r == detected_major_spec(v@),
{
    match extract_major_version(v) {
        Some(m) => if m == 8 || m == 17 || m == 21 { Some(m) } else { None },
        None => None,
    }
}

/// A runtime found on the system, with the version it reported.
#[derive(Clone, Debug)]
pub struct DetectedJava {
    pub path: String,
    pub version: String,
}

/// The path of the first runtime in `found` whose version belongs to `major`.
pub open spec fn first_of_major(found: Seq<DetectedJava>, major: u8) -> Option<Seq<char>>
    decreases found.len(),
{
    if found.len() == 0 {
        None
    } else if detected_major_spec(found[0].version@) == Some(major) {
        Some(found[0].path@)
    } else {
        first_of_major(found.skip(1), major)
    }
}

/// The runtimes found for majors 8, 17 and 21.
pub type JavaDetectionResult = (Option<String>, Option<String>, Option<String>);

pub open spec fn opt_view(o: Option<String>) -> Option<Seq<char>> {
    match o {
        None => None,
        Some(s) => Some(s@),
    }
}

/// Keeps, for each supported major version, the first runtime found for it.
pub fn assign_detected(found: &Vec<DetectedJava>) -> (r: JavaDetectionResult)
    ensures
        opt_view(r.0) == first_of_major(found@, 8),
        opt_view(r.1) == first_of_major(found@, 17),
        opt_view(r.2) == first_of_major(found@, 21),
{
    let mut j8: Option<String> = None;
    let mut j17: Option<String> = None;
    let mut j21: Option<String> = None;
    let mut i: usize = 0;
    proof {
        assert(found@.skip(0) =~= found@);
    }
    while i < found.len()
        invariant
            0 <= i <= found@.len(),
            j8 is None ==> first_of_major(found@, 8) == first_of_major(found@.skip(i as int), 8),
            j8 is Some ==> first_of_major(found@, 8) == opt_view(j8),
            j17 is None ==> first_of_major(found@, 17) == first_of_major(found@.skip(i as int), 17),
            j17 is Some ==> first_of_major(found@, 17) == opt_view(j17),
            j21 is None ==> first_of_major(found@, 21) == first_of_major(found@.skip(i as int), 21),
            j21 is Some ==> first_of_major(found@, 21) == opt_view(j21),
        decreases found.len() - i,
    {
        let d = &found[i];
        proof {
            assert(found@.skip(i as int)[0] == *d);
            assert(found@.skip(i as int).skip(1) =~= found@.skip(i as int + 1));
        }
        match detected_major(d.version.as_str()) {
            Some(m) => {
                if m == 8 && j8.is_none() {
                    j8 = Some(d.path.clone());
                } else if m == 17 && j17.is_none() {
                    j17 = Some(d.path.clone());
                } else if m == 21 && j21.is_none() {
                    j21 = Some(d.path.clone());
                }
            },
            None => {},
        }
        i += 1;
    }
    proof {
        assert(found@.skip(i as int).len() == 0);
    }
    (j8, j17, j21)
}

// ---------------------------------------------------------------- paths

/// The executable that `bin/` of a runtime holds on the platform.
pub open spec fn exe_name(p: Platform) -> Seq<char> {
    if p == Platform::Windows { "java.exe"@ } else { "java"@ }
}

/// On Windows, the console launcher `java.exe` is swapped for the windowed
/// `javaw.exe`; other paths and platforms are left as they are.
pub open spec fn handle_path_spec(path: Seq<char>, p: Platform) -> Seq<char> {
    if p == Platform::Windows && file_name_spec(path) == "java.exe"@ {
        with_file_name_spec(path, "javaw.exe"@)
    } else {
        path
    }
}

/// Swaps a Windows console launcher for its windowed counterpart.
pub fn handle_path(path: &str, platform: Platform) -> (r: String)
    ensures
        r@ == handle_path_spec(path@, platform),
{
    if platform == Platform::Windows {
        let name = file_name(path);
        if eq_str(name.as_str(), "java.exe") {
            return with_file_name(path, "javaw.exe");
        }
    }
    String::from_str(path)
}

/// The executable of a runtime: a chosen executable is kept as it is; for an
/// installation root (`automatic`), the standard `bin/java` below it, which on
/// Windows is the windowed `javaw.exe`.
pub open spec fn java_path_spec(root: Seq<char>, automatic: bool, p: Platform) -> Seq<char> {
    if automatic {
        handle_path_spec(path_join_spec(path_join_spec(root, "bin"@), exe_name(p)), p)
    } else {
        root
    }
}

/// The executable to record for a runtime.
pub fn get_java_path(root: &str, automatic: bool, platform: Platform) -> (r: String)
    ensures
        r@ == java_path_spec(root@, automatic, platform),
{
    if !automatic {
        return String::from_str(root);
    }
    let bin = join_path(root, "bin");
    let exe = if platform == Platform::Windows { "java.exe" } else { "java" };
    let full = join_path(bin.as_str(), exe);
    handle_path(full.as_str(), platform)
}

/// The console launcher of a runtime, for running it to read its output:
/// `javaw.exe` becomes `java.exe`.
pub open spec fn console_launcher_spec(path: Seq<char>) -> Seq<char> {
    if file_name_spec(path) == "javaw.exe"@ {
        with_file_name_spec(path, "java.exe"@)
    } else {
        path
    }
}

pub fn console_launcher(path: &str) -> (r: String)
    ensures
        r@ == console_launcher_spec(path@),
{
    let name = file_name(path);
    if eq_str(name.as_str(), "javaw.exe") {
        with_file_name(path, "java.exe")
    } else {
        String::from_str(path)
    }
}

// ---------------------------------------------------------------- catalog

/// Where runtime packages are listed.
pub const CATALOG_URL: &'static str = "https://api.azul.com/metadata/v1/zulu/packages/";

/// The catalog's name for an operating system (as `std::env::consts::OS` names it).
pub open spec fn catalog_os_spec(os: Seq<char>) -> Option<Seq<char>> {
    if os == "windows"@ || os == "macos"@ || os == "linux"@ {
        Some(os)
    } else {
        None
    }
}

/// The catalog's name for an architecture (as `std::env::consts::ARCH` names it).
pub open spec fn catalog_arch_spec(arch: Seq<char>) -> Option<Seq<char>> {
    if arch == "x86_64"@ {
        Some("amd64"@)
    } else if arch == "aarch64"@ {
        Some("aarch64"@)
    } else {
        None
    }
}

/// The query for the latest generally available zip of a JDK of `version`.
pub open spec fn catalog_params_spec(version: u8, os: Seq<char>, arch: Seq<char>) -> Seq<(Seq<char>, Seq<char>)> {
    seq![
        ("java_version"@, decimal(version as nat)),
        ("os"@, os),
        ("arch"@, arch),
        ("archive_type"@, "zip"@),
        ("java_package_type"@, "jdk"@),
        ("javafx_bundled"@, "false"@),
        ("crac_supported"@, "false"@),
        ("latest"@, "true"@),
        ("release_status"@, "ga"@)
    ]
}

pub open spec fn pair_views(e: Seq<(String, String)>) -> Seq<(Seq<char>, Seq<char>)> {
    e.map_values(|p: (String, String)| (p.0@, p.1@))
}

fn push_param(v: &mut Vec<(String, String)>, k: &str, x: &str)
    ensures
        pair_views(final(v)@) == pair_views(old(v)@).push((k@, x@)),
{
    v.push((String::from_str(k), String::from_str(x)));
    proof {
        assert(pair_views(v@) =~= pair_views(old(v)@).push((k@, x@)));
    }
}

/// The catalog query for runtime `version` on the platform `os`/`arch`; an
/// operating system or architecture the catalog does not serve is refused.
pub fn catalog_query(version: u8, os: &str, arch: &str) -> (r: Result<Vec<(String, String)>, RuntimeError>)
    ensures
        catalog_os_spec(os@) is None ==> (r matches Err(RuntimeError::UnsupportedOs(o)) && o@ == os@),
        catalog_os_spec(os@) is Some && catalog_arch_spec(arch@) is None ==> (r matches Err(
            RuntimeError::UnsupportedArch(a),
        ) && a@ == arch@),
        catalog_os_spec(os@) is Some && catalog_arch_spec(arch@) is Some ==> (r matches Ok(q)
            && pair_views(q@) == catalog_params_spec(
            version,
            catalog_os_spec(os@)->0,
            catalog_arch_spec(arch@)->0,
        )),
{
    if !(eq_str(os, "windows") || eq_str(os, "macos") || eq_str(os, "linux")) {
        return Err(RuntimeError::UnsupportedOs(String::from_str(os)));
    }
    let arch_name = if eq_str(arch, "x86_64") {
        "amd64"
    } else if eq_str(arch, "aarch64") {
        "aarch64"
    } else {
        return Err(RuntimeError::UnsupportedArch(String::from_str(arch)));
    };
    let v = decimal_string(version as u64);
    let mut q: Vec<(String, String)> = Vec::new();
    push_param(&mut q, "java_version", v.as_str());
    push_param(&mut q, "os", os);
    push_param(&mut q, "arch", arch_name);
    push_param(&mut q, "archive_type", "zip");
    push_param(&mut q, "java_package_type", "jdk");
    push_param(&mut q, "javafx_bundled", "false");
    push_param(&mut q, "crac_supported", "false");
    push_param(&mut q, "latest", "true");
    push_param(&mut q, "release_status", "ga");
    proof {
        assert(pair_views(q@) =~= catalog_params_spec(
            version,
            catalog_os_spec(os@)->0,
            catalog_arch_spec(arch@)->0,
        ));
    }
    Ok(q)
}

/// The package to fetch: the first that the catalog lists.
pub fn first_package_url(packages: &Vec<JavaInfo>, version: u8) -> (r: Result<String, RuntimeError>)
    ensures
        packages@.len() == 0 <==> r is Err,
        r matches Err(e) ==> e == RuntimeError::NoPackage(version),
        r matches Ok(u) ==> u@ == packages@[0].download_url@,
{
    if packages.len() == 0 {
        Err(RuntimeError::NoPackage(version))
    } else {
        Ok(packages[0].download_url.clone())
    }
}

/// Where a downloaded package goes: the last segment of its address, in the
/// scratch runtime directory.
pub fn archive_path_for(runtime_dir: &str, download_url: &str) -> (r: String)
    ensures
        r@ == path_join_spec(runtime_dir@, split_spec(download_url@, '/').last()),
{
    let parts = split_char(download_url, '/');
    proof {
        lemma_split_nonempty(download_url@, '/');
        assert(parts@[parts@.len() - 1]@ == split_spec(download_url@, '/').last());
    }
    join_path(runtime_dir, parts[parts.len() - 1].as_str())
}

/// Checks that each archive to extract comes with its major version.
pub fn check_extract_request(paths: usize, versions: usize) -> (r: Result<(), RuntimeError>)
    ensures
        r is Ok <==> paths == versions,
        r matches Err(e) ==> e == RuntimeError::CountMismatch,
{
    if paths != versions { Err(RuntimeError::CountMismatch) } else { Ok(()) }
}

} // verus!
