//! The launch orchestrator's decisions: single-flight admission, argument
//! vector and classpath, platform adjustments, exit bookkeeping, and the kill
//! path from a graceful request to a forced kill.

use vstd::prelude::*;
use crate::text::{views, trim, trim_spec, contains, contains_spec, decimal, decimal_string, join_spec, join_strings, replace_char,
    replace_char_spec, split_spec, free_of, lemma_split_join};
use crate::paths::{Platform, extension_spec, extension, is_sep};
use crate::assets::{AssetManager, jar_path};
use crate::manifest::VersionManifest;
use crate::accounts::{Account, first_active, get_active_account};
use crate::instance::{Instance, Settings, after_session};
use crate::registry::{RunningRegistry, RunningProcess, without_entry, find_entry};

verus! {

#[derive(Clone, Debug)]
pub struct AssetsDownloadStartedEvent(pub String);

#[derive(Clone, Debug)]
pub struct AssetsDownloadFinishedEvent(pub String);

#[derive(Clone, Debug)]
pub struct InstanceStartedEvent {
    pub slug: String,
    pub message: String,
}

#[derive(Clone, Debug)]
pub struct InstanceStoppedEvent {
    pub slug: String,
    pub message: String,
}

#[derive(Clone, Debug)]
pub struct InstanceLogEvent {
    pub slug: String,
    pub line: String,
}

/// Why a launch or a kill failed.
#[derive(Clone, Debug, PartialEq, Eq)]
pub enum LaunchError {
    /// A process of this instance is already running.
    AlreadyRunning(String),
    /// The version's client jar is not on disk at this path.
    MainJarMissing(String),
    /// The instance has no runtime executable.
    RuntimeNotConfigured,
    /// No account is active.
    NoActiveAccount,
    /// The game exited unsuccessfully, with this code when it had one.
    NonZeroExit(Option<i32>),
    /// The process survived the graceful request and the forced kill.
    ForceKillFailed(String),
    /// The instance's launch is admitted but its process is not spawned yet.
    NotYetRunning(String),
    /// Watching the process for its exit failed.
    ProcessWaitFailed,
}

/// The slug as events carry it: every `.` becomes `_`.
pub open spec fn event_slug(slug: Seq<char>) -> Seq<char> {
    replace_char_spec(slug, '.', '_')
}

pub fn formatted_slug(slug: &str) -> (r: String)
    ensures
        r@ == event_slug(slug@),
{
    proof {
        reveal_strlit("_");
    }
    replace_char(slug, '.', "_")
}

/// The event that announces a started game.
pub fn instance_started(slug: &str) -> (r: InstanceStartedEvent)
    ensures
        r.slug@ == event_slug(slug@),
        r.message@ == "Game instance started"@,
{
    InstanceStartedEvent { slug: formatted_slug(slug), message: String::from_str("Game instance started") }
}

/// The log event for a line of the game's output: the line trimmed, and none
/// for a blank line.
pub fn log_line(slug: &str, raw: &str) -> (r: Option<InstanceLogEvent>)
    ensures
        r is None <==> trim_spec(raw@).len() == 0,
        r matches Some(e) ==> e.slug@ == event_slug(slug@) && e.line@ == trim_spec(raw@),
{
    let line = trim(raw);
    if line.unicode_len() == 0 {
        None
    } else {
        Some(InstanceLogEvent { slug: formatted_slug(slug), line })
    }
}

/// The presence status (details, state) while an instance plays.
pub fn playing_activity(instance: &Instance) -> (r: (String, String))
    ensures
        r.0@ == "Playing "@ + instance.name@,
        r.1@ == "Version: "@ + instance.game.version@,
{
    let mut details = String::from_str("Playing ");
    details.append(instance.name.as_str());
    let mut state = String::from_str("Version: ");
    state.append(instance.game.version.as_str());
    (details, state)
}

/// The presence status (details, state) restored once no game runs.
pub fn idle_activity() -> (r: (String, String))
    ensures
        r.0@ == "Exploring the Launcher"@,
        r.1@ == "Idle"@,
{
    (String::from_str("Exploring the Launcher"), String::from_str("Idle"))
}

// ------------------------------------------------------------ admission

/// Admits a launch of `slug` and reserves the slug for it at once, so that no
/// other launch of it is admitted until its entry is cleared. While the slug has
/// an entry the launch is refused, nothing is spawned, and the registry stays as
/// it was. On admission, says whether resources must be acquired first (the
/// instance has never launched).
pub fn begin_launch<H>(registry: &mut RunningRegistry<H>, slug: &str, settings: &Settings) -> (r: Result<bool, LaunchError>)
    requires
        old(registry).wf(),
    ensures
        final(registry).wf(),
        r is Ok <==> launch_admitted(*old(registry), slug@),
        r matches Err(e) ==> (e matches LaunchError::AlreadyRunning(s) && s@ == slug@),
        r is Err ==> final(registry).entries@ == old(registry).entries@,
        r matches Ok(needs) ==> needs == !settings.has_launched,
        r is Ok ==> final(registry).entries@.len() == old(registry).entries@.len() + 1
            && final(registry).entries@.drop_last() == old(registry).entries@
            && final(registry).entries@.last().slug@ == slug@
            && final(registry).entries@.last().process is None,
        r is Ok ==> !launch_admitted(*final(registry), slug@),
{
    match registry.reserve(slug) {
        Ok(()) => Ok(!settings.has_launched),
        Err(_) => Err(LaunchError::AlreadyRunning(String::from_str(slug))),
    }
}

/// Whether a launch of `slug` may spawn a process: only when none of it is registered.
pub open spec fn launch_admitted<H>(registry: RunningRegistry<H>, slug: Seq<char>) -> bool {
    !registry.has(slug)
}

/// Launching is single-flight: once a process of `slug` is registered, a launch
/// of it is refused, and only clearing that entry admits one again.
pub proof fn lemma_single_flight<H>(before: RunningRegistry<H>, after: RunningRegistry<H>, slug: Seq<char>)
    requires
        before.wf(),
        after.entries@.len() == before.entries@.len() + 1,
        after.entries@.drop_last() == before.entries@,
        after.entries@.last().slug@ == slug,
    ensures
        !launch_admitted(after, slug),
        !crate::registry::seq_has(without_entry(after.entries@, slug), slug),
{
    let n = after.entries@.len() - 1;
    assert(after.entries@[n as int].slug@ == slug);
    crate::registry::lemma_without_has(after.entries@, slug, slug);
}

// ------------------------------------------------------------ acquisition

/// Why resource acquisition failed: the pass that failed first.
#[derive(Clone, Copy, Debug, PartialEq, Eq, Structural)]
pub enum AcquisitionFailure {
    Assets,
    Libraries,
    VersionJar,
}

/// Closes an acquisition: when all three passes succeeded the instance is marked
/// as launched; when any failed it is left as it was, so the next launch tries
/// again, and the first failed pass is reported.
pub fn complete_acquisition(settings: &mut Settings, assets_ok: bool, libraries_ok: bool, jar_ok: bool) -> (r: Result<
    (),
    AcquisitionFailure,
>)
    ensures
        r is Ok <==> (assets_ok && libraries_ok && jar_ok),
        r is Ok ==> *final(settings) == (Settings { has_launched: true, ..*old(settings) }),
        r is Err ==> *final(settings) == *old(settings),
        r == Err::<(), AcquisitionFailure>(AcquisitionFailure::Assets) <==> !assets_ok,
        r == Err::<(), AcquisitionFailure>(AcquisitionFailure::Libraries) <==> (assets_ok && !libraries_ok),
        r == Err::<(), AcquisitionFailure>(AcquisitionFailure::VersionJar) <==> (assets_ok && libraries_ok && !jar_ok),
{
    if !assets_ok {
        return Err(AcquisitionFailure::Assets);
    }
    if !libraries_ok {
        return Err(AcquisitionFailure::Libraries);
    }
    if !jar_ok {
        return Err(AcquisitionFailure::VersionJar);
    }
    settings.mark_launched();
    Ok(())
}

/// The account a launch plays with: the first active one.
pub fn launch_account(accounts: &Vec<Account>) -> (r: Result<&Account, LaunchError>)
    ensures
        r is Err <==> first_active(accounts@) < 0,
        r matches Err(e) ==> e == LaunchError::NoActiveAccount,
        r matches Ok(a) ==> *a == accounts@[first_active(accounts@)],
{
    match get_active_account(accounts) {
        Some(a) => Ok(a),
        None => Err(LaunchError::NoActiveAccount),
    }
}

// ------------------------------------------------------------ arguments

/// The argument vector after the main class.
pub open spec fn game_args_spec(
    username: Seq<char>,
    version: Seq<char>,
    game_dir: Seq<char>,
    assets_dir: Seq<char>,
    asset_index: Seq<char>,
    uuid: Seq<char>,
    token: Seq<char>,
    maximized: bool,
    width: u32,
    height: u32,
) -> Seq<Seq<char>> {
    let base = seq![
        "--username"@, username,
        "--version"@, version,
        "--gameDir"@, game_dir,
        "--assetsDir"@, assets_dir,
        "--assetIndex"@, asset_index,
        "--uuid"@, uuid,
        "--accessToken"@, token,
        "--userType"@, "msa"@,
        "--versionType"@, "Glyph Launcher"@
    ];
    if maximized {
        base
    } else {
        base + seq!["--width"@, decimal(width as nat), "--height"@, decimal(height as nat)]
    }
}

fn push_str(v: &mut Vec<String>, s: &str)
    ensures
        views(final(v)@) == views(old(v)@).push(s@),
{
    v.push(String::from_str(s));
    proof {
        assert(views(v@) =~= views(old(v)@).push(s@));
    }
}

/// The game's arguments: identity, version, directories, asset index, token and
/// a fixed user and version type; window size unless the window is maximized.
pub fn prepare_game_args(
    instance: &Instance,
    instance_dir: &str,
    version_manifest: &VersionManifest,
    account: &Account,
    assets_dir: &str,
) -> (r: Vec<String>)
    ensures
        views(r@) == game_args_spec(
            account.profile.name@,
            instance.game.version@,
            instance_dir@,
            assets_dir@,
            version_manifest.asset_index.id@,
            account.profile.id@,
            account.access_token@,
            instance.settings.maximized,
            instance.settings.window_width,
            instance.settings.window_height,
        ),
{
    let mut a: Vec<String> = Vec::new();
    push_str(&mut a, "--username");
    push_str(&mut a, account.profile.name.as_str());
    push_str(&mut a, "--version");
    push_str(&mut a, instance.game.version.as_str());
    push_str(&mut a, "--gameDir");
    push_str(&mut a, instance_dir);
    push_str(&mut a, "--assetsDir");
    push_str(&mut a, assets_dir);
    push_str(&mut a, "--assetIndex");
    push_str(&mut a, version_manifest.asset_index.id.as_str());
    push_str(&mut a, "--uuid");
    push_str(&mut a, account.profile.id.as_str());
    push_str(&mut a, "--accessToken");
    push_str(&mut a, account.access_token.as_str());
    push_str(&mut a, "--userType");
    push_str(&mut a, "msa");
    push_str(&mut a, "--versionType");
    push_str(&mut a, "Glyph Launcher");
    if !instance.settings.maximized {
        let w = decimal_string(instance.settings.window_width as u64);
        let h = decimal_string(instance.settings.window_height as u64);
        push_str(&mut a, "--width");
        push_str(&mut a, w.as_str());
        push_str(&mut a, "--height");
        push_str(&mut a, h.as_str());
    }
    proof {
        assert(views(a@) =~= game_args_spec(
            account.profile.name@,
            instance.game.version@,
            instance_dir@,
            assets_dir@,
            version_manifest.asset_index.id@,
            account.profile.id@,
            account.access_token@,
            instance.settings.maximized,
            instance.settings.window_width,
            instance.settings.window_height,
        ));
    }
    a
}

// ------------------------------------------------------------ classpath

/// Whether a path names a jar file.
pub open spec fn is_jar(p: Seq<char>) -> bool {
    extension_spec(p) == Some("jar"@)
}

/// The jar files among `files`, in order.
pub open spec fn jar_entries(files: Seq<Seq<char>>) -> Seq<Seq<char>>
    decreases files.len(),
{
    if files.len() == 0 {
        files
    } else if is_jar(files.last()) {
        jar_entries(files.drop_last()).push(files.last())
    } else {
        jar_entries(files.drop_last())
    }
}

/// The classpath separator of the platform.
pub open spec fn classpath_sep(p: Platform) -> char {
    if p == Platform::Windows { ';' } else { ':' }
}

/// The classpath entries: the jars found under the libraries directory, then
/// the version's client jar.
pub open spec fn classpath_entries(files: Seq<Seq<char>>, versions_dir: Seq<char>, id: Seq<char>) -> Seq<Seq<char>> {
    jar_entries(files).push(jar_path(versions_dir, id))
}

/// Builds the classpath from the files found under the libraries directory
/// (`library_files`) and the client jar, which must be on disk.
pub fn construct_classpath(
    manager: &AssetManager,
    version_manifest: &VersionManifest,
    library_files: &Vec<String>,
    main_jar_present: bool,
    platform: Platform,
) -> (r: Result<String, LaunchError>)
    ensures
        r is Err <==> !main_jar_present,
        r matches Err(e) ==> (e matches LaunchError::MainJarMissing(p) && p@ == jar_path(
            manager.versions_dir@,
            version_manifest.id@,
        )),
        r matches Ok(cp) ==> cp@ == join_spec(
            classpath_entries(views(library_files@), manager.versions_dir@, version_manifest.id@),
            seq![classpath_sep(platform)],
        ),
{
    proof {
        reveal_strlit("jar");
        reveal_strlit(";");
        reveal_strlit(":");
    }
    let jar = crate::assets::AssetManager::version_jar_target(manager, version_manifest).path;
    if !main_jar_present {
        return Err(LaunchError::MainJarMissing(jar));
    }
    let mut entries: Vec<String> = Vec::new();
    let mut i: usize = 0;
    while i < library_files.len()
        invariant
            0 <= i <= library_files@.len(),
            "jar"@ =~= seq!['j', 'a', 'r'],
            views(entries@) == jar_entries(views(library_files@).subrange(0, i as int)),
        decreases library_files.len() - i,
    {
        proof {
            assert(views(library_files@).subrange(0, i as int + 1).drop_last() =~= views(library_files@).subrange(0, i as int));
            assert(views(library_files@).subrange(0, i as int + 1).last() == library_files@[i as int]@);
        }
        let f = library_files[i].as_str();
        let keep = match extension(f) {
            Some(e) => crate::text::eq_str(e.as_str(), "jar"),
            None => false,
        };
        if keep {
            push_str(&mut entries, f);
        }
        i += 1;
    }
    proof {
        assert(views(library_files@).subrange(0, library_files@.len() as int) =~= views(library_files@));
    }
    push_str(&mut entries, jar.as_str());
    let sep = if platform == Platform::Windows { ";" } else { ":" };
    proof {
        assert(sep@ =~= seq![classpath_sep(platform)]);
    }
    Ok(join_strings(&entries, sep))
}

/// Whether a path is absolute: rooted at a separator, or at a drive letter and a separator.
pub open spec fn is_absolute(p: Seq<char>) -> bool {
    (p.len() > 0 && is_sep(p[0])) || (p.len() >= 3 && p[1] == ':' && is_sep(p[2]))
}

proof fn lemma_jar_entries_keep(files: Seq<Seq<char>>, p: spec_fn(Seq<char>) -> bool)
    requires
        forall|i: int| 0 <= i < files.len() ==> p(#[trigger] files[i]),
    ensures
        forall|i: int| 0 <= i < jar_entries(files).len() ==> p(#[trigger] jar_entries(files)[i]),
        jar_entries(files).len() <= files.len(),
    decreases files.len(),
{
    if files.len() > 0 {
        let init = files.drop_last();
        assert forall|i: int| 0 <= i < init.len() implies p(#[trigger] init[i]) by {
            assert(init[i] == files[i]);
        }
        lemma_jar_entries_keep(init, p);
        assert(p(files[files.len() - 1]));
        let prev = jar_entries(init);
        assert forall|i: int| 0 <= i < jar_entries(files).len() implies p(#[trigger] jar_entries(files)[i]) by {
            if i < prev.len() {
                assert(jar_entries(files)[i] == prev[i]);
            }
        }
    }
}

/// Classpath completeness: with the client jar present, the classpath read back
/// at the platform separator has exactly one entry per jar found under the
/// libraries directory plus one for the client jar, in that order; each is
/// absolute when the directories are. (Paths holding the separator would be
/// split apart, so they are left out.)
pub proof fn lemma_classpath_complete(
    files: Seq<Seq<char>>,
    versions_dir: Seq<char>,
    id: Seq<char>,
    platform: Platform,
)
    requires
        forall|i: int| 0 <= i < files.len() ==> free_of(#[trigger] files[i], classpath_sep(platform)),
        free_of(jar_path(versions_dir, id), classpath_sep(platform)),
    ensures
        ({
            let cp = join_spec(classpath_entries(files, versions_dir, id), seq![classpath_sep(platform)]);
            let read = split_spec(cp, classpath_sep(platform));
            &&& read.len() == jar_entries(files).len() + 1
            &&& read == jar_entries(files).push(jar_path(versions_dir, id))
            &&& (is_absolute(versions_dir) && forall|i: int| 0 <= i < files.len() ==> is_absolute(#[trigger] files[i]))
                ==> forall|i: int| 0 <= i < read.len() ==> is_absolute(#[trigger] read[i])
        }),
{
    let sep = classpath_sep(platform);
    let jars = jar_entries(files);
    lemma_jar_entries_keep(files, |f: Seq<char>| free_of(f, sep));
    let entries = jars.push(jar_path(versions_dir, id));
    assert forall|i: int| 0 <= i < entries.len() implies free_of(#[trigger] entries[i], sep) by {
        if i < jars.len() {
            assert(entries[i] == jars[i]);
        }
    }
    lemma_split_join(entries, sep);
    let jp = jar_path(versions_dir, id);
    if is_absolute(versions_dir) && forall|i: int| 0 <= i < files.len() ==> is_absolute(#[trigger] files[i]) {
        lemma_jar_entries_keep(files, |f: Seq<char>| is_absolute(f));
        assert(jp.subrange(0, versions_dir.len() as int) =~= versions_dir);
        assert(jp[0] == versions_dir[0]);
        if versions_dir.len() >= 3 {
            assert(jp[1] == versions_dir[1] && jp[2] == versions_dir[2]);
        }
        assert forall|i: int| 0 <= i < entries.len() implies is_absolute(#[trigger] entries[i]) by {
            if i < jars.len() {
                assert(entries[i] == jars[i]);
            }
        }
    }
}

// ------------------------------------------------------------ command

/// The GPU that the OS is asked to prefer for the runtime.
#[derive(Clone, Copy, Debug, PartialEq, Eq, Structural)]
pub enum GpuPreference {
    Integrated,
    Discrete,
}

pub fn gpu_preference(use_discrete_gpu: bool) -> (r: GpuPreference)
    ensures
        r == if use_discrete_gpu { GpuPreference::Discrete } else { GpuPreference::Integrated },
{
    if use_discrete_gpu { GpuPreference::Discrete } else { GpuPreference::Integrated }
}

/// The registry value that states a GPU preference.
pub fn gpu_preference_value(pref: GpuPreference) -> (r: String)
    ensures
        r@ == if pref == GpuPreference::Integrated { "GpuPreference=1;"@ } else { "GpuPreference=2;"@ },
{
    match pref {
        GpuPreference::Integrated => String::from_str("GpuPreference=1;"),
        GpuPreference::Discrete => String::from_str("GpuPreference=2;"),
    }
}

/// The registry value name for an executable: its canonical path with
/// backslashes only.
pub fn gpu_registry_name(canonical_path: &str) -> (r: String)
    ensures
        r@ == replace_char_spec(canonical_path@, '/', '\\'),
{
    proof {
        reveal_strlit("\\");
    }
    replace_char(canonical_path, '/', "\\")
}

/// The render-offload environment: on Linux with the discrete GPU chosen, the
/// variables that route rendering to it; nothing otherwise.
pub open spec fn offload_env_spec(platform: Platform, use_discrete_gpu: bool) -> Seq<(Seq<char>, Seq<char>)> {
    if platform == Platform::Linux && use_discrete_gpu {
        seq![
            ("DRI_PRIME"@, "1"@),
            ("__NV_PRIME_RENDER_OFFLOAD"@, "1"@),
            ("__VK_LAYER_NV_optimus"@, "NVIDIA_only"@),
            ("__GLX_VENDOR_LIBRARY_NAME"@, "nvidia"@)
        ]
    } else {
        seq![]
    }
}

pub open spec fn env_views(e: Seq<(String, String)>) -> Seq<(Seq<char>, Seq<char>)> {
    e.map_values(|p: (String, String)| (p.0@, p.1@))
}

fn push_pair(v: &mut Vec<(String, String)>, k: &str, x: &str)
    ensures
        env_views(final(v)@) == env_views(old(v)@).push((k@, x@)),
{
    v.push((String::from_str(k), String::from_str(x)));
    proof {
        assert(env_views(v@) =~= env_views(old(v)@).push((k@, x@)));
    }
}

pub fn render_offload_env(platform: Platform, use_discrete_gpu: bool) -> (r: Vec<(String, String)>)
    ensures
        env_views(r@) == offload_env_spec(platform, use_discrete_gpu),
{
    let mut v: Vec<(String, String)> = Vec::new();
    if platform == Platform::Linux && use_discrete_gpu {
        push_pair(&mut v, "DRI_PRIME", "1");
        push_pair(&mut v, "__NV_PRIME_RENDER_OFFLOAD", "1");
        push_pair(&mut v, "__VK_LAYER_NV_optimus", "NVIDIA_only");
        push_pair(&mut v, "__GLX_VENDOR_LIBRARY_NAME", "nvidia");
    }
    proof {
        assert(env_views(v@) =~= offload_env_spec(platform, use_discrete_gpu));
    }
    v
}

/// Everything needed to spawn the game.
#[derive(Clone, Debug)]
pub struct LaunchCommand {
    pub program: String,
    pub current_dir: String,
    pub args: Vec<String>,
    pub env: Vec<(String, String)>,
}

/// The spawn command: the instance's runtime run in the instance directory with
/// `-cp <classpath> <main class>` and the game arguments, and the render-offload
/// environment. A runtime that is not configured fails before any spawn.
pub fn configure_launch_command(
    instance: &Instance,
    instance_dir: &str,
    main_class: &str,
    classpath: &str,
    game_args: &Vec<String>,
    use_discrete_gpu: bool,
    platform: Platform,
) -> (r: Result<LaunchCommand, LaunchError>)
    ensures
        r is Err <==> instance.java.path@.len() == 0,
        r matches Err(e) ==> e == LaunchError::RuntimeNotConfigured,
        r matches Ok(c) ==> {
            &&& c.program@ == instance.java.path@
            &&& c.current_dir@ == instance_dir@
            &&& views(c.args@) == seq!["-cp"@, classpath@, main_class@] + views(game_args@)
            &&& env_views(c.env@) == offload_env_spec(platform, use_discrete_gpu)
        },
{
    if instance.java.path.unicode_len() == 0 {
        return Err(LaunchError::RuntimeNotConfigured);
    }
    let mut args: Vec<String> = Vec::new();
    push_str(&mut args, "-cp");
    push_str(&mut args, classpath);
    push_str(&mut args, main_class);
    let mut i: usize = 0;
    while i < game_args.len()
        invariant
            0 <= i <= game_args@.len(),
            views(args@) == seq!["-cp"@, classpath@, main_class@] + views(game_args@).subrange(0, i as int),
        decreases game_args.len() - i,
    {
        push_str(&mut args, game_args[i].as_str());
        proof {
            assert(views(game_args@).subrange(0, i as int + 1) =~= views(game_args@).subrange(0, i as int).push(game_args@[i as int]@));
            assert(views(args@) =~= seq!["-cp"@, classpath@, main_class@] + views(game_args@).subrange(0, i as int + 1));
        }
        i += 1;
    }
    proof {
        assert(views(game_args@).subrange(0, game_args@.len() as int) =~= views(game_args@));
    }
    Ok(LaunchCommand {
        program: String::from_str(instance.java.path.as_str()),
        current_dir: String::from_str(instance_dir),
        args,
        env: render_offload_env(platform, use_discrete_gpu),
    })
}

// ------------------------------------------------------------ exit

/// What one poll of the game process saw.
#[derive(Clone, Copy, Debug, PartialEq, Eq, Structural)]
pub enum WaitObservation {
    /// The process has exited, successfully or not, with this code when it had one.
    Exited { success: bool, code: Option<i32> },
    StillRunning,
    /// Asking the OS for the process's status failed.
    CheckFailed,
    /// The handle was emptied by a kill.
    HandleCleared,
}

/// What the wait does after a poll.
#[derive(Clone, Copy, Debug, PartialEq, Eq, Structural)]
pub enum WaitDecision {
    KeepWaiting,
    Finished { success: bool, code: Option<i32> },
    WaitFailed,
}

/// Decides after a poll of the game process: an exit ends the wait with its
/// status, a handle emptied by a kill ends it as a success, a failed status
/// check ends it as a wait failure.
pub fn after_wait_poll(obs: WaitObservation) -> (r: WaitDecision)
    ensures
        obs matches WaitObservation::Exited { success, code } ==> r == (WaitDecision::Finished { success, code }),
        obs == WaitObservation::StillRunning ==> r == WaitDecision::KeepWaiting,
        obs == WaitObservation::CheckFailed ==> r == WaitDecision::WaitFailed,
        obs == WaitObservation::HandleCleared ==> r == (WaitDecision::Finished { success: true, code: Some(0) }),
{
    match obs {
        WaitObservation::Exited { success, code } => WaitDecision::Finished { success, code },
        WaitObservation::StillRunning => WaitDecision::KeepWaiting,
        WaitObservation::CheckFailed => WaitDecision::WaitFailed,
        WaitObservation::HandleCleared => WaitDecision::Finished { success: true, code: Some(0) },
    }
}

/// What a finished wait makes of the launch: success, an unsuccessful exit, or
/// a wait failure.
pub open spec fn exit_result(end: WaitDecision) -> Result<(), LaunchError> {
    match end {
        WaitDecision::Finished { success, code } => if success { Ok(()) } else { Err(LaunchError::NonZeroExit(code)) },
        _ => Err(LaunchError::ProcessWaitFailed),
    }
}

/// The bookkeeping once the wait for the game's process has ended: its registry
/// entry is cleared first, then the stopped event is due, and the end of the
/// wait decides the launch's result.
pub fn process_exited<H>(registry: &mut RunningRegistry<H>, slug: &str, end: WaitDecision) -> (r: (
    InstanceStoppedEvent,
    Result<(), LaunchError>,
))
    requires
        old(registry).wf(),
        end != WaitDecision::KeepWaiting,
    ensures
        final(registry).wf(),
        !final(registry).has(slug@),
        final(registry).entries@ == without_entry(old(registry).entries@, slug@),
        r.0.slug@ == event_slug(slug@),
        r.0.message@ == "Game instance stopped"@,
        r.1 == exit_result(end),
{
    let _ = registry.remove(slug);
    let ev = InstanceStoppedEvent {
        slug: formatted_slug(slug),
        message: String::from_str("Game instance stopped"),
    };
    let res = match end {
        WaitDecision::Finished { success, code } => if success { Ok(()) } else { Err(LaunchError::NonZeroExit(code)) },
        _ => Err(LaunchError::ProcessWaitFailed),
    };
    (ev, res)
}

/// Stats only grow: after any session, recorded at its exit time, the time
/// played does not decrease, the last-played time is that exit time, and the
/// instance counts as launched.
pub proof fn lemma_stats_monotone(before: Settings, elapsed_secs: u64, exit_ms: i64)
    ensures
        after_session(before, elapsed_secs, exit_ms).time_played >= before.time_played,
        after_session(before, elapsed_secs, exit_ms).last_played == Some(exit_ms),
        after_session(before, elapsed_secs, exit_ms).has_launched,
{
}

// ------------------------------------------------------------ kill

/// How many times the OS process table is polled after a graceful request
/// before the kill is forced.
pub const MAX_TERMINATION_POLLS: u32 = 30;

/// What the registry says about killing an instance.
#[derive(Clone, Copy, Debug, PartialEq, Eq, Structural)]
pub enum KillStep {
    /// Nothing of the instance is registered: not an error.
    AlreadyStopped,
    /// The launch is admitted but has not spawned its process yet.
    NotYetRunning,
    /// The process with this id runs.
    Terminate(u32),
}

/// What a kill does first.
#[derive(Clone, Copy, Debug, PartialEq, Eq, Structural)]
pub enum KillAction {
    /// Nothing to signal: end the kill this way.
    Finish(KillResolution),
    /// Refuse: the instance is not yet running.
    NotYetRunning,
    /// Ask the process with this id to terminate.
    Terminate(u32),
}

/// What to do after polling a process that was asked to terminate.
#[derive(Clone, Copy, Debug, PartialEq, Eq, Structural)]
pub enum PollDecision {
    Terminated,
    PollAgain,
    ForceKill,
}

/// How a kill ended.
#[derive(Clone, Copy, Debug, PartialEq, Eq, Structural)]
pub enum KillResolution {
    AlreadyStopped,
    Terminated,
    ForceKilled,
    ForceKillFailed,
}

/// What the registry says about killing `slug`.
pub open spec fn begin_kill_spec<H>(s: Seq<RunningProcess<H>>, slug: Seq<char>) -> KillStep {
    let f = find_entry(s, slug);
    if f < 0 {
        KillStep::AlreadyStopped
    } else if s[f].process is None {
        KillStep::NotYetRunning
    } else {
        KillStep::Terminate((s[f].process->0).0)
    }
}

/// Starts a kill of `slug`: a missing entry means the instance already stopped.
pub fn begin_kill<H>(registry: &RunningRegistry<H>, slug: &str) -> (r: KillStep)
    ensures
        r == begin_kill_spec(registry.entries@, slug@),
        !registry.has(slug@) <==> r == KillStep::AlreadyStopped,
{
    proof {
        crate::registry::lemma_find_entry(registry.entries@, slug@);
    }
    match registry.index_of(slug) {
        None => KillStep::AlreadyStopped,
        Some(i) => match &registry.entries[i].process {
            None => KillStep::NotYetRunning,
            Some(p) => KillStep::Terminate(p.0),
        },
    }
}

/// What a kill does first, given the registry's answer and whether the
/// process's handle still holds the child (a kill or an observed exit empties it).
pub open spec fn kill_action_spec(step: KillStep, child_present: bool) -> KillAction {
    match step {
        KillStep::AlreadyStopped => KillAction::Finish(KillResolution::AlreadyStopped),
        KillStep::NotYetRunning => KillAction::NotYetRunning,
        KillStep::Terminate(pid) => if child_present {
            KillAction::Terminate(pid)
        } else {
            KillAction::Finish(KillResolution::AlreadyStopped)
        },
    }
}

/// Decides a kill's first action: no signal goes to a process whose handle is
/// already empty.
pub fn kill_action(step: KillStep, child_present: bool) -> (r: KillAction)
    ensures
        r == kill_action_spec(step, child_present),
{
    match step {
        KillStep::AlreadyStopped => KillAction::Finish(KillResolution::AlreadyStopped),
        KillStep::NotYetRunning => KillAction::NotYetRunning,
        KillStep::Terminate(pid) => if child_present {
            KillAction::Terminate(pid)
        } else {
            KillAction::Finish(KillResolution::AlreadyStopped)
        },
    }
}

/// Decides after the `polls_done`-th poll of a process asked to terminate.
pub fn after_termination_poll(polls_done: u32, alive: bool) -> (r: PollDecision)
    ensures
        !alive ==> r == PollDecision::Terminated,
        alive && polls_done >= MAX_TERMINATION_POLLS ==> r == PollDecision::ForceKill,
        alive && polls_done < MAX_TERMINATION_POLLS ==> r == PollDecision::PollAgain,
{
    if !alive {
        PollDecision::Terminated
    } else if polls_done >= MAX_TERMINATION_POLLS {
        PollDecision::ForceKill
    } else {
        PollDecision::PollAgain
    }
}

/// The result of a kill that ended as `res`: only a failed forced kill is an error.
pub open spec fn kill_result(res: KillResolution) -> bool {
    res != KillResolution::ForceKillFailed
}

/// Ends a kill however it went: the entry of `slug` is cleared and the stopped
/// event is due, so the instance never stays shown as running; the kill fails
/// only when the forced kill failed.
pub fn finish_kill<H>(registry: &mut RunningRegistry<H>, slug: &str, res: KillResolution) -> (r: (
    InstanceStoppedEvent,
    Result<(), LaunchError>,
))
    requires
        old(registry).wf(),
    ensures
        final(registry).wf(),
        !final(registry).has(slug@),
        final(registry).entries@ == without_entry(old(registry).entries@, slug@),
        !old(registry).has(slug@) ==> final(registry).entries@ == old(registry).entries@,
        r.0.slug@ == event_slug(slug@),
        r.0.message@ == "Instance killed by user"@,
        r.1 is Ok <==> kill_result(res),
        r.1 matches Err(e) ==> (e matches LaunchError::ForceKillFailed(s) && s@ == slug@),
{
    let _ = registry.remove(slug);
    let ev = InstanceStoppedEvent {
        slug: formatted_slug(slug),
        message: String::from_str("Instance killed by user"),
    };
    let out = match res {
        KillResolution::ForceKillFailed => Err(LaunchError::ForceKillFailed(String::from_str(slug))),
        _ => Ok(()),
    };
    (ev, out)
}

/// Whether a process listing (as `tasklist` prints it) names process `pid`.
pub fn listing_names_pid(listing: &str, pid: u32) -> (r: bool)
    ensures
        r == contains_spec(listing@, decimal(pid as nat)),
{
    let p = decimal_string(pid as u64);
    contains(listing, p.as_str())
}

/// The command that forces process `pid` to end on the platform.
pub fn force_kill_command(platform: Platform, pid: u32) -> (r: (String, Vec<String>))
    ensures
        platform == Platform::Windows ==> r.0@ == "taskkill"@ && views(r.1@) == seq!["/F"@, "/PID"@, decimal(pid as nat)],
        platform != Platform::Windows ==> r.0@ == "kill"@ && views(r.1@) == seq!["-9"@, decimal(pid as nat)],
{
    let p = decimal_string(pid as u64);
    let mut args: Vec<String> = Vec::new();
    if platform == Platform::Windows {
        push_str(&mut args, "/F");
        push_str(&mut args, "/PID");
        push_str(&mut args, p.as_str());
        proof {
            assert(views(args@) =~= seq!["/F"@, "/PID"@, decimal(pid as nat)]);
        }
        (String::from_str("taskkill"), args)
    } else {
        push_str(&mut args, "-9");
        push_str(&mut args, p.as_str());
        proof {
            assert(views(args@) =~= seq!["-9"@, decimal(pid as nat)]);
        }
        (String::from_str("kill"), args)
    }
}

/// Killing is idempotent: whatever a kill of `slug` found and however it
/// ended, afterwards the registry holds no entry of `slug`, so the next kill
/// finds the instance already stopped, signals nothing, succeeds, and leaves
/// the registry as it was; a kill of an instance that is not registered does
/// exactly that from the start.
pub proof fn lemma_kill_idempotent<H>(registry: RunningRegistry<H>, slug: Seq<char>, child_present: bool)
    requires
        registry.wf(),
    ensures
        ({
            let after = without_entry(registry.entries@, slug);
            &&& begin_kill_spec(after, slug) == KillStep::AlreadyStopped
            &&& kill_action_spec(begin_kill_spec(after, slug), child_present) == KillAction::Finish(
                KillResolution::AlreadyStopped,
            )
            &&& kill_result(KillResolution::AlreadyStopped)
            &&& without_entry(after, slug) == after
        }),
        !registry.has(slug) ==> begin_kill_spec(registry.entries@, slug) == KillStep::AlreadyStopped
            && without_entry(registry.entries@, slug) == registry.entries@,
{
    let after = without_entry(registry.entries@, slug);
    crate::registry::lemma_without_has(registry.entries@, slug, slug);
    crate::registry::lemma_find_entry(after, slug);
    crate::registry::lemma_without_absent(after, slug);
    crate::registry::lemma_find_entry(registry.entries@, slug);
    if !registry.has(slug) {
        crate::registry::lemma_without_absent(registry.entries@, slug);
    }
}

} // verus!
