use glyph_launcher::accounts::{login_poll_step, LoginHandle, LoginPoll};
use glyph_launcher::accounts::{add_signed_in_account, delete_account, get_active_account, has_accounts_to_refresh, needs_refresh, replace_refreshed_account, switch_account, Account, AccountError, Profile};
use glyph_launcher::archive::{plan_extraction, strip_entry_path, ArchiveEntry, ExtractError};
use glyph_launcher::assets::{index_needs_download, pending_downloads, AssetError, AssetIndex, AssetManager, AssetObject, DownloadTarget};
use glyph_launcher::config::{create_default_config_file, get_instances_path, save_java_to_config, set_onboarding_complete, update_launcher_settings, LauncherSettings};
use glyph_launcher::instance::{java_for_version, Game, Instance, InstanceConfig, InstanceError, Java, Modloader, Settings};
use glyph_launcher::launch::{after_termination_poll, begin_kill, begin_launch, complete_acquisition, configure_launch_command, construct_classpath, finish_kill, formatted_slug, gpu_preference, gpu_preference_value, gpu_registry_name, prepare_game_args, process_exited, render_offload_env, after_wait_poll, kill_action, AcquisitionFailure, GpuPreference, KillAction, KillResolution, KillStep, LaunchError, PollDecision, WaitDecision, WaitObservation};
use glyph_launcher::manifest::{Arguments, AssetIndex as IndexRef, Artifact, Download, Downloads, JavaVersion, Library, LibraryDownloads, Logging, LoggingClient, LoggingFile, Os, Rule, VersionManifest};
use glyph_launcher::paths::{extension, file_name, strip_extension, Platform};
use glyph_launcher::progress::{percent, DownloadError, DownloadSession, ItemProgress, ProgressGovernor};
use glyph_launcher::registry::{RegistryError, RunningRegistry};
use glyph_launcher::runtime::{archive_path_for, assign_detected, catalog_query, console_launcher, detected_major, extract_major_version, first_package_url, get_java_path, handle_path, version_from_banner, DetectedJava, JavaConfig, JavaInfo, JavaTestInfo, RuntimeError};
use glyph_launcher::text::{decimal_string, lines, parse_u8, split_char, trim};

fn s(x: &str) -> String {
    x.to_string()
}

fn download(url: &str) -> Download {
    Download { sha1: s("0"), size: 1, url: s(url) }
}

fn library(path: &str, url: &str, rules: Option<Vec<Rule>>) -> Library {
    Library {
        downloads: LibraryDownloads { artifact: Artifact { path: s(path), sha1: s("0"), size: 1, url: s(url) } },
        name: s(path),
        rules,
    }
}

fn manifest(libraries: Vec<Library>) -> VersionManifest {
    VersionManifest {
        arguments: Arguments { game: vec![], jvm: vec![] },
        asset_index: IndexRef { id: s("17"), sha1: s("0"), size: 1, total_size: 1, url: s("https://example.org/17.json") },
        assets: s("17"),
        compliance_level: 1,
        downloads: Downloads {
            client: download("https://example.org/client.jar"),
            client_mappings: download("https://example.org/cm"),
            server: download("https://example.org/server.jar"),
            server_mappings: download("https://example.org/sm"),
        },
        id: s("1.21"),
        java_version: JavaVersion { component: s("java-runtime-delta"), major_version: 21 },
        libraries,
        logging: Logging {
            client: LoggingClient {
                argument: s("-Dlog4j"),
                file: LoggingFile { id: s("client.xml"), sha1: s("0"), size: 1, url: s("https://example.org/l") },
                log_type: s("log4j2-xml"),
            },
        },
        main_class: s("net.minecraft.client.main.Main"),
        minimum_launcher_version: 21,
        release_time: s("2024-06-13T08:24:03+00:00"),
        time: s("2024-06-13T08:24:03+00:00"),
        version_type: s("release"),
    }
}

fn settings(has_launched: bool, maximized: bool) -> Settings {
    Settings {
        has_launched,
        rich_presence: true,
        window_width: 854,
        window_height: 480,
        maximized,
        time_played: 100,
        last_played: None,
    }
}

fn instance(slug: &str, java_path: &str, has_launched: bool, maximized: bool) -> Instance {
    Instance {
        slug: s(slug),
        name: s("My World"),
        game: Game { version: s("1.21"), modloader: Modloader { loader: s("vanilla"), version: None }, url: s("https://example.org/1.21.json") },
        java: Java { path: s(java_path), args: vec![], version: 21 },
        settings: settings(has_launched, maximized),
    }
}

fn account(id: &str, active: bool) -> Account {
    Account {
        active,
        expiry: 10,
        access_token: s("token"),
        refresh_token: s("refresh"),
        profile: Profile { id: s(id), name: format!("player-{}", id), skins: vec![], capes: vec![] },
    }
}

fn views(v: &[String]) -> Vec<&str> {
    v.iter().map(|x| x.as_str()).collect()
}

#[test]
fn traversal_entry_is_refused() {
    assert_eq!(strip_entry_path("root/../../evil.txt"), Err(ExtractError::UnsafePath(s("root/../../evil.txt"))));
    let entries = vec![
        ArchiveEntry { name: s("root/bin/java"), is_dir: false, compressed_size: 5, uncompressed_size: 10 },
        ArchiveEntry { name: s("root/../../evil.txt"), is_dir: false, compressed_size: 1, uncompressed_size: 1 },
    ];
    match plan_extraction("/data/runtime/zulu21.zip", &entries) {
        Err(ExtractError::UnsafePath(n)) => assert_eq!(n, "root/../../evil.txt"),
        Ok(_) => panic!("an unsafe entry was accepted"),
    }
}

#[test]
fn extraction_plan_strips_top_level_directory() {
    let entries = vec![
        ArchiveEntry { name: s("zulu21/"), is_dir: true, compressed_size: 0, uncompressed_size: 0 },
        ArchiveEntry { name: s("zulu21/bin/java"), is_dir: false, compressed_size: 5, uncompressed_size: 10 },
        ArchiveEntry { name: s("zulu21\\lib\\rt.jar"), is_dir: false, compressed_size: 7, uncompressed_size: 20 },
    ];
    let plan = plan_extraction("/data/runtime/zulu21.zip", &entries).unwrap();
    assert_eq!(plan.output_dir, "/data/runtime/zulu21");
    assert_eq!(plan.total_size, 30);
    assert_eq!(plan.steps.len(), 3);
    assert!(plan.steps[0].is_dir);
    assert_eq!(plan.steps[1].relative, "bin/java");
    assert_eq!(plan.steps[1].target, "/data/runtime/zulu21/bin/java");
    assert_eq!(plan.steps[2].target, "/data/runtime/zulu21/lib/rt.jar");
    assert_eq!(strip_entry_path("top/./a//b"), Ok(s("a/b")));
    assert_eq!(strip_entry_path("top/a/../b"), Err(ExtractError::UnsafePath(s("top/a/../b"))));
    assert_eq!(strip_entry_path("../x"), Ok(s("x")));
}

#[test]
fn paths_and_extensions() {
    assert_eq!(strip_extension("/r/zulu17.tar.gz"), "/r/zulu17.tar");
    assert_eq!(strip_extension("/r/.hidden"), "/r/.hidden");
    assert_eq!(strip_extension("/r.d/archive"), "/r.d/archive");
    assert_eq!(extension("/a/b/lib.jar"), Some(s("jar")));
    assert_eq!(extension("/a/.jar"), None);
    assert_eq!(file_name("C:\\jdk\\bin\\java.exe"), "java.exe");
}

fn asset_manager() -> AssetManager {
    AssetManager::new("/home/u/.glyph-launcher")
}

#[test]
fn asset_manager_layout() {
    let m = asset_manager();
    assert_eq!(m.assets_dir, "/home/u/.glyph-launcher/assets");
    assert_eq!(m.indexes_dir, "/home/u/.glyph-launcher/assets/indexes");
    assert_eq!(m.objects_dir, "/home/u/.glyph-launcher/assets/objects");
    assert_eq!(m.libraries_dir, "/home/u/.glyph-launcher/libraries");
    assert_eq!(m.versions_dir, "/home/u/.glyph-launcher/versions");
    assert_eq!(m.index_path("17"), "/home/u/.glyph-launcher/assets/indexes/17.json");
}

#[test]
fn asset_objects_are_content_addressed() {
    let m = asset_manager();
    let index = AssetIndex {
        objects: vec![(s("icons/icon.png"), AssetObject { hash: s("bdf48ef6b5d0d23bbb02e17d04865216179f510a"), size: 3665 })],
    };
    let ts = m.asset_targets(&index).unwrap();
    assert_eq!(ts.len(), 1);
    assert_eq!(ts[0].path, "/home/u/.glyph-launcher/assets/objects/bd/bdf48ef6b5d0d23bbb02e17d04865216179f510a");
    assert_eq!(ts[0].url, "https://resources.download.minecraft.net/bd/bdf48ef6b5d0d23bbb02e17d04865216179f510a");
    let bad = AssetIndex { objects: vec![(s("x"), AssetObject { hash: s("a"), size: 1 })] };
    assert!(matches!(m.asset_targets(&bad), Err(AssetError::MalformedHash(h)) if h == "a"));
}

#[test]
fn libraries_follow_platform_rules() {
    let m = asset_manager();
    let osx_only = Rule { action: s("disallow"), features: None, os: Some(Os { name: Some(s("linux")), arch: None }) };
    let mf = manifest(vec![
        library("com/a/a.jar", "https://example.org/a.jar", None),
        library("com/b/b.jar", "https://example.org/b.jar", Some(vec![osx_only])),
    ]);
    let on_linux = m.library_targets(&mf, "linux", "x86_64");
    assert_eq!(on_linux.len(), 1);
    assert_eq!(on_linux[0].path, "/home/u/.glyph-launcher/libraries/com/a/a.jar");
    assert_eq!(on_linux[0].url, "https://example.org/a.jar");
    assert_eq!(m.library_targets(&mf, "windows", "x86_64").len(), 2);
    let jar = m.version_jar_target(&mf);
    assert_eq!(jar.path, "/home/u/.glyph-launcher/versions/1.21/1.21.jar");
    assert_eq!(jar.url, "https://example.org/client.jar");
}

#[test]
fn second_acquisition_run_downloads_nothing() {
    let targets = vec![
        DownloadTarget { url: s("https://example.org/one"), path: s("/data/one") },
        DownloadTarget { url: s("https://example.org/two"), path: s("/data/two") },
    ];
    let first = pending_downloads(&targets, &vec![false, true]);
    assert_eq!(first.len(), 1);
    assert_eq!(first[0].path, "/data/one");
    let second = pending_downloads(&targets, &vec![true, true]);
    assert!(second.is_empty());
    assert!(index_needs_download(false));
    assert!(!index_needs_download(true));
}

#[test]
fn end_to_end_first_launch() {
    let m = asset_manager();
    let mf = manifest(vec![library("org/l/l.jar", "https://example.org/l.jar", None)]);
    let index = AssetIndex { objects: vec![(s("sound.ogg"), AssetObject { hash: s("ab12cd"), size: 4 })] };
    let mut all: Vec<DownloadTarget> = m.asset_targets(&index).unwrap();
    all.extend(m.library_targets(&mf, "linux", "x86_64"));
    all.push(m.version_jar_target(&mf));
    let absent = vec![false; all.len()];
    let fetched = pending_downloads(&all, &absent);
    assert_eq!(fetched.len(), 3);
    assert!(index_needs_download(false));

    let mut inst = instance("my.world", "/opt/jdk/bin/java", false, false);
    let mut registry: RunningRegistry<u8> = RunningRegistry::new();
    assert_eq!(begin_launch(&mut registry, "my.world", &inst.settings), Ok(true));
    assert_eq!(complete_acquisition(&mut inst.settings, true, true, true), Ok(()));
    assert!(inst.settings.has_launched);
    assert_eq!(registry.attach("my.world", 4242, 0u8), Ok(()));
    assert_eq!(registry.pid_of("my.world"), Some(4242));
    let end = after_wait_poll(WaitObservation::Exited { success: true, code: Some(0) });
    let (stopped, result) = process_exited(&mut registry, "my.world", end);
    assert_eq!(result, Ok(()));
    assert!(registry.entries.is_empty());
    assert_eq!(stopped.slug, "my_world");
    assert_eq!(stopped.message, "Game instance stopped");
}

#[test]
fn failed_acquisition_leaves_instance_unlaunched() {
    let mut st = settings(false, false);
    assert_eq!(complete_acquisition(&mut st, true, false, true), Err(AcquisitionFailure::Libraries));
    assert!(!st.has_launched);
    assert_eq!(complete_acquisition(&mut st, false, false, false), Err(AcquisitionFailure::Assets));
    assert_eq!(complete_acquisition(&mut st, true, true, false), Err(AcquisitionFailure::VersionJar));
}

#[test]
fn second_launch_of_running_slug_is_rejected() {
    let mut registry: RunningRegistry<u8> = RunningRegistry::new();
    let st = settings(true, false);
    assert_eq!(begin_launch(&mut registry, "alpha", &st), Ok(false));
    // a second admission before the first has spawned is refused too
    assert_eq!(begin_launch(&mut registry, "alpha", &st), Err(LaunchError::AlreadyRunning(s("alpha"))));
    assert_eq!(registry.pid_of("alpha"), None);
    assert_eq!(begin_kill(&registry, "alpha"), KillStep::NotYetRunning);
    assert_eq!(registry.attach("alpha", 1, 9), Ok(()));
    assert_eq!(registry.entries[0].process, Some((1, 9)));
    assert_eq!(registry.attach("alpha", 2, 0), Err(RegistryError::NotReserved(s("alpha"))));
    assert_eq!(begin_launch(&mut registry, "alpha", &st), Err(LaunchError::AlreadyRunning(s("alpha"))));
    assert_eq!(registry.register("alpha", 2, 0), Err(RegistryError::AlreadyRunning(s("alpha"))));
    assert_eq!(registry.entries.len(), 1);
    assert_eq!(registry.pid_of("alpha"), Some(1));
    assert_eq!(begin_launch(&mut registry, "beta", &st), Ok(false));
    assert_eq!(registry.attach("gamma", 3, 0), Err(RegistryError::NotReserved(s("gamma"))));
}

#[test]
fn kill_twice_on_stopped_instance_succeeds() {
    let mut registry: RunningRegistry<u8> = RunningRegistry::new();
    assert_eq!(begin_kill(&registry, "alpha"), KillStep::AlreadyStopped);
    let (ev1, r1) = finish_kill(&mut registry, "alpha", KillResolution::AlreadyStopped);
    assert_eq!(r1, Ok(()));
    assert_eq!(ev1.message, "Instance killed by user");
    assert_eq!(begin_kill(&registry, "alpha"), KillStep::AlreadyStopped);
    let (_, r2) = finish_kill(&mut registry, "alpha", KillResolution::AlreadyStopped);
    assert_eq!(r2, Ok(()));
}

#[test]
fn kill_escalates_and_always_clears() {
    let mut registry: RunningRegistry<u8> = RunningRegistry::new();
    registry.register("a.b", 77, 0).unwrap();
    assert_eq!(begin_kill(&registry, "a.b"), KillStep::Terminate(77));
    assert_eq!(after_termination_poll(1, true), PollDecision::PollAgain);
    assert_eq!(after_termination_poll(3, false), PollDecision::Terminated);
    assert_eq!(after_termination_poll(30, true), PollDecision::ForceKill);
    let (ev, r) = finish_kill(&mut registry, "a.b", KillResolution::ForceKillFailed);
    assert_eq!(r, Err(LaunchError::ForceKillFailed(s("a.b"))));
    assert_eq!(ev.slug, "a_b");
    assert!(!registry.contains("a.b"));
}

#[test]
fn classpath_has_every_jar_and_the_client_jar() {
    let m = asset_manager();
    let mf = manifest(vec![]);
    let files = vec![
        s("/home/u/.glyph-launcher/libraries/a/a.jar"),
        s("/home/u/.glyph-launcher/libraries/b/b.jar"),
        s("/home/u/.glyph-launcher/libraries/b/README.txt"),
    ];
    let cp = construct_classpath(&m, &mf, &files, true, Platform::Linux).unwrap();
    let parts: Vec<&str> = cp.split(':').collect();
    assert_eq!(parts.len(), 3);
    assert_eq!(parts[2], "/home/u/.glyph-launcher/versions/1.21/1.21.jar");
    assert!(parts.iter().all(|p| p.starts_with('/')));
    let win = construct_classpath(&m, &mf, &files[..1].to_vec(), true, Platform::Windows).unwrap();
    assert_eq!(win, "/home/u/.glyph-launcher/libraries/a/a.jar;/home/u/.glyph-launcher/versions/1.21/1.21.jar");
    assert_eq!(
        construct_classpath(&m, &mf, &files, false, Platform::Linux),
        Err(LaunchError::MainJarMissing(s("/home/u/.glyph-launcher/versions/1.21/1.21.jar")))
    );
}

#[test]
fn stats_grow_after_session() {
    let mut st = settings(false, false);
    st.record_session(60, 1_700_000_000_000);
    assert_eq!(st.time_played, 160);
    assert_eq!(st.last_played, Some(1_700_000_000_000));
    assert!(st.has_launched);
    st.time_played = u64::MAX - 1;
    st.record_session(10, 5);
    assert_eq!(st.time_played, u64::MAX);
}

#[test]
fn unsuccessful_exit_is_reported_after_bookkeeping() {
    let mut registry: RunningRegistry<u8> = RunningRegistry::new();
    registry.register("x", 5, 0).unwrap();
    let (_, r) = process_exited(&mut registry, "x", WaitDecision::Finished { success: false, code: Some(1) });
    assert_eq!(r, Err(LaunchError::NonZeroExit(Some(1))));
    assert!(registry.entries.is_empty());
    registry.register("y", 6, 0).unwrap();
    let (_, r) = process_exited(&mut registry, "y", after_wait_poll(WaitObservation::CheckFailed));
    assert_eq!(r, Err(LaunchError::ProcessWaitFailed));
    assert!(registry.entries.is_empty());
}

#[test]
fn wait_and_kill_decisions() {
    assert_eq!(after_wait_poll(WaitObservation::StillRunning), WaitDecision::KeepWaiting);
    assert_eq!(after_wait_poll(WaitObservation::HandleCleared), WaitDecision::Finished { success: true, code: Some(0) });
    assert_eq!(after_wait_poll(WaitObservation::Exited { success: false, code: Some(3) }), WaitDecision::Finished { success: false, code: Some(3) });
    assert_eq!(kill_action(KillStep::AlreadyStopped, true), KillAction::Finish(KillResolution::AlreadyStopped));
    assert_eq!(kill_action(KillStep::Terminate(8), false), KillAction::Finish(KillResolution::AlreadyStopped));
    assert_eq!(kill_action(KillStep::Terminate(8), true), KillAction::Terminate(8));
    assert_eq!(kill_action(KillStep::NotYetRunning, true), KillAction::NotYetRunning);
}

#[test]
fn catalog_status_is_checked() {
    assert_eq!(glyph_launcher::progress::check_status(503), Err(DownloadError::HttpStatus(503)));
    assert_eq!(glyph_launcher::progress::check_status(204), Ok(()));
}

#[test]
fn game_arguments() {
    let inst = instance("w", "/opt/jdk/bin/java", true, false);
    let acc = account("uuid-1", true);
    let mf = manifest(vec![]);
    let args = prepare_game_args(&inst, "/i/w", &mf, &acc, "/a");
    assert_eq!(
        views(&args),
        vec![
            "--username", "player-uuid-1", "--version", "1.21", "--gameDir", "/i/w", "--assetsDir", "/a",
            "--assetIndex", "17", "--uuid", "uuid-1", "--accessToken", "token", "--userType", "msa",
            "--versionType", "Glyph Launcher", "--width", "854", "--height", "480"
        ]
    );
    let maxed = instance("w", "/opt/jdk/bin/java", true, true);
    assert_eq!(prepare_game_args(&maxed, "/i/w", &mf, &acc, "/a").len(), 18);
}

#[test]
fn launch_command_and_gpu() {
    let inst = instance("w", "/opt/jdk/bin/java", true, true);
    let args = vec![s("--demo")];
    let c = configure_launch_command(&inst, "/i/w", "Main", "a.jar", &args, true, Platform::Linux).unwrap();
    assert_eq!(c.program, "/opt/jdk/bin/java");
    assert_eq!(c.current_dir, "/i/w");
    assert_eq!(views(&c.args), vec!["-cp", "a.jar", "Main", "--demo"]);
    assert_eq!(c.env.len(), 4);
    assert_eq!(c.env[0], (s("DRI_PRIME"), s("1")));
    assert!(configure_launch_command(&inst, "/i/w", "Main", "a.jar", &args, true, Platform::Windows).unwrap().env.is_empty());
    let none = instance("w", "", true, true);
    assert_eq!(configure_launch_command(&none, "/i/w", "Main", "a.jar", &args, false, Platform::Linux).err(), Some(LaunchError::RuntimeNotConfigured));
    assert!(render_offload_env(Platform::Linux, false).is_empty());
    assert_eq!(gpu_preference(true), GpuPreference::Discrete);
    assert_eq!(gpu_preference_value(GpuPreference::Integrated), "GpuPreference=1;");
    assert_eq!(gpu_preference_value(GpuPreference::Discrete), "GpuPreference=2;");
    assert_eq!(gpu_registry_name("C:/jdk/bin/javaw.exe"), "C:\\jdk\\bin\\javaw.exe");
    assert_eq!(formatted_slug("1.21.1"), "1_21_1");
}

#[test]
fn download_session_checks_and_reports() {
    assert_eq!(DownloadSession::start(404, Some(10), 0).err(), Some(DownloadError::HttpStatus(404)));
    assert_eq!(DownloadSession::start(200, None, 0).err(), Some(DownloadError::SizeUnknown));
    let mut d = DownloadSession::start(200, Some(1000), 0).unwrap();
    assert_eq!(d.on_chunk(100, 10), None);
    assert_eq!(d.on_chunk(150, 260), Some(25));
    assert_eq!(d.on_chunk(100, 300), None);
    assert_eq!(d.on_chunk(650, 600), Some(100));
    assert_eq!(d.received, 1000);
    assert_eq!(d.finish(), 100);
    assert_eq!(percent(1, 3), 33);
    assert_eq!(percent(5, 0), 100);
    let mut items = ItemProgress::new(4, 0);
    assert_eq!(items.item_done(300), Some(25));
    assert_eq!(items.item_done(400), None);
    let mut g = ProgressGovernor::new(1000);
    assert!(!g.tick(1249));
    assert!(g.tick(1250));
    assert!(!g.tick(1400));
}

#[test]
fn major_versions() {
    assert_eq!(extract_major_version("1.8.0_392"), Some(8));
    assert_eq!(extract_major_version("17.0.9"), Some(17));
    assert_eq!(extract_major_version("21"), Some(21));
    assert_eq!(extract_major_version("1"), Some(1));
    assert_eq!(extract_major_version("300.1"), None);
    assert_eq!(extract_major_version("abc"), None);
    assert_eq!(parse_u8("+7"), Some(7));
    assert_eq!(parse_u8("255"), Some(255));
    assert_eq!(parse_u8("256"), None);
    assert_eq!(parse_u8(""), None);
    assert_eq!(parse_u8("+"), None);
}

#[test]
fn settings_dump_is_read() {
    let out = "Property settings:\r\n    java.vendor = Azul Systems, Inc.\n    java.version = 17.0.9\n";
    let info = JavaTestInfo::from_settings_output(out, 17);
    assert!(info.valid);
    assert_eq!(info.version, 17);
    assert_eq!(info.vendor, "Azul Systems, Inc.");
    assert!(!info.version_mismatch);
    let other = JavaTestInfo::from_settings_output("java.version = 1.8.0_392\n", 21);
    assert!(!other.valid);
    assert_eq!(other.version, 8);
    assert!(other.version_mismatch);
    assert_eq!(other.expected_version, 21);
    let unset = JavaTestInfo::not_configured(8);
    assert!(!unset.valid);
    assert_eq!(unset.expected_version, 8);
}

#[test]
fn detection() {
    let banner = "openjdk version \"17.0.9\" 2023-10-17\nOpenJDK Runtime Environment\n";
    assert_eq!(version_from_banner(banner), Some(s("17.0.9")));
    assert_eq!(version_from_banner("no quotes here\n"), None);
    assert_eq!(detected_major("1.8.0_392"), Some(8));
    assert_eq!(detected_major("21.0.1"), Some(21));
    assert_eq!(detected_major("11.0.2"), None);
    assert_eq!(detected_major("80"), None);
    assert_eq!(detected_major("170.1"), None);
    assert_eq!(detected_major("8"), Some(8));
    let found = vec![
        DetectedJava { path: s("/usr/bin/java"), version: s("17.0.9") },
        DetectedJava { path: s("/opt/j8/bin/java"), version: s("1.8.0_392") },
        DetectedJava { path: s("/opt/j17/bin/java"), version: s("17.0.1") },
    ];
    let (j8, j17, j21) = assign_detected(&found);
    assert_eq!(j8, Some(s("/opt/j8/bin/java")));
    assert_eq!(j17, Some(s("/usr/bin/java")));
    assert_eq!(j21, None);
}

#[test]
fn runtime_paths() {
    assert_eq!(get_java_path("C:\\zulu21", true, Platform::Windows), "C:\\zulu21/bin/javaw.exe");
    assert_eq!(get_java_path("/opt/zulu21", true, Platform::Linux), "/opt/zulu21/bin/java");
    assert_eq!(get_java_path("C:\\x\\java.exe", false, Platform::Windows), "C:\\x\\java.exe");
    assert_eq!(handle_path("C:\\x\\java.exe", Platform::Windows), "C:\\x\\javaw.exe");
    assert_eq!(handle_path("/x/java.exe", Platform::Linux), "/x/java.exe");
    assert_eq!(console_launcher("C:\\x\\javaw.exe"), "C:\\x\\java.exe");
}

#[test]
fn catalog() {
    let q = catalog_query(17, "linux", "x86_64").unwrap();
    assert_eq!(q.len(), 9);
    assert_eq!(q[0], (s("java_version"), s("17")));
    assert_eq!(q[2], (s("arch"), s("amd64")));
    assert_eq!(catalog_query(8, "freebsd", "x86_64"), Err(RuntimeError::UnsupportedOs(s("freebsd"))));
    assert_eq!(catalog_query(8, "linux", "riscv64"), Err(RuntimeError::UnsupportedArch(s("riscv64"))));
    assert_eq!(first_package_url(&vec![], 21), Err(RuntimeError::NoPackage(21)));
    let pkg = JavaInfo {
        availability_type: s("CA"),
        distro_version: vec![21],
        download_url: s("https://cdn.example.org/zulu/zulu21-linux_x64.zip"),
        java_version: vec![21],
        latest: true,
        name: s("zulu21"),
        openjdk_build_number: 1,
        package_uuid: s("x"),
        product: s("zulu"),
    };
    let url = first_package_url(&vec![pkg], 21).unwrap();
    assert_eq!(archive_path_for("/r", &url), "/r/zulu21-linux_x64.zip");
}

#[test]
fn accounts_switch_and_delete() {
    let mut accs = vec![account("a", true), account("b", false)];
    assert_eq!(switch_account(&mut accs, "b"), Ok(()));
    assert!(!accs[0].active && accs[1].active);
    assert_eq!(switch_account(&mut accs, "zz"), Err(AccountError::NotFound(s("zz"))));
    assert!(accs[1].active);
    delete_account(&mut accs, "b");
    assert_eq!(accs.len(), 1);
    assert!(accs[0].active);
    assert_eq!(get_active_account(&accs).map(|a| a.profile.id.clone()), Some(s("a")));
    delete_account(&mut accs, "a");
    assert!(accs.is_empty());
    assert!(get_active_account(&accs).is_none());
}

#[test]
fn signing_in_replaces_placeholder() {
    let mut accs = vec![Account::default(), account("a", true)];
    add_signed_in_account(&mut accs, account("n", true));
    assert_eq!(accs.len(), 2);
    assert!(!accs[0].active);
    assert_eq!(accs[1].profile.id, "n");
    let mut empty: Vec<Account> = vec![];
    add_signed_in_account(&mut empty, account("n", true));
    assert_eq!(empty.len(), 1);
    let mut r = vec![account("a", false), account("b", true)];
    replace_refreshed_account(&mut r, account("a", false));
    assert_eq!(r[0].profile.id, "b");
    assert_eq!(r[1].profile.id, "a");
    assert!(needs_refresh(5, 5));
    assert!(!needs_refresh(6, 5));
    assert!(!has_accounts_to_refresh(&vec![Account::default()]));
    assert!(has_accounts_to_refresh(&vec![account("a", true)]));
}

#[test]
fn configuration_document() {
    let mut c = create_default_config_file();
    assert_eq!(c.accounts.len(), 1);
    assert!(c.rich_presence && c.use_discrete_gpu && !c.completed_onboarding);
    set_onboarding_complete(&mut c);
    assert!(c.completed_onboarding);
    update_launcher_settings(&mut c, &LauncherSettings { rich_presence: false, use_discrete_gpu: false });
    assert!(!c.rich_presence && !c.use_discrete_gpu);
    save_java_to_config(&mut c, ("/r/8", "/r/17", "/r/21"), true, Platform::Linux);
    assert_eq!(c.java.java_17_path, "/r/17/bin/java");
    assert_eq!(get_instances_path("/cfg"), "/cfg/instances");
    let j = JavaConfig::default();
    assert!(j.java_8_path.is_empty());
}

#[test]
fn instance_registry() {
    let mut cfg = InstanceConfig { instances: vec![instance("a", "", false, false)] };
    let jc = JavaConfig { java_8_path: s("/j8"), java_17_path: s("/j17"), java_21_path: s("/j21") };
    assert_eq!(cfg.add_instance(instance("b", "", false, false), &jc, 17), Ok(()));
    assert_eq!(cfg.instances[1].java.path, "/j17");
    assert_eq!(cfg.add_instance(instance("c", "", false, false), &jc, 11), Err(InstanceError::UnsupportedJava(11)));
    assert_eq!(cfg.instances.len(), 2);
    let mut changed = instance("b", "/other", true, false);
    changed.name = s("renamed");
    cfg.update_instance(changed);
    assert_eq!(cfg.get_instance("b").map(|i| i.name.clone()), Some(s("renamed")));
    cfg.delete_instance("a");
    assert_eq!(cfg.instances.len(), 1);
    assert!(cfg.get_instance("a").is_none());
    assert_eq!(java_for_version(&jc, 8).map(|j| j.version), Ok(8));
}

#[test]
fn text_helpers() {
    assert_eq!(decimal_string(0), "0");
    assert_eq!(decimal_string(1920), "1920");
    assert_eq!(trim("\t java.vendor = X \r"), "java.vendor = X");
    assert_eq!(views(&lines("a\r\nb\n\nc\r")), vec!["a", "b", "", "c\r"]);
    assert_eq!(views(&split_char("a.b..c", '.')), vec!["a", "b", "", "c"]);
}

#[test]
fn presence_and_events() {
    let inst = instance("a.b", "/j", true, false);
    let (d, st) = glyph_launcher::launch::playing_activity(&inst);
    assert_eq!(d, "Playing My World");
    assert_eq!(st, "Version: 1.21");
    let (d, st) = glyph_launcher::launch::idle_activity();
    assert_eq!((d.as_str(), st.as_str()), ("Exploring the Launcher", "Idle"));
    let started = glyph_launcher::launch::instance_started("a.b");
    assert_eq!(started.slug, "a_b");
    assert_eq!(started.message, "Game instance started");
    let line = glyph_launcher::launch::log_line("a.b", "  [Render] ready \r").unwrap();
    assert_eq!(line.line, "[Render] ready");
    assert!(glyph_launcher::launch::log_line("a.b", " \t ").is_none());
}

#[test]
fn directories() {
    assert_eq!(glyph_launcher::config::get_config_path("/c"), "/c/config.json");
    assert_eq!(glyph_launcher::config::get_instance_config_path("/c"), "/c/instances.json");
    assert_eq!(glyph_launcher::config::instance_dir("/c", "w"), "/c/instances/w");
    match glyph_launcher::config::get_config_dir(false) {
        Ok(d) => assert!(d.ends_with("/.glyph-launcher") && d.len() > "/.glyph-launcher".len()),
        Err(e) => assert_eq!(e, glyph_launcher::config::ConfigError::NoConfigDir),
    }
    if let Ok(d) = glyph_launcher::config::get_config_dir(true) {
        assert!(d.ends_with("/.glyph-launcher-dev"));
    }
    let c = create_default_config_file();
    let ls = glyph_launcher::config::get_launcher_settings(&c);
    assert!(ls.rich_presence && ls.use_discrete_gpu);
    assert!(glyph_launcher::config::get_java_from_config(&c).java_21_path.is_empty());
}

#[test]
fn account_helpers() {
    let accs = vec![Account::default(), account("a", false), account("b", true)];
    assert_eq!(glyph_launcher::accounts::signed_in_indices(&accs), vec![1, 2]);
    assert_eq!(glyph_launcher::accounts::expiry_after(100, 3600), 3700);
    assert_eq!(glyph_launcher::accounts::expiry_after(u64::MAX, 1), u64::MAX);
    let resp = glyph_launcher::accounts::MinecraftProfileResponse { id: s("i"), name: s("n"), skins: vec![], capes: vec![] };
    let p = resp.into_profile();
    assert_eq!((p.id.as_str(), p.name.as_str()), ("i", "n"));
    assert!(Account::default().placeholder());
    assert!(!account("a", false).placeholder());
}

#[test]
fn extract_request_counts() {
    assert_eq!(glyph_launcher::runtime::check_extract_request(3, 3), Ok(()));
    assert_eq!(glyph_launcher::runtime::check_extract_request(2, 3), Err(RuntimeError::CountMismatch));
}

#[test]
fn kill_commands() {
    let (p, a) = glyph_launcher::launch::force_kill_command(Platform::Windows, 4321);
    assert_eq!(p, "taskkill");
    assert_eq!(views(&a), vec!["/F", "/PID", "4321"]);
    let (p, a) = glyph_launcher::launch::force_kill_command(Platform::Linux, 7);
    assert_eq!(p, "kill");
    assert_eq!(views(&a), vec!["-9", "7"]);
    assert!(glyph_launcher::launch::listing_names_pid("\"java.exe\",\"4321\",\"Console\"", 4321));
    assert!(!glyph_launcher::launch::listing_names_pid("INFO: No tasks are running", 4321));
}

#[test]
fn rule_os_names() {
    assert_eq!(glyph_launcher::manifest::rule_os_name(Platform::MacOs), "osx");
    assert_eq!(glyph_launcher::manifest::rule_os_name(Platform::Windows), "windows");
    assert_eq!(glyph_launcher::manifest::rule_os_name(Platform::Linux), "linux");
}

#[test]
fn login_cancellation() {
    let h = LoginHandle::new();
    let shared = h.clone();
    assert!(!shared.is_cancelled());
    h.cancel();
    assert!(shared.is_cancelled());
    assert_eq!(login_poll_step(true, true), LoginPoll::Cancelled);
    assert_eq!(login_poll_step(false, true), LoginPoll::Received);
    assert_eq!(login_poll_step(false, false), LoginPoll::Wait);
}

#[test]
fn launch_needs_an_active_account() {
    let accs = vec![account("a", false), account("b", true), account("c", true)];
    assert_eq!(glyph_launcher::launch::launch_account(&accs).map(|a| a.profile.id.clone()), Ok(s("b")));
    let none = vec![account("a", false)];
    assert_eq!(glyph_launcher::launch::launch_account(&none).err(), Some(LaunchError::NoActiveAccount));
}
