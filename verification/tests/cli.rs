use rusk::androidgen::{generate_build_rs, generate_lib_rs, generate_lib_rs_with_render, RenderCratePathsForCargoToml};
use rusk::bundle::bundletool_version_for;
use rusk::cli::{
    adb_in_sdk, clean_dirs, install_args, launch_args, locate_adb, locate_render_crates, lock_note, logcat_args, multiple_devices_warning, new_app_id, new_avd_name, new_project_files, new_project_notes, parse_devices, project_notes, sanitize_ident, target_notes, tool_note, tool_runs_note, typed_line, uninstall_args, Level, SdkCandidate,
};
use rusk::manifest::{
    is_valid_app_id, AbiSection, AppSection, BundleSection, DependenciesSection, LintSection, NdkSection,
    PackageSection, PermissionsSection, RuskManifest, SdkToolsSection,
};
use rusk::path::HostOs;

fn demo() -> RuskManifest {
    RuskManifest {
        package: PackageSection {
            name: "demo".to_string(),
            id: "com.rusk.demo".to_string(),
            version: "0.1.0".to_string(),
            entry: "src/main.rs".to_string(),
            sdk_min: 24,
            sdk_target: 34,
            sdk_compile: 34,
        },
        app: AppSection::default(),
        abi: AbiSection { targets: vec!["x86".to_string(), "mips".to_string()] },
        permissions: PermissionsSection::default(),
        dependencies: DependenciesSection::default(),
        ndk: NdkSection::default(),
        sdk: SdkToolsSection::default(),
        signing: None,
        flavor: vec![],
        bundle: None,
        proguard: None,
        lint: LintSection::default(),
    }
}

#[test]
fn ids_of_fresh_projects() {
    assert_eq!(sanitize_ident("My-App 2é"), "my_app_2_");
    assert_eq!(new_app_id("My-App", None), "com.rusk.my_app");
    assert!(is_valid_app_id(&new_app_id("My-App", None)));
    assert!(!is_valid_app_id(&new_app_id("2048", None)));
    assert_eq!(new_app_id("x", Some("org.me.x".to_string())), "org.me.x");
}

#[test]
fn files_of_a_fresh_project() {
    let files = new_project_files("demo", &demo(), true, &None);
    let names: Vec<&str> = files.iter().map(|f| f.0.as_str()).collect();
    assert_eq!(names, ["Cargo.toml", "src/main.rs", "src/lib.rs", "build.rs", ".gitignore"]);
    assert_eq!(files[2].1, generate_lib_rs(&demo(), true));
    assert_eq!(files[3].1, generate_build_rs());
    assert_eq!(files[4].1, "/target\nRusk.downloadcache\n*.tmp-write\n");
    let paths = RenderCratePathsForCargoToml { render: "/r".to_string(), ndk_sys: "/n".to_string() };
    let files = new_project_files("demo", &demo(), false, &Some(paths));
    assert_eq!(files.len(), 4);
    assert!(files[0].1.contains("rusk-render = { path = \"/r\" }"));
    assert_eq!(files[2].1, generate_lib_rs_with_render(&demo()));
}

#[test]
fn the_checkout_is_among_six_directories() {
    let no = || SdkCandidate { cargo_toml: None, has_crates: true };
    let yes = || SdkCandidate { cargo_toml: Some("[workspace]\nmembers = [\"crates/rusk-render\"]".to_string()), has_crates: true };
    let half = || SdkCandidate { cargo_toml: Some("rusk-render".to_string()), has_crates: true };
    let bare = || SdkCandidate { cargo_toml: yes().cargo_toml, has_crates: false };
    assert_eq!(locate_render_crates(&vec![no(), half(), bare(), yes(), yes()]), Some(3));
    assert_eq!(locate_render_crates(&vec![no(), no(), no(), no(), no(), yes()]), Some(5));
    assert_eq!(locate_render_crates(&vec![no(), no(), no(), no(), no(), no(), yes()]), None);
    assert_eq!(locate_render_crates(&vec![]), None);
}

#[test]
fn adb_is_located() {
    let s = |x: &str| Some(x.to_string());
    assert_eq!(locate_adb(s("m"), true, s("o"), true, s("p")), s("m"));
    assert_eq!(locate_adb(s("m"), false, s("o"), true, s("p")), s("o"));
    assert_eq!(locate_adb(None, true, s("o"), false, s("p")), s("p"));
    assert_eq!(locate_adb(None, false, None, true, None), None);
    assert_eq!(adb_in_sdk(HostOs::Windows, "C:\\s"), "C:\\s\\platform-tools\\adb.exe");
}

const DEVICES: &str = "List of devices attached\nemulator-5554\tdevice\nabc123          device usb:1-1 model:Pixel\nxyz\tunauthorized\nlonely\n\n";

#[test]
fn devices_are_listed() {
    let d = parse_devices(DEVICES);
    assert_eq!(d.len(), 3);
    assert_eq!(d[0], ("emulator-5554".to_string(), "device".to_string()));
    assert_eq!(d[1], ("abc123".to_string(), "device usb:1-1 model:Pixel".to_string()));
    assert!(parse_devices("List of devices attached\n").is_empty());
    assert!(parse_devices("").is_empty());
}

#[test]
fn several_devices_give_a_warning() {
    assert_eq!(multiple_devices_warning(DEVICES), None);
    let two = "List of devices attached\na\tdevice\nb\tdevice product:x\nc\toffline\n";
    assert_eq!(
        multiple_devices_warning(two).unwrap(),
        "2 devices/emulators attached — run `rusk devices` to see them, then pass --device <serial> if `adb install` fails with an ambiguity error"
    );
    assert_eq!(multiple_devices_warning(""), None);
}

#[test]
fn arguments_of_adb() {
    let dev = Some("e".to_string());
    assert_eq!(install_args(&dev, "a.apk"), ["-s", "e", "install", "-r", "a.apk"]);
    assert_eq!(launch_args(&None, "com.x"), ["shell", "am", "start", "-n", "com.x/android.app.NativeActivity"]);
    assert_eq!(uninstall_args(&None, "com.x"), ["uninstall", "com.x"]);
    assert_eq!(logcat_args(&dev, Some("12\n")), (vec!["-s", "e", "logcat", "--pid", "12"].iter().map(|s| s.to_string()).collect(), false));
    assert_eq!(logcat_args(&None, Some("\n")), (vec!["logcat".to_string()], true));
    assert_eq!(logcat_args(&None, Some("")), (vec!["logcat".to_string()], true));
    assert_eq!(logcat_args(&None, None), (vec!["logcat".to_string()], true));
}

#[test]
fn the_doctor_speaks() {
    let n = tool_note("cargo", Some("/bin/cargo"), true);
    assert_eq!((n.level, n.text.as_str()), (Level::Info, "cargo: found at /bin/cargo"));
    let n = tool_note("cargo", Some("/bin/cargo"), false);
    assert_eq!((n.level, n.text.as_str()), (Level::Warn, "cargo: found at /bin/cargo but did not respond as expected"));
    assert_eq!(tool_note("cargo", None, true).text, "cargo: not found on PATH");
    let t = target_notes("aarch64-linux-android\nx86_64-unknown-linux-gnu\n");
    assert_eq!(t.len(), 4);
    assert_eq!(t[0], "rustup target aarch64-linux-android: installed");
    assert!(t[3].starts_with("rustup target i686-linux-android: not installed yet"));
    let p = project_notes(&demo());
    assert_eq!(p[0].text, "Rusk.toml OK — package id com.rusk.demo");
    assert_eq!((p[1].level, p[1].text.as_str()), (Level::Info, "  ABI x86: supported"));
    assert_eq!((p[2].level, p[2].text.as_str()), (Level::Warn, "  ABI mips: unknown"));
}

#[test]
fn small_decisions() {
    assert_eq!(new_avd_name(None, 34), "rusk-34");
    assert_eq!(new_avd_name(Some("x".to_string()), 34), "x");
    assert_eq!(clean_dirs(HostOs::Linux, "/p"), ["/p/target/rusk-staging", "/p/target/rusk-out"]);
    assert_eq!(tool_runs_note("cargo-build", 3, 0).text, "  cargo-build: 3 succeeded");
    let n = tool_runs_note("cargo-build", 3, 1);
    assert_eq!((n.level, n.text.as_str()), (Level::Warn, "  cargo-build: 3 succeeded, 1 failed"));
    assert_eq!(typed_line(" Acme \r\n"), "Acme");
    let mut m = demo();
    assert_eq!(bundletool_version_for(&m), "1.17.1");
    m.bundle = Some(BundleSection { bundletool_version: None });
    assert_eq!(bundletool_version_for(&m), "1.17.1");
    m.bundle = Some(BundleSection { bundletool_version: Some("1.15.6".to_string()) });
    assert_eq!(bundletool_version_for(&m), "1.15.6");
}

#[test]
fn what_is_said_of_a_fresh_project() {
    let notes = new_project_notes("demo", true, false);
    assert_eq!(notes.len(), 7);
    assert_eq!(notes[0], "created demo/");
    assert_eq!(notes[1], "  demo/Rusk.toml   — project + Android descriptor");
    assert_eq!(notes[2], "  demo/Cargo.toml  — normal cargo manifest");
    assert_eq!(notes[3], "  demo/src/lib.rs  — android_main entry point");
    assert!(notes[4].starts_with("  demo/build.rs   — binds the real NDK headers"));
    assert!(notes[5].starts_with("  note: the default onCreate is intentionally empty"));
    assert_eq!(notes[6], "next: cd into the project and run `rusk build`");
    let render = new_project_notes("demo", false, true);
    assert_eq!(render.len(), 6);
    assert!(render[4].starts_with("  wired up with rusk-render"));
}

#[test]
fn what_is_said_of_a_lock_file() {
    assert_eq!(
        lock_note("27.0.12077973", "34.0.0", 34, 2),
        "Rusk.lock: NDK 27.0.12077973, build-tools 34.0.0, platform android-34, 2 Java dep(s)"
    );
}
