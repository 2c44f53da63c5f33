use rusk::path::{HostArch, HostOs};
use rusk::sdkmgr::{
    archive_url, avd_created, avd_environment, compare_digest, completion_marker, component_archive, create_avd_args, download_path, ensure_components, ensure_emulator_components, host_os_tag, launch_avd_args, list_avds, next_install_step, packages_in, parse_packages, pick_archive, sdk_root, strip_archive_root, system_image_path, verify_archive, ArchiveInfo, BuildComponents, EmulatorStatus, InstallStep, PackageInfo, SdkMgrError,
};
use rusk::xml::{read_events, XmlEvent, XmlTag};

const XML: &str = r#"<?xml version="1.0"?>
<sdk-repository>
  <remotePackage path="platform-tools"><display-name>x</display-name><archives>
    <archive><complete><size>1</size><checksum type="SHA1">aa</checksum><url>pt-linux.zip</url></complete><host-os>linux</host-os></archive>
    <archive><complete><checksum type="sha1">bb</checksum><url>pt-win.zip</url></complete><host-os>windows</host-os></archive>
  </archives></remotePackage>
  <remotePackage path="other"><archives><archive><url>no.zip</url></archive></archives></remotePackage>
  <remotePackage path="platforms;android-34"><archives>
    <archive><complete><checksum type="sha256">zz</checksum><url>p34.zip</url></complete></archive>
  </archives></remotePackage>
</sdk-repository>"#;

fn wanted(v: &[&str]) -> Vec<String> {
    v.iter().map(|s| s.to_string()).collect()
}

#[test]
fn wanted_packages_are_found() {
    let found = parse_packages(XML, &wanted(&["platforms;android-34", "platform-tools", "missing"]));
    let keys: Vec<&str> = found.entries().iter().map(|e| e.0.as_str()).collect();
    assert_eq!(keys, ["platform-tools", "platforms;android-34"]);
    let pt = found.get("platform-tools").unwrap();
    assert_eq!(pt.archives.len(), 2);
    assert_eq!(pt.archives[0].url, "pt-linux.zip");
    assert_eq!(pt.archives[0].sha1, "aa");
    assert_eq!(pt.archives[0].host_os.as_deref(), Some("linux"));
    assert_eq!(pt.archives[1].sha1, "bb");
    let p34 = found.get("platforms;android-34").unwrap();
    assert_eq!(p34.archives[0].sha1, "");
    assert!(p34.archives[0].host_os.is_none());
}

#[test]
fn both_ways_to_read_a_repository_agree() {
    let w = wanted(&["platform-tools", "other"]);
    let a = parse_packages(XML, &w);
    let b = packages_in(&read_events(XML), &w);
    assert_eq!(format!("{a:?}"), format!("{b:?}"));
}

#[test]
fn an_archive_among_events() {
    let tag = |n: &str, k: &str, v: &str| {
        XmlEvent::Start(XmlTag { name: n.to_string(), attributes: vec![(k.to_string(), v.to_string())] })
    };
    let end = |n: &str| XmlEvent::End(n.to_string());
    let text = |t: &str| XmlEvent::Text(t.to_string());
    let events = vec![
        tag("remotePackage", "path", "emulator"),
        tag("archive", "x", "y"),
        tag("checksum", "type", "sha1"),
        text("d1"),
        end("checksum"),
        tag("url", "x", "y"),
        text("e.zip"),
        end("url"),
        end("archive"),
        end("remotePackage"),
    ];
    let found = packages_in(&events, &wanted(&["emulator"]));
    let a = &found.get("emulator").unwrap().archives[0];
    assert_eq!((a.url.as_str(), a.sha1.as_str()), ("e.zip", "d1"));
}

fn archive(host: Option<&str>, url: &str, sha1: &str) -> ArchiveInfo {
    ArchiveInfo { host_os: host.map(|s| s.to_string()), url: url.to_string(), sha1: sha1.to_string() }
}

#[test]
fn the_archive_for_the_host_is_preferred() {
    let pkg = PackageInfo {
        archives: vec![archive(None, "any", ""), archive(Some("macosx"), "mac", ""), archive(Some("linux"), "lin", "")],
    };
    assert_eq!(pick_archive(&pkg, "p", HostOs::Linux).unwrap().url, "lin");
    assert_eq!(pick_archive(&pkg, "p", HostOs::MacOs).unwrap().url, "mac");
    assert_eq!(pick_archive(&pkg, "p", HostOs::Windows).unwrap().url, "any");
    let pkg = PackageInfo { archives: vec![archive(Some("windows"), "w", "")] };
    let e = pick_archive(&pkg, "p", HostOs::Linux).unwrap_err();
    assert_eq!(
        e.message(),
        "package \"p\" is not listed in Google's repository manifest for this host OS"
    );
    assert_eq!(host_os_tag(HostOs::Other), "linux");
}

#[test]
fn the_archive_of_a_component() {
    let found = parse_packages(XML, &wanted(&["platform-tools"]));
    let a = component_archive(&found, "platform-tools", HostOs::Windows).unwrap();
    assert_eq!(archive_url(a), "https://dl.google.com/android/repository/pt-win.zip");
    let e = component_archive(&found, "emulator", HostOs::Windows).unwrap_err();
    assert!(matches!(e, SdkMgrError::PackageNotFound(p) if p == "emulator"));
    let e = component_archive(&found, "platform-tools", HostOs::MacOs).unwrap_err();
    assert!(matches!(e, SdkMgrError::PackageNotFound(p) if p == "platform-tools"));
}

#[test]
fn downloads_are_verified() {
    // SHA-1 of "abc".
    let sha1 = "A9993E364706816ABA3E25717850C26C9CD0D89D";
    assert!(verify_archive(&archive(None, "u", sha1), "x", b"abc").is_ok());
    let e = verify_archive(&archive(None, "u", ""), "x", b"abd").unwrap_err();
    assert!(matches!(e, SdkMgrError::ChecksumMismatch { expected, .. } if expected.is_empty()));
    let e = verify_archive(&archive(None, "u", sha1), "x", b"abd").unwrap_err();
    assert_eq!(
        e.message(),
        "checksum mismatch downloading \"x\": expected A9993E364706816ABA3E25717850C26C9CD0D89D, got cb4cc28df0fdbe0ecf9d9662e294b118092a5735"
    );
    assert!(compare_digest(&archive(None, "u", "aB"), "x", "Ab".to_string()).is_ok());
    assert!(compare_digest(&archive(None, "u", "aB"), "x", "Ac".to_string()).is_err());
}

#[test]
fn archives_lose_their_root() {
    assert_eq!(strip_archive_root("android-14/lib/x"), Some("lib/x".to_string()));
    assert_eq!(strip_archive_root("android-14/"), None);
    assert_eq!(strip_archive_root("readme"), None);
    assert_eq!(strip_archive_root("/x"), Some("x".to_string()));
}

#[test]
fn nothing_is_installed_where_nothing_is_missing() {
    let all = BuildComponents { build_tools: true, platform: true, platform_tools: true };
    let (plan, sdk) = ensure_components(HostOs::Linux, "/h/.rusk/android-sdk", "34.0.0", 34, all);
    assert!(plan.wanted.is_empty() && plan.installs.is_empty());
    assert_eq!(sdk.build_tools, "/h/.rusk/android-sdk/build-tools/34.0.0");
    assert_eq!(sdk.platform_jar, "/h/.rusk/android-sdk/platforms/android-34/android.jar");
    assert_eq!(sdk.platform_tools_dir, "/h/.rusk/android-sdk/platform-tools");
    assert_eq!(sdk.build_tools(HostOs::Linux).d8, "/h/.rusk/android-sdk/build-tools/34.0.0/d8");
    let t = sdk.build_tools(HostOs::Windows);
    assert!(t.aapt2.ends_with("\\aapt2.exe") && t.apksigner.ends_with("\\apksigner.bat"));
    assert_eq!(completion_marker(HostOs::Linux, &sdk.build_tools), "/h/.rusk/android-sdk/build-tools/34.0.0/.rusk-complete");
}

#[test]
fn missing_components_are_installed() {
    let none = BuildComponents { build_tools: false, platform: false, platform_tools: false };
    let (plan, _) = ensure_components(HostOs::Linux, "/s", "34.0.0", 33, none);
    assert_eq!(plan.wanted, ["build-tools;34.0.0", "platforms;android-33", "platform-tools"]);
    let installs: Vec<&str> = plan.installs.iter().map(|c| c.package.as_str()).collect();
    assert_eq!(installs, ["platform-tools", "build-tools;34.0.0", "platforms;android-33"]);
    assert_eq!(plan.installs[1].label, "build-tools 34.0.0");
    assert_eq!(plan.installs[2].label, "platform android-33");
    let some = BuildComponents { build_tools: true, platform: false, platform_tools: true };
    let (plan, _) = ensure_components(HostOs::Linux, "/s", "34.0.0", 33, some);
    assert_eq!(plan.wanted, ["platforms;android-33"]);
    assert_eq!(plan.installs[0].dir, "/s/platforms/android-33");
}

#[test]
fn emulator_components() {
    let none = EmulatorStatus { cmdline_tools: false, emulator: false, system_image: false };
    let (plan, e) = ensure_emulator_components(HostOs::Linux, HostArch::Arm64, "/s", 34, none);
    assert_eq!(plan.wanted, ["cmdline-tools;latest", "emulator", "system-images;android-34;google_apis;arm64-v8a"]);
    assert_eq!(plan.installs[2].label, "system-image android-34 (google_apis)");
    assert_eq!(e.system_image_dir, "/s/system-images/android-34/google_apis/arm64-v8a");
    assert_eq!(e.avdmanager, "/s/cmdline-tools/latest/bin/avdmanager");
    assert_eq!(e.emulator_bin, "/s/emulator/emulator");
    assert_eq!(system_image_path(HostArch::Other, 30), "system-images;android-30;google_apis;x86_64");
}

#[test]
fn the_root_of_the_sdk() {
    assert_eq!(sdk_root(HostOs::Linux, Some("/h")).unwrap(), "/h/.rusk/android-sdk");
    let e = sdk_root(HostOs::Linux, None).unwrap_err();
    assert_eq!(e.message(), "could not determine a home/cache directory for this user");
}

#[test]
fn virtual_devices() {
    let names = wanted(&["b.ini", "b.avd", "a.ini", ".ini", "x.INI"]);
    assert_eq!(list_avds(&names), ["", "a", "b"]);
    assert_eq!(
        create_avd_args(HostArch::Other, "dev", 34),
        ["create", "avd", "--name", "dev", "--package", "system-images;android-34;google_apis;x86_64", "--force"]
    );
    assert_eq!(launch_avd_args("dev"), ["-avd", "dev", "-netdelay", "none", "-netspeed", "full"]);
    assert_eq!(avd_environment(HostOs::Linux, "/s")[0].1, "/s/avd");
    assert!(avd_created("dev", true, Some(0)).is_ok());
    let e = avd_created("dev", false, Some(2)).unwrap_err();
    assert!(matches!(e, SdkMgrError::PackageNotFound(w) if w == "avdmanager exited with status Some(2) creating AVD \"dev\""));
}

#[test]
fn a_component_is_marked_last() {
    assert_eq!(download_path(HostOs::Linux, "/sdk/emulator"), "/sdk/emulator/download.zip");
    let mut step = InstallStep::CreateDir;
    let mut seen = vec![step];
    while step != InstallStep::Done {
        step = next_install_step(step, true).unwrap();
        seen.push(step);
    }
    assert_eq!(
        seen,
        [
            InstallStep::CreateDir,
            InstallStep::Download,
            InstallStep::Verify,
            InstallStep::Unpack,
            InstallStep::RemoveArchive,
            InstallStep::Mark,
            InstallStep::Done,
        ]
    );
}

#[test]
fn a_failed_step_ends_the_installation() {
    for step in [InstallStep::CreateDir, InstallStep::Download, InstallStep::Verify, InstallStep::Unpack, InstallStep::Mark] {
        assert!(next_install_step(step, false).is_none());
    }
    assert_eq!(next_install_step(InstallStep::RemoveArchive, false), Some(InstallStep::Mark));
}

#[test]
fn the_order_of_a_listing_does_not_matter() {
    let a = vec!["b.avd".to_string(), "a.avd".to_string(), "x.ini".to_string()];
    let b = vec!["x.ini".to_string(), "a.avd".to_string(), "b.avd".to_string()];
    assert_eq!(list_avds(&a), list_avds(&b));
}
