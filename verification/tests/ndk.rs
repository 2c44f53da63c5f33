use rusk::ndk::{
    build_tool_names, compare_checksum, ensure_ndk, host_download_tag, host_prebuilt_tag, known_releases,
    locate_build_tools, ndk_location, select_release, verify_checksum, ChecksumStatus, NdkError, NdkHome,
};
use rusk::path::HostOs;

#[test]
fn the_newest_release_is_the_default() {
    assert_eq!(select_release(None).unwrap().version, "27.0.12077973");
    assert_eq!(select_release(Some("26.3.11579264")).unwrap().tag, "r26d");
    let e = select_release(Some("1")).unwrap_err();
    assert_eq!(
        e.message(),
        "no known NDK release matches version \"1\"; pin a known version in Rusk.toml, e.g. \"27.0.12077973\""
    );
    assert_eq!(known_releases().len(), 2);
}

#[test]
fn an_installed_ndk_is_used() {
    let (ndk, download) = ensure_ndk(HostOs::Other, "haiku", Some("/h"), None, true).unwrap();
    assert_eq!(ndk.root, "/h/.rusk/ndk/27.0.12077973");
    assert!(download.is_none());
}

#[test]
fn a_missing_ndk_is_downloaded() {
    let (_, d) = ensure_ndk(HostOs::MacOs, "macos", Some("/h"), Some("26.3.11579264"), false).unwrap();
    let d = d.unwrap();
    assert_eq!(d.url, "https://dl.google.com/android/repository/android-ndk-r26d-darwin.zip");
    assert_eq!(d.archive_path, "/h/.rusk/ndk/26.3.11579264/android-ndk-r26d-darwin.zip");
    assert_eq!(d.label, "NDK 26.3.11579264");
    assert_eq!(d.sha1, "703100c3d721b04e09f02f3fddc5f1f5ced28b10");
    let (_, d) = ensure_ndk(HostOs::Linux, "linux", Some("/h"), None, false).unwrap();
    assert_eq!(d.unwrap().sha1, "090e8083a715fdb1a3e402d0763c388abb03fb4e");
    let (_, d) = ensure_ndk(HostOs::Windows, "windows", Some("C:\\h"), None, false).unwrap();
    let d = d.unwrap();
    assert_eq!(d.sha1, "ac5f7762764b1f15341094e148ad4f847d050c38");
    assert_eq!(d.archive_path, "C:\\h\\.rusk\\ndk\\27.0.12077973\\android-ndk-r27c-windows.zip");
}

#[test]
fn ndk_errors() {
    assert!(matches!(ensure_ndk(HostOs::Other, "haiku", None, Some("x"), false), Err(NdkError::UnknownVersion(v)) if v == "x"));
    assert!(matches!(ensure_ndk(HostOs::Other, "haiku", None, None, false), Err(NdkError::NoCacheDir)));
    let e = ensure_ndk(HostOs::Other, "haiku", Some("/h"), None, false).unwrap_err();
    assert_eq!(e.message(), "unsupported host OS for NDK download: haiku");
    assert!(matches!(ndk_location(HostOs::Linux, None, None), Err(NdkError::NoCacheDir)));
    assert_eq!(host_download_tag(HostOs::Linux, "linux").unwrap(), "linux");
}

#[test]
fn archives_are_checked() {
    let sha = "a9993e364706816aba3e25717850c26c9cd0d89d";
    assert!(matches!(verify_checksum("/a", sha, b"abc"), Ok(ChecksumStatus::Matches)));
    assert!(matches!(verify_checksum("/a", "TBD", b"abc"), Ok(ChecksumStatus::NotPinned)));
    let not_hex = "x".repeat(40);
    assert!(matches!(verify_checksum("/a", &not_hex, b"abc"), Ok(ChecksumStatus::NotPinned)));
    let e = verify_checksum("/a", sha, b"abd").unwrap_err();
    assert_eq!(
        e.message(),
        format!("checksum mismatch for /a: expected {sha}, got cb4cc28df0fdbe0ecf9d9662e294b118092a5735")
    );
    assert!(compare_checksum("/a", &sha.to_uppercase(), sha.to_string()).is_err());
}

#[test]
fn drivers_of_the_toolchain() {
    let ndk = NdkHome { root: "/n".to_string(), version: "27".to_string() };
    assert_eq!(ndk.toolchain_bin(HostOs::MacOs), "/n/toolchains/llvm/prebuilt/darwin-x86_64/bin");
    assert_eq!(
        ndk.clang_cxx_driver(HostOs::Linux, "aarch64-linux-android", 24),
        "/n/toolchains/llvm/prebuilt/linux-x86_64/bin/aarch64-linux-android24-clang++"
    );
    let ndk = NdkHome { root: "C:\\n".to_string(), version: "27".to_string() };
    let path = ndk.clang_driver(HostOs::Windows, "aarch64-linux-android", 24);
    assert!(!path.contains('/'));
    assert_eq!(path, "C:\\n\\toolchains\\llvm\\prebuilt\\windows-x86_64\\bin\\clang.exe");
    assert_eq!(host_prebuilt_tag(HostOs::Other), "linux-x86_64");
}

#[test]
fn installed_build_tools() {
    let revisions: Vec<String> = ["33.0.1", "35.0.0", "34.0.0"].iter().map(|s| s.to_string()).collect();
    let t = locate_build_tools(HostOs::Linux, "/sdk", &revisions, "34.0.0").unwrap();
    assert_eq!(t.aapt2, "/sdk/build-tools/34.0.0/aapt2");
    let t = locate_build_tools(HostOs::Linux, "/sdk", &revisions, "36.0.0").unwrap();
    assert_eq!(t.d8, "/sdk/build-tools/35.0.0/d8");
    assert!(locate_build_tools(HostOs::Linux, "/sdk", &vec![], "34.0.0").is_none());
    let n = build_tool_names(HostOs::Windows);
    assert_eq!((n.zipalign.as_str(), n.d8.as_str()), ("zipalign.exe", "d8.bat"));
}
