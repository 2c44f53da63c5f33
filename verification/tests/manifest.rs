use rusk::manifest::{
    is_valid_app_id, known_abis, render_new_manifest, resolve_abi, AbiSection, AppSection, DependenciesSection,
    FlavorSection, LintSection, ManifestError, NdkSection, Orientation, PackageSection, PermissionsSection,
    RuskManifest, SdkToolsSection,
};
use rusk::ordmap::OrdMap;
use rusk::path::HostOs;

fn base() -> RuskManifest {
    RuskManifest {
        package: PackageSection {
            name: "my_app".to_string(),
            id: "com.example.my_app".to_string(),
            version: "0.1.0".to_string(),
            entry: "src/main.rs".to_string(),
            sdk_min: 24,
            sdk_target: 34,
            sdk_compile: 34,
        },
        app: AppSection::default(),
        abi: AbiSection::default(),
        permissions: PermissionsSection::default(),
        dependencies: DependenciesSection::default(),
        ndk: NdkSection::default(),
        sdk: SdkToolsSection::default(),
        signing: None,
        flavor: vec![],
        bundle: None,
        proguard: None,
        lint: LintSection::default(),
    }
}

fn flavor(name: &str) -> FlavorSection {
    FlavorSection {
        name: name.to_string(),
        id_suffix: None,
        label_suffix: None,
        cargo_features: vec![],
        abi_targets: None,
        java: OrdMap::new(),
    }
}

#[test]
fn defaults_are_the_documented_ones() {
    let m = base();
    assert_eq!(m.abi.targets, ["arm64-v8a"]);
    assert_eq!(m.sdk.build_tools_version, "34.0.0");
    assert!(m.ndk.version.is_none());
    assert!(!m.app.debuggable);
    assert_eq!(m.app.orientation, Orientation::Unspecified);
    assert_eq!(rusk::manifest::default_version(), "0.1.0");
    assert_eq!(rusk::manifest::default_entry(), "src/main.rs");
    assert_eq!(rusk::manifest::default_sdk_min(), 24);
    assert_eq!(rusk::manifest::default_sdk_target(), 34);
    assert_eq!(rusk::manifest::default_password_env(), "RUSK_KEYSTORE_PASSWORD");
}

#[test]
fn app_ids() {
    for good in ["com.example.app", "a.b", "com.x1_y.z"] {
        assert!(is_valid_app_id(good), "{good}");
    }
    for bad in ["", "app", "com.", ".app", "com..app", "com.1app", "com.a-b", "com.é", "_a.b"] {
        assert!(!is_valid_app_id(bad), "{bad}");
    }
}

#[test]
fn orientations() {
    assert_eq!(Orientation::Unspecified.as_android_value(), "unspecified");
    assert_eq!(Orientation::Portrait.as_android_value(), "portrait");
    assert_eq!(Orientation::Landscape.as_android_value(), "landscape");
    assert_eq!(Orientation::Sensor.as_android_value(), "sensor");
}

#[test]
fn abis() {
    let t = resolve_abi("armeabi-v7a").unwrap();
    assert_eq!(t.rust_triple, "armv7-linux-androideabi");
    assert_eq!(t.clang_target, "armv7a-linux-androideabi");
    assert_eq!(resolve_abi("x86").unwrap().rust_triple, "i686-linux-android");
    assert!(resolve_abi("mips").is_none());
    let names: Vec<&str> = known_abis().iter().map(|t| t.abi).collect();
    assert_eq!(names, ["arm64-v8a", "armeabi-v7a", "x86_64", "x86"]);
}

#[test]
fn a_valid_manifest_passes() {
    assert!(base().validate(HostOs::Linux, "/p", true).is_ok());
}

#[test]
fn validation_looks_at_the_id_first() {
    let mut m = base();
    m.package.id = "bad".to_string();
    m.abi.targets = vec!["mips".to_string()];
    let e = m.validate(HostOs::Linux, "/p", false).unwrap_err();
    assert_eq!(
        e.message(),
        "invalid `package.id` \"bad\": must be a reverse-DNS Java package identifier, e.g. com.example.app"
    );
}

#[test]
fn validation_looks_at_the_entry_then_abis_then_levels() {
    let mut m = base();
    m.abi.targets = vec!["x86".to_string(), "mips".to_string(), "arc".to_string()];
    m.package.sdk_min = 35;
    let e = m.validate(HostOs::Linux, "/p", false).unwrap_err();
    assert_eq!(e.message(), "`package.entry` points to \"/p/src/main.rs\", but that file does not exist");
    let e = m.validate(HostOs::Linux, "/p", true).unwrap_err();
    assert_eq!(e.message(), "unknown ABI \"mips\"; expected one of: arm64-v8a, armeabi-v7a, x86_64, x86");
    m.abi.targets = vec!["x86".to_string()];
    let e = m.validate(HostOs::Linux, "/p", true).unwrap_err();
    assert!(matches!(e, ManifestError::SdkRange { sdk_min: 35, sdk_target: 34 }));
    assert_eq!(
        e.message(),
        "`package.sdk_min` (35) cannot be greater than `package.sdk_target` (34)"
    );
}

#[test]
fn the_nearest_manifest_is_discovered() {
    assert!(matches!(RuskManifest::discover("/a/b", &vec![false, true, true]), Ok(1)));
    let e = RuskManifest::discover("/a/b", &vec![false, false]).unwrap_err();
    assert_eq!(e.message(), "Rusk.toml not found in /a/b (or any parent directory)");
}

#[test]
fn labels_fall_back_to_the_name() {
    let mut m = base();
    assert_eq!(m.app_label(), "my_app");
    m.app.label = Some("My App".to_string());
    assert_eq!(m.app_label(), "My App");
}

#[test]
fn targets_are_resolved_in_order() {
    let mut m = base();
    m.abi.targets = vec!["x86".to_string(), "nope".to_string(), "arm64-v8a".to_string()];
    let t: Vec<&str> = m.resolved_targets().iter().map(|t| t.abi).collect();
    assert_eq!(t, ["x86", "arm64-v8a"]);
}

#[test]
fn no_flavor_changes_nothing() {
    let m = base();
    let (e, features) = m.apply_flavor(None).unwrap();
    assert_eq!(format!("{e:?}"), format!("{m:?}"));
    assert!(features.is_empty());
}

#[test]
fn a_flavor_overlays_what_it_sets() {
    let mut m = base();
    m.dependencies.java.insert("g:a".to_string(), "1".to_string());
    m.dependencies.java.insert("g:b".to_string(), "1".to_string());
    let mut pro = flavor("pro");
    pro.id_suffix = Some("pro".to_string());
    pro.label_suffix = Some("Pro".to_string());
    pro.cargo_features = vec!["pro".to_string()];
    pro.abi_targets = Some(vec!["x86".to_string()]);
    pro.java.insert("g:b".to_string(), "2".to_string());
    pro.java.insert("g:c".to_string(), "3".to_string());
    m.flavor = vec![flavor("free"), pro];
    let (e, features) = m.apply_flavor(Some("pro")).unwrap();
    assert_eq!(e.package.id, "com.example.my_app.pro");
    assert_eq!(e.app_label(), "my_app Pro");
    assert_eq!(e.abi.targets, ["x86"]);
    assert_eq!(features, ["pro"]);
    let java = e.java_dependencies();
    let want: Vec<(String, String)> = [("g:a", "1"), ("g:b", "2"), ("g:c", "3")]
        .iter()
        .map(|(k, v)| (k.to_string(), v.to_string()))
        .collect();
    assert_eq!(java, want);
    assert_eq!(e.package.version, "0.1.0");
    let (same, _) = m.apply_flavor(Some("free")).unwrap();
    assert_eq!(format!("{same:?}"), format!("{m:?}"));
}

#[test]
fn a_flavored_id_is_valid() {
    let mut m = base();
    let mut pro = flavor("pro");
    pro.id_suffix = Some("pro2".to_string());
    m.flavor = vec![pro];
    let (e, _) = m.apply_flavor(Some("pro")).unwrap();
    assert_eq!(e.package.id, "com.example.my_app.pro2");
    assert!(is_valid_app_id(&e.package.id));
}

#[test]
fn an_unknown_flavor_is_an_error() {
    let e = base().apply_flavor(Some("x")).unwrap_err();
    assert_eq!(e.message(), "no [[flavor]] named \"x\" in Rusk.toml");
}

#[test]
fn a_fresh_manifest_parses() {
    let text = render_new_manifest("demo", "com.rusk.demo");
    let value: toml::Table = text.parse().unwrap();
    assert_eq!(value["package"]["name"].as_str(), Some("demo"));
    assert_eq!(value["package"]["id"].as_str(), Some("com.rusk.demo"));
    assert_eq!(value["package"]["sdk_compile"].as_integer(), Some(34));
    assert_eq!(value["app"]["label"].as_str(), Some("demo"));
    assert_eq!(value["app"]["debuggable"].as_bool(), Some(true));
    assert_eq!(value["abi"]["targets"].as_array().unwrap().len(), 2);
    assert!(text.ends_with("[ndk]\n# version = \"27.0.12077973\"\n"));
}
