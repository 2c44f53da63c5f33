use rusk::cli::{lint_report, Level};
use rusk::lint::{run, Severity};
use rusk::manifest::{
    AbiSection, AppSection, DependenciesSection, LintSection, NdkSection, PackageSection, PermissionsSection,
    RuskManifest, SdkToolsSection, SigningSection,
};

fn clean() -> RuskManifest {
    RuskManifest {
        package: PackageSection {
            name: "my_app".to_string(),
            id: "org.acme.my_app".to_string(),
            version: "0.1.0".to_string(),
            entry: "src/main.rs".to_string(),
            sdk_min: 24,
            sdk_target: 34,
            sdk_compile: 34,
        },
        app: AppSection::default(),
        abi: AbiSection { targets: vec!["arm64-v8a".to_string(), "x86_64".to_string()] },
        permissions: PermissionsSection::default(),
        dependencies: DependenciesSection::default(),
        ndk: NdkSection::default(),
        sdk: SdkToolsSection::default(),
        signing: Some(SigningSection {
            keystore: "k".to_string(),
            alias: "a".to_string(),
            password_env: "P".to_string(),
        }),
        flavor: vec![],
        bundle: None,
        proguard: None,
        lint: LintSection::default(),
    }
}

fn ids(m: &RuskManifest) -> Vec<&'static str> {
    run(m).iter().map(|f| f.id).collect()
}

#[test]
fn a_clean_project_has_no_findings() {
    assert!(ids(&clean()).is_empty());
    let r = lint_report(&run(&clean()), true);
    assert!(r.heading.is_none() && r.failure.is_none());
    assert_eq!(r.notes[0].text, "no issues found");
}

fn messy() -> RuskManifest {
    let mut m = clean();
    m.package.id = "com.example.x".to_string();
    m.package.sdk_min = 19;
    m.package.sdk_target = 32;
    m.package.sdk_compile = 31;
    m.app.debuggable = true;
    m.abi.targets = vec!["x86".to_string()];
    m.permissions.list = vec!["READ_SMS".to_string(), "INTERNET".to_string(), "SYSTEM_ALERT_WINDOW".to_string()];
    m.signing = None;
    m.dependencies.java.insert("g:b".to_string(), "Latest".to_string());
    m.dependencies.java.insert("g:a".to_string(), "1.+".to_string());
    m.dependencies.java.insert("g:c".to_string(), "1.0".to_string());
    m
}

#[test]
fn the_worst_findings_come_first() {
    assert_eq!(
        ids(&messy()),
        [
            "sdk-compile-below-target",
            "example-app-id",
            "sdk-target-outdated",
            "sensitive-permission",
            "sensitive-permission",
            "single-abi-target",
            "debuggable-true",
            "unpinned-java-dependency",
            "unpinned-java-dependency",
            "sdk-min-very-old",
            "no-release-signing-configured",
        ]
    );
    let f = run(&messy());
    assert_eq!(f[0].message, "package.sdk_compile (31) is lower than package.sdk_target (32)");
    assert_eq!(f[3].message, "permission READ_SMS is declared");
    assert_eq!(f[5].message, "only one ABI target configured (x86)");
    assert_eq!(f[7].message, "g:a = \"1.+\" is not a pinned version");
    assert_eq!(f[8].message, "g:b = \"Latest\" is not a pinned version");
    assert!(f[9].hint.is_none());
    assert_eq!(f[9].severity, Severity::Info);
}

#[test]
fn ignored_checks_are_left_out() {
    let mut m = messy();
    m.lint.ignore = vec!["sensitive-permission".to_string(), "example-app-id".to_string(), "nonsense".to_string()];
    let found = ids(&m);
    assert_eq!(found.len(), 8);
    assert!(!found.contains(&"sensitive-permission"));
}

#[test]
fn missing_arm64_is_an_error() {
    let mut m = clean();
    m.abi.targets = vec!["x86".to_string(), "x86_64".to_string()];
    let f = run(&m);
    assert_eq!((f[0].id, f[0].severity), ("missing-arm64", Severity::Error));
    m.abi.targets = vec![];
    assert_eq!(ids(&m), ["missing-arm64"]);
}

#[test]
fn the_example_namespace_needs_its_dot() {
    let mut m = clean();
    m.package.id = "com.example2.app".to_string();
    assert!(ids(&m).is_empty());
}

#[test]
fn strict_reports_fail_on_errors() {
    let r = lint_report(&run(&messy()), true);
    assert_eq!(r.heading.unwrap(), "rusk lint — 11 finding(s)");
    assert_eq!(r.failure.unwrap(), "2 error-severity finding(s) — failing due to --strict");
    assert_eq!(r.notes[0].level, Level::Error);
    assert_eq!(r.notes[0].text, "[sdk-compile-below-target] package.sdk_compile (31) is lower than package.sdk_target (32)");
    assert!(r.notes[1].text.starts_with("  hint: raise sdk_compile"));
    assert!(lint_report(&run(&messy()), false).failure.is_none());
}
