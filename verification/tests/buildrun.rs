use rusk::buildrun::{tool_source, BuildRun, ToolSource};
use rusk::incremental::{compute, ArtifactFile, IncrementalRecord, InputFile};
use rusk::javadeps::{resolved_aar, resolved_jar, AarPaths, Coordinate};
use rusk::jnigen::scan_source;
use rusk::manifest::{
    AbiSection, AppSection, DependenciesSection, FlavorSection, LintSection, NdkSection, PackageSection,
    PermissionsSection, RuskManifest, SdkToolsSection, SigningSection,
};
use rusk::ndk::NdkHome;
use rusk::ordmap::OrdMap;
use rusk::path::HostOs;
use rusk::pipeline::{BuildOptions, Profile, Stage, TargetAction};

fn s(text: &str) -> String {
    text.to_string()
}

fn app(targets: &[&str]) -> RuskManifest {
    RuskManifest {
        package: PackageSection {
            name: s("my-app"),
            id: s("com.acme.app"),
            version: s("0.1.0"),
            entry: s("src/main.rs"),
            sdk_min: 24,
            sdk_target: 34,
            sdk_compile: 34,
        },
        app: AppSection::default(),
        abi: AbiSection { targets: targets.iter().map(|t| s(t)).collect() },
        permissions: PermissionsSection::default(),
        dependencies: DependenciesSection::default(),
        ndk: NdkSection::default(),
        sdk: SdkToolsSection::default(),
        signing: None,
        flavor: vec![FlavorSection {
            name: s("pro"),
            id_suffix: Some(s("pro")),
            label_suffix: None,
            cargo_features: vec![s("pro")],
            abi_targets: None,
            java: OrdMap::new(),
        }],
        bundle: None,
        proguard: None,
        lint: LintSection::default(),
    }
}

fn options(flavor: Option<&str>) -> BuildOptions {
    BuildOptions { project_root: s("/p"), profile: Profile::Release, flavor: flavor.map(s) }
}

fn ndk() -> NdkHome {
    NdkHome { root: s("/ndk"), version: s("27") }
}

fn started(manifest: &RuskManifest, flavor: Option<&str>) -> BuildRun {
    let mut run = BuildRun::start(HostOs::Linux, manifest, options(flavor)).ok().unwrap();
    assert_eq!(run.stage(), Stage::Ndk);
    run.ndk_ready(ndk());
    assert_eq!(run.stage(), Stage::CrateName);
    run
}

fn coordinate() -> Coordinate {
    Coordinate { group: s("g"), artifact: s("a"), version: s("1") }
}

#[test]
fn a_build_with_code_comes_to_its_end() {
    let mut manifest = app(&["arm64-v8a", "x86_64"]);
    manifest.app.icon = Some(s("art/icon.png"));
    manifest.dependencies.java.insert(s("g:a"), s("1"));
    manifest.signing =
        Some(SigningSection { keystore: s("release.keystore"), alias: s("key"), password_env: s("PW") });
    let mut run = started(&manifest, Some("pro"));
    assert_eq!(run.cargo_toml(), "/p/Cargo.toml");
    assert_eq!(run.manifest().package.id, "com.acme.app.pro");
    assert!(run.crate_named(Some(s("my-app")), IncrementalRecord::default()).is_ok());

    for (dir, triple) in [("arm64-v8a", "aarch64-linux-android"), ("x86_64", "x86_64-linux-android")] {
        assert_eq!(run.stage(), Stage::Compile);
        let target = run.current().unwrap();
        assert_eq!(target.jni_libs_dir, dir);
        let toolchain = run.toolchain(&target);
        assert_eq!(toolchain.ndk_version, "27");
        assert_eq!(toolchain.rust_triple, triple);
        assert!(toolchain.release);
        assert_eq!(toolchain.features, vec!["pro"]);
        let fingerprint = Some(compute(HostOs::Linux, &vec![], &vec![], &toolchain, 5));
        assert!(matches!(run.decide(&fingerprint, &ArtifactFile::Missing), TargetAction::Compile));
        let command = run.command(&target);
        assert_eq!(command.program, "cargo");
        assert_eq!(command.args, ["build", "--target", triple, "--lib", "--release", "--features", "pro"]);
        assert_eq!(run.library(&target), format!("/p/target/{triple}/release/libmy_app.so"));
        assert!(run.compiled(true, Some(0), true, fingerprint, Some(b"so")).is_ok());
        assert_eq!(run.record().artifact_path(triple), Some(run.library(&target)));
    }

    assert_eq!(run.stage(), Stage::SaveRecord);
    run.record_saved();
    assert_eq!(run.stage(), Stage::Tools);
    run.tools_found(s("/sdk/android.jar"));
    assert_eq!(run.stage(), Stage::ScanJni);
    let functions = scan_source(
        "pub extern \"C\" fn Java_com_acme_app_pro_Calc_sum(env: JNIEnv, c: JClass, a: jint) -> jint { a }",
        "Java_com_acme_app_pro_",
        "src/lib.rs",
    );
    assert_eq!(functions.len(), 1);
    run.scanned(functions);
    assert_eq!(run.stage(), Stage::ResolveJava);
    let paths = AarPaths {
        archive: s("/c/a.aar"),
        extract_dir: s("/c/a"),
        classes_jar: s("/c/a/classes.jar"),
        jni_dir: s("/c/a/jni"),
    };
    let libs = vec![(s("x86_64"), s("/c/a/jni/x86_64/liba.so"))];
    run.java_resolved(vec![
        resolved_jar(&coordinate(), s("/c/b.jar"), 3),
        resolved_aar(&coordinate(), paths, true, Some(1), Some(2), libs),
    ]);
    assert_eq!(run.stage(), Stage::WriteSources);
    let names: Vec<String> = run.sources().into_iter().map(|(path, _)| path).collect();
    let pkg = "/p/target/rusk-staging/java-src/com/acme/app/pro";
    assert_eq!(run.paths().pkg_dir, pkg);
    assert_eq!(names.len(), 2);
    assert_eq!(names[1], format!("{pkg}/Calc.java"));
    run.sources_written();
    assert_eq!(run.stage(), Stage::Javac);
    assert_eq!(run.java_compiled(false, Some(2)).err().unwrap().message(), "`javac` failed compiling the generated activity shim (exit 2)");
    assert_eq!(run.stage(), Stage::Javac);
    assert!(run.java_compiled(true, Some(0)).is_ok());
    assert_eq!(run.stage(), Stage::Signing);
    let key = run.key(Some(s("pw"))).unwrap();
    assert_eq!((key.path.as_str(), key.alias.as_str(), key.password.as_str()), ("/p/release.keystore", "key", "pw"));
    assert_eq!(run.key(None).unwrap().password, "");
    run.key_found();
    assert_eq!(run.stage(), Stage::Package);
    let inputs = run.package();
    assert_eq!(
        inputs.native_libs,
        vec![
            (s("arm64-v8a"), s("/p/target/aarch64-linux-android/release/libmy_app.so")),
            (s("x86_64"), s("/p/target/x86_64-linux-android/release/libmy_app.so")),
            (s("x86_64"), s("/c/a/jni/x86_64/liba.so")),
        ]
    );
    assert_eq!(inputs.native_libs, run.native_libs());
    assert_eq!(inputs.java_dep_jars, ["/c/b.jar", "/c/a/classes.jar"]);
    assert_eq!(inputs.java_class_dir, Some(s("/p/target/rusk-staging/java-classes")));
    assert_eq!(inputs.android_jar, "/sdk/android.jar");
    let icon = inputs.icon.unwrap();
    assert_eq!(icon.from, "/p/art/icon.png");
    assert_eq!(icon.to, "/p/target/rusk-staging/res/drawable-nodpi/ic_launcher.png");
    assert_eq!(inputs.unsigned_apk, "/p/target/rusk-staging/unsigned.apk");
    assert!(inputs.manifest_xml.contains("android:hasCode=\"true\""));
    assert!(inputs.manifest_xml.contains("android:value=\"my_app\""));
    run.packaged();
    assert_eq!(run.stage(), Stage::Summary);
    assert_eq!(run.finish().apk_path, "/p/target/rusk-out/my-app-pro.apk");
    assert_eq!(run.stage(), Stage::Done);
}

#[test]
fn a_build_without_code_skips_java() {
    let mut run = started(&app(&["x86"]), None);
    assert!(run.crate_named(Some(s("my-app")), IncrementalRecord::default()).is_ok());
    assert!(run.compiled(true, Some(0), true, None, None).is_ok());
    run.record_saved();
    run.tools_found(s("/sdk/android.jar"));
    run.scanned(vec![]);
    assert_eq!(run.stage(), Stage::Signing);
    assert!(run.key(Some(s("pw"))).is_none());
    run.key_found();
    let inputs = run.package();
    assert!(inputs.java_class_dir.is_none());
    assert!(inputs.icon.is_none());
    assert!(inputs.java_dep_jars.is_empty());
    assert_eq!(inputs.native_libs.len(), 1);
    assert!(inputs.manifest_xml.contains("android:hasCode=\"false\""));
    assert_eq!(inputs.signed_apk, "/p/target/rusk-out/my-app.apk");
}

#[test]
fn what_is_recorded_is_reused_in_the_next_build() {
    let manifest = app(&["x86"]);
    let mut run = started(&manifest, None);
    assert!(run.crate_named(Some(s("a")), IncrementalRecord::default()).is_ok());
    let target = run.current().unwrap();
    let sources = vec![InputFile { path: s("/p/src/lib.rs"), bytes: b"fn f() {}".to_vec() }];
    let print = |run: &BuildRun| Some(compute(HostOs::Linux, &sources, &vec![], &run.toolchain(&target), 1));
    assert!(run.compiled(true, Some(0), true, print(&run), Some(b"so")).is_ok());

    let mut again = started(&manifest, None);
    let mut record = IncrementalRecord::default();
    for (triple, a) in run.record().artifacts.entries() {
        let (path, digest) = (a.artifact_path.clone(), a.artifact_sha256.clone());
        record.record_digest(triple, a.fingerprint.clone(), path, digest);
    }
    assert!(again.crate_named(Some(s("a")), record).is_ok());
    let found = ArtifactFile::Contents(b"so".to_vec());
    match again.decide(&print(&again), &found) {
        TargetAction::Reused(path) => assert_eq!(path, "/p/target/i686-linux-android/release/liba.so"),
        TargetAction::Compile => panic!("the library is unchanged"),
    }
    assert_eq!(again.stage(), Stage::SaveRecord);
    assert_eq!(again.native_libs(), vec![(s("x86"), s("/p/target/i686-linux-android/release/liba.so"))]);
}

#[test]
fn failures_leave_the_build_where_it_is() {
    let unknown = BuildRun::start(HostOs::Linux, &app(&["x86"]), options(Some("free"))).err().unwrap();
    assert_eq!(unknown.message(), "io error at /p: no [[flavor]] named \"free\" in Rusk.toml");
    let mut run = started(&app(&["x86"]), None);
    let missing = run.crate_named(None, IncrementalRecord::default()).err().unwrap();
    assert!(missing.message().contains("/p/Cargo.toml"));
    assert_eq!(run.stage(), Stage::CrateName);
    assert!(run.crate_named(Some(s("a")), IncrementalRecord::default()).is_ok());
    let failed = run.compiled(false, Some(101), true, None, None).err().unwrap();
    assert!(failed.message().contains("i686-linux-android") && failed.message().contains("101"));
    let absent = run.compiled(true, Some(0), false, None, None).err().unwrap();
    assert!(absent.message().contains("/p/target/i686-linux-android/release/liba.so"));
    assert_eq!(run.stage(), Stage::Compile);
    assert_eq!(run.current().unwrap().abi, "x86");
}

#[test]
fn targets_are_compiled_or_reused() {
    let manifest = app(&["arm64-v8a", "x86"]);
    let mut run = started(&manifest, None);
    let x86 = rusk::manifest::resolve_abi("x86").unwrap();
    let print = compute(HostOs::Linux, &vec![], &vec![], &run.toolchain(&x86), 1);
    let mut record = IncrementalRecord::default();
    record.record("i686-linux-android", print.clone(), s("/old.so"), b"old");
    assert!(run.crate_named(Some(s("a")), record).is_ok());
    assert_eq!(run.current().unwrap().abi, "arm64-v8a");
    assert!(matches!(run.decide(&None, &ArtifactFile::Missing), TargetAction::Compile));
    assert!(run.compiled(true, Some(0), true, None, Some(b"new")).is_ok());
    assert!(run.record().artifact_path("aarch64-linux-android").is_none());
    assert_eq!(run.current().unwrap().abi, "x86");
    let found = ArtifactFile::Contents(b"old".to_vec());
    assert!(matches!(run.decide(&Some(print), &found), TargetAction::Reused(p) if p == "/old.so"));
    assert!(run.current().is_none());
    assert_eq!(run.native_libs()[1], (s("x86"), s("/old.so")));
    assert_eq!(run.targets().len(), 2);
    assert_eq!((run.ndk().version.as_str(), run.project_root()), ("27", "/p"));
    assert!(run.flavor().is_none() && run.jars().is_empty() && run.android_jar().is_empty());
}

#[test]
fn without_targets_nothing_is_compiled() {
    let mut run = started(&app(&[]), None);
    assert!(run.crate_named(Some(s("a")), IncrementalRecord::default()).is_ok());
    assert_eq!(run.stage(), Stage::SaveRecord);
}

#[test]
fn where_the_tools_come_from() {
    assert_eq!(tool_source(true, true), ToolSource::Installed);
    assert_eq!(tool_source(true, false), ToolSource::Managed);
    assert_eq!(tool_source(false, true), ToolSource::Managed);
    assert_eq!(tool_source(false, false), ToolSource::Managed);
}
