use rusk::javadeps::{resolved_jar, Coordinate};
use rusk::jnigen::scan_source;
use rusk::manifest::{
    resolve_abi, AbiSection, AppSection, DependenciesSection, LintSection, NdkSection, PackageSection,
    PermissionsSection, RuskManifest, SdkToolsSection, SigningSection,
};
use rusk::ndk::NdkHome;
use rusk::path::HostOs;
use rusk::pipeline::{
    add_brought_libs, bound_classes, build_paths, build_title, built_library, cargo_command, check_abi, compile_label,
    compile_outcome, has_code, java_sources, javac_args, javac_outcome, jni_warnings, library_name, next_stage,
    rustup_args, rustup_outcome, signing_key, summary_libs, truncate_tail, BuildError, Ended, Profile,
    Stage,
};

fn app() -> RuskManifest {
    RuskManifest {
        package: PackageSection {
            name: "my-app".to_string(),
            id: "com.acme.app".to_string(),
            version: "0.1.0".to_string(),
            entry: "src/main.rs".to_string(),
            sdk_min: 24,
            sdk_target: 34,
            sdk_compile: 34,
        },
        app: AppSection::default(),
        abi: AbiSection::default(),
        permissions: PermissionsSection::default(),
        dependencies: DependenciesSection::default(),
        ndk: NdkSection::default(),
        sdk: SdkToolsSection::default(),
        signing: None,
        flavor: vec![],
        bundle: None,
        proguard: None,
        lint: LintSection::default(),
    }
}

#[test]
fn long_errors_keep_their_end() {
    assert_eq!(truncate_tail("abc", 3), "abc");
    assert_eq!(truncate_tail("abcdef", 3), "…def");
    assert_eq!(truncate_tail("éèà", 2), "…èà");
    assert_eq!(truncate_tail("abc", 0), "…");
}

#[test]
fn stages_follow_each_other() {
    let run = |deps: bool, code: bool| {
        let mut s = Stage::Ndk;
        let mut seen = vec![s];
        while s != Stage::Done {
            s = next_stage(s, deps, code);
            seen.push(s);
        }
        seen
    };
    assert_eq!(
        run(true, true),
        [
            Stage::Ndk, Stage::CrateName, Stage::Compile, Stage::SaveRecord, Stage::Tools, Stage::ScanJni,
            Stage::ResolveJava, Stage::WriteSources, Stage::Javac, Stage::Signing, Stage::Package, Stage::Summary,
            Stage::Done,
        ]
    );
    assert!(!run(false, true).contains(&Stage::ResolveJava));
    assert!(run(false, true).contains(&Stage::Javac));
    assert!(!run(false, false).contains(&Stage::Javac));
}

#[test]
fn the_command_for_a_target() {
    let ndk = NdkHome { root: "/ndk".to_string(), version: "27".to_string() };
    let t = resolve_abi("armeabi-v7a").unwrap();
    let features = vec!["a".to_string(), "b".to_string()];
    let c = cargo_command(HostOs::Linux, &ndk, &t, 24, Profile::Release, &features);
    assert_eq!(c.program, "cargo");
    assert_eq!(
        c.args,
        ["build", "--target", "armv7-linux-androideabi", "--lib", "--release", "--features", "a,b"]
    );
    let clang = "/ndk/toolchains/llvm/prebuilt/linux-x86_64/bin/armv7a-linux-androideabi24-clang";
    let ar = "/ndk/toolchains/llvm/prebuilt/linux-x86_64/bin/llvm-ar";
    let env: Vec<(&str, &str)> = c.env.iter().map(|(k, v)| (k.as_str(), v.as_str())).collect();
    assert_eq!(env[0], ("CARGO_TARGET_ARMV7_LINUX_ANDROIDEABI_LINKER", clang));
    assert_eq!(env[1], ("CC_armv7-linux-androideabi", clang));
    assert_eq!(env[2].1, format!("{clang}++"));
    assert_eq!(env[3], ("AR_armv7-linux-androideabi", ar));
    assert_eq!(env[4], ("CC_armv7_linux_androideabi", clang));
    assert_eq!(env[7], ("ANDROID_NDK_HOME", "/ndk"));
    assert_eq!(
        env[8],
        ("CARGO_TARGET_ARMV7_LINUX_ANDROIDEABI_RUSTFLAGS", "-C link-arg=-landroid -C link-arg=-llog")
    );
    let c = cargo_command(HostOs::Linux, &ndk, &t, 24, Profile::Debug, &vec![]);
    assert_eq!(c.args, ["build", "--target", "armv7-linux-androideabi", "--lib"]);
}

#[test]
fn the_command_for_a_target_on_windows() {
    let ndk = NdkHome { root: "C:\\ndk".to_string(), version: "27".to_string() };
    let t = resolve_abi("x86").unwrap();
    let c = cargo_command(HostOs::Windows, &ndk, &t, 24, Profile::Debug, &vec![]);
    assert_eq!(c.env[0].1, "C:\\ndk\\toolchains\\llvm\\prebuilt\\windows-x86_64\\bin\\clang.exe");
    assert_eq!(c.env[2].1, "C:\\ndk\\toolchains\\llvm\\prebuilt\\windows-x86_64\\bin\\clang++.exe");
    assert_eq!(
        c.env[8].1,
        "-C link-arg=--target=i686-linux-android24 -C link-arg=-landroid -C link-arg=-llog"
    );
}

#[test]
fn outcomes_of_the_tools() {
    assert!(rustup_outcome("t", Ended::Success, false).is_ok());
    let e = rustup_outcome("t", Ended::Failure(None), true).unwrap_err();
    assert_eq!(
        e.message(),
        "rustup could not install target \"t\" (exit -1); if you're not using rustup, add the target's prebuilt std another way, then re-run rusk build"
    );
    assert!(rustup_outcome("t", Ended::NotStarted, true).is_ok());
    let e = rustup_outcome("t", Ended::NotStarted, false).unwrap_err();
    assert!(e.message().starts_with("`rustup` was not found on PATH, and target \"t\" is not installed"));
    assert_eq!(rustup_args("t"), ["target", "add", "t"]);
    let lib = "/p/l.so".to_string();
    assert_eq!(compile_outcome("t", true, Some(0), lib.clone(), true).unwrap(), "/p/l.so");
    let e = compile_outcome("t", false, Some(101), lib.clone(), true).unwrap_err();
    assert_eq!(e.message(), "`cargo build` failed for target t (exit 101)");
    let e = compile_outcome("t", true, Some(0), lib, false).unwrap_err();
    assert_eq!(
        e.message(),
        "built library not found at /p/l.so; check that Cargo.toml declares `crate-type = [\"cdylib\"]`"
    );
    assert!(javac_outcome(true, None).is_ok());
    assert_eq!(
        javac_outcome(false, Some(2)).unwrap_err().message(),
        "`javac` failed compiling the generated activity shim (exit 2)"
    );
    assert_eq!(
        BuildError::CargoTomlMissing("/p/Cargo.toml".to_string()).message(),
        "failed to read the project's Cargo.toml at /p/Cargo.toml"
    );
}

#[test]
fn names_and_paths_of_a_build() {
    assert_eq!(library_name("my-app"), "my_app");
    assert_eq!(build_title("my-app", &Some("pro".to_string())), "my-app [pro]");
    assert_eq!(build_title("my-app", &None), "my-app");
    assert_eq!(
        built_library(HostOs::Linux, "/p", "x86_64-linux-android", Profile::Release, "my-app"),
        "/p/target/x86_64-linux-android/release/libmy_app.so"
    );
    let p = build_paths(HostOs::Linux, "/p", &app(), &Some("pro".to_string()));
    assert_eq!(p.signed_apk, "/p/target/rusk-out/my-app-pro.apk");
    assert_eq!(p.pkg_dir, "/p/target/rusk-staging/java-src/com/acme/app");
    assert_eq!(p.class_dir, "/p/target/rusk-staging/java-classes");
    assert_eq!(p.unsigned_apk, "/p/target/rusk-staging/unsigned.apk");
    assert_eq!(build_paths(HostOs::Linux, "/p", &app(), &None).signed_apk, "/p/target/rusk-out/my-app.apk");
    let t = resolve_abi("x86").unwrap();
    assert_eq!(compile_label(&t, false), "Compiling for x86 (i686-linux-android)");
    assert_eq!(compile_label(&t, true), "Compiling for x86 (i686-linux-android) — unchanged since last build");
    assert!(check_abi("x86_64") && !check_abi("sparc"));
}

#[test]
fn java_sources_of_a_project() {
    let text = "fn Java_p_B_one(e: E, c: C, x: Foo) {} fn Java_p_A_two(e: E, c: C) {} fn Java_p_B_three(e: E, c: C) {}";
    let functions = scan_source(text, "Java_p_", "src/lib.rs");
    assert_eq!(bound_classes(&functions), ["A", "B"]);
    let mut m = app();
    assert!(has_code(&m, &functions));
    assert!(!has_code(&m, &vec![]));
    let sources = java_sources(HostOs::Linux, &m, "my_app", "/s", &functions);
    assert_eq!(sources.len(), 2);
    assert_eq!(sources[0].0, "/s/A.java");
    assert_eq!(sources[1].0, "/s/B.java");
    let one = sources[1].1.find("one(").unwrap();
    let three = sources[1].1.find("three(").unwrap();
    assert!(one < three && !sources[1].1.contains("two("));
    m.dependencies.java.insert("g:a".to_string(), "1".to_string());
    assert!(has_code(&m, &vec![]));
    let sources = java_sources(HostOs::Linux, &m, "my_app", "/s", &functions);
    assert_eq!(sources[0].0, "/s/RuskShimActivity.java");
    assert_eq!(
        javac_args("/c", "/a.jar", &sources),
        ["-d", "/c", "-classpath", "/a.jar", "/s/RuskShimActivity.java", "/s/A.java", "/s/B.java"]
    );
    assert_eq!(
        jni_warnings(&functions),
        ["JNI binding B.one: unrecognized Rust param type \"Foo\" mapped to Java Object — double-check it by hand"]
    );
}

#[test]
fn libraries_that_dependencies_bring() {
    let c = Coordinate { group: "g".to_string(), artifact: "a".to_string(), version: "1".to_string() };
    let mut jar = resolved_jar(&c, "/a.jar".to_string(), 1);
    jar.native_libs = vec![("x86".to_string(), "/d.so".to_string()), ("mips".to_string(), "/e.so".to_string())];
    let mut libs = vec![("x86".to_string(), "/own.so".to_string())];
    add_brought_libs(&mut libs, &vec![jar]);
    assert_eq!(libs.len(), 3);
    let shown = summary_libs(&libs, &vec![resolve_abi("x86").unwrap()]);
    let paths: Vec<&str> = shown.iter().map(|l| l.1.as_str()).collect();
    assert_eq!(paths, ["/own.so", "/d.so"]);
}

#[test]
fn the_key_to_sign_with() {
    let mut m = app();
    assert!(signing_key(HostOs::Linux, "/p", &m, None).is_none());
    m.signing = Some(SigningSection {
        keystore: "release.keystore".to_string(),
        alias: "a".to_string(),
        password_env: "X".to_string(),
    });
    let k = signing_key(HostOs::Linux, "/p", &m, Some("pw".to_string())).unwrap();
    assert_eq!((k.path.as_str(), k.alias.as_str(), k.password.as_str()), ("/p/release.keystore", "a", "pw"));
    m.signing.as_mut().unwrap().keystore = "/abs/k".to_string();
    let k = signing_key(HostOs::Linux, "/p", &m, None).unwrap();
    assert_eq!((k.path.as_str(), k.password.as_str()), ("/abs/k", ""));
}
