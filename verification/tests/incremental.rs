use rusk::incremental::{
    compute, extra_inputs, fingerprint_bytes, format_summary, record_path, ArtifactDigest, ArtifactFile,
    BuildFingerprint, CacheDecision, IncrementalRecord, InputFile, MissReason, ToolchainContext,
};
use rusk::path::HostOs;
use sha2::{Digest, Sha256};

fn toolchain(ndk: &str, features: &[&str]) -> ToolchainContext {
    ToolchainContext {
        ndk_version: ndk.to_string(),
        build_tools_version: "34.0.0".to_string(),
        rust_triple: "aarch64-linux-android".to_string(),
        release: true,
        features: features.iter().map(|s| s.to_string()).collect(),
    }
}

fn file(path: &str, text: &str) -> InputFile {
    InputFile { path: path.to_string(), bytes: text.as_bytes().to_vec() }
}

#[test]
fn features_are_normalized() {
    let t = toolchain("27", &["b", "a", "b"]).normalized();
    assert_eq!(t.features, ["a", "b"]);
    assert!(t.same_as(&toolchain("27", &["a", "b"])));
    assert!(!t.same_as(&toolchain("26", &["a", "b"])));
    assert!(!t.same_as(&toolchain("27", &["a"])));
}

#[test]
fn a_fingerprint_digests_everything_in_order() {
    let sources = vec![file("p/src/z.rs", "Z"), file("p/src/a/b.rs", "B"), file("p/src/a.rs", "A")];
    let extras = vec![file("p/Cargo.toml", "C")];
    let fp = compute(HostOs::Linux, &sources, &extras, &toolchain("27", &["y", "x"]), 7);
    let input = "p/src/a/b.rsBp/src/a.rsAp/src/z.rsZp/Cargo.tomlC2734.0.0aarch64-linux-android\u{1}xy";
    let bytes = fingerprint_bytes(HostOs::Linux, &sources, &extras, &fp.toolchain);
    assert_eq!(bytes, input.as_bytes());
    assert_eq!(fp.hash, format!("{:x}", Sha256::digest(input.as_bytes())));
    assert_eq!(fp.hash.len(), 64);
    assert_eq!((fp.file_count, fp.computed_at), (4, 7));
}

#[test]
fn files_are_sorted_as_paths() {
    let names = ["p/src/a.rs", "p/src/a/x.rs", "p/src/a-b.rs", "p/src/b.rs", "p/src/a/x/y.rs", "p/src/é.rs"];
    let mut paths: Vec<std::path::PathBuf> = names.iter().map(std::path::PathBuf::from).collect();
    paths.sort();
    let sources: Vec<InputFile> = names.iter().rev().map(|n| file(n, "")).collect();
    let mut t = toolchain("", &[]);
    t.build_tools_version = String::new();
    t.rust_triple = String::new();
    let bytes = fingerprint_bytes(HostOs::Linux, &sources, &vec![], &t);
    let mut want: Vec<u8> = Vec::new();
    for p in &paths {
        want.extend(p.to_str().unwrap().as_bytes());
    }
    want.push(1);
    assert_eq!(bytes, want);
}

#[test]
fn listing_and_feature_order_do_not_matter() {
    let a = vec![file("s/a.rs", "1"), file("s/b.rs", "2")];
    let b = vec![file("s/b.rs", "2"), file("s/a.rs", "1")];
    let fa = compute(HostOs::Linux, &a, &vec![], &toolchain("27", &["x", "y"]), 0);
    let fb = compute(HostOs::Linux, &b, &vec![], &toolchain("27", &["y", "x", "x"]), 0);
    assert_eq!(fa.hash, fb.hash);
    let renamed = vec![file("s/a.rs", "1"), file("s/c.rs", "2")];
    let fc = compute(HostOs::Linux, &renamed, &vec![], &toolchain("27", &["x", "y"]), 0);
    assert_ne!(fa.hash, fc.hash);
}

fn fp(hash: &str, ndk: &str) -> BuildFingerprint {
    BuildFingerprint { hash: hash.to_string(), toolchain: toolchain(ndk, &[]), file_count: 1, computed_at: 0 }
}

fn miss(d: CacheDecision) -> MissReason {
    match d {
        CacheDecision::Miss(r) => r,
        CacheDecision::Hit(p) => panic!("hit {p}"),
    }
}

#[test]
fn what_was_recorded_is_reused() {
    let mut r = IncrementalRecord::default();
    r.record("t1", fp("h", "27"), "/x.so".to_string(), b"code");
    r.record("t0", fp("h0", "27"), "/y.so".to_string(), b"other");
    assert_eq!(r.artifact_path("t1"), Some("/x.so".to_string()));
    let found = ArtifactFile::Contents(b"code".to_vec());
    assert!(matches!(r.check("t1", &fp("h", "27"), &found), CacheDecision::Hit(p) if p == "/x.so"));
}

#[test]
fn every_reason_to_compile() {
    let mut r = IncrementalRecord::default();
    r.record("t", fp("h", "27"), "/x.so".to_string(), b"code");
    let same = || ArtifactFile::Contents(b"code".to_vec());
    assert_eq!(miss(r.check("other", &fp("h", "27"), &same())), MissReason::NoPriorBuild);
    assert_eq!(miss(r.check("t", &fp("h2", "27"), &same())), MissReason::SourceChanged);
    assert_eq!(miss(r.check("t", &fp("h2", "26"), &same())), MissReason::ToolchainChanged);
    assert_eq!(miss(r.check("t", &fp("h", "26"), &same())), MissReason::ToolchainChanged);
    assert_eq!(miss(r.check("t", &fp("h", "27"), &ArtifactFile::Missing)), MissReason::ArtifactMissing);
    assert_eq!(miss(r.check("t", &fp("h", "27"), &ArtifactFile::Unreadable)), MissReason::ArtifactModifiedExternally);
    let edited = ArtifactFile::Contents(b"edited".to_vec());
    assert_eq!(miss(r.check("t", &fp("h", "27"), &edited)), MissReason::ArtifactModifiedExternally);
    assert_eq!(MissReason::NoPriorBuild.describe(), "no cached build found for this target");
    assert_eq!(MissReason::ArtifactMissing.describe(), "the previously cached artifact no longer exists on disk");
}

#[test]
fn digests_decide_like_contents() {
    let mut r = IncrementalRecord::default();
    r.record_digest("t", fp("h", "27"), "/x.so".to_string(), "d".to_string());
    let hit = r.check_digest("t", &fp("h", "27"), &ArtifactDigest::Sha256("d".to_string()));
    assert!(matches!(hit, CacheDecision::Hit(_)));
    assert_eq!(miss(r.check_digest("t", &fp("h", "27"), &ArtifactDigest::Missing)), MissReason::ArtifactMissing);
}

#[test]
fn a_cleared_record_forgets() {
    let mut r = IncrementalRecord::default();
    r.record("t", fp("h", "27"), "/x.so".to_string(), b"code");
    r.clear();
    let found = ArtifactFile::Contents(b"code".to_vec());
    assert_eq!(miss(r.check("t", &fp("h", "27"), &found)), MissReason::NoPriorBuild);
}

#[test]
fn summaries_and_paths() {
    let mut r = IncrementalRecord::default();
    assert_eq!(format_summary(&r), "no cached builds yet");
    r.record("x86", fp("h", "27"), "/x.so".to_string(), b"1");
    let mut debug = fp("h", "27");
    debug.toolchain.release = false;
    r.record("arm", debug, "/a.so".to_string(), b"2");
    assert_eq!(format_summary(&r), "2 cached target(s):\n  arm: /a.so (debug)\n  x86: /x.so (release)");
    assert_eq!(record_path(HostOs::Linux, "/p"), "/p/target/rusk-incremental.toml");
    assert_eq!(extra_inputs(HostOs::Linux, "/p"), ["/p/Cargo.toml", "/p/Rusk.toml", "/p/build.rs"]);
}

#[test]
fn every_change_is_noticed() {
    let t = toolchain("27", &[]);
    let hash = |sources: Vec<InputFile>, extras: Vec<InputFile>| compute(HostOs::Linux, &sources, &extras, &t, 1).hash;
    let sources = || vec![file("/p/src/b.rs", "b"), file("/p/src/a.rs", "a")];
    let extras = || vec![file("/p/Cargo.toml", "c"), file("/p/Rusk.toml", "r")];
    let start = hash(sources(), extras());
    let edited = hash(vec![file("/p/src/b.rs", "x"), file("/p/src/a.rs", "a")], extras());
    let renamed = hash(vec![file("/p/src/c.rs", "b"), file("/p/src/a.rs", "a")], extras());
    let removed = hash(vec![file("/p/src/a.rs", "a")], extras());
    let configured = hash(sources(), vec![file("/p/Cargo.toml", "c"), file("/p/Rusk.toml", "x")]);
    let mut with_script = extras();
    with_script.push(file("/p/build.rs", ""));
    let scripted = hash(sources(), with_script);
    let all = [start, edited, renamed, removed, configured, scripted];
    for i in 0..all.len() {
        for j in 0..i {
            assert_ne!(all[i], all[j]);
        }
    }
}
