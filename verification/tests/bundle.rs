use rusk::bundle::{
    build_apks_for_testing, build_bundle, build_bundle_multi_module, bundletool_outcome,
    ensure_bundletool, entry_name, install_apks, module_zip_path, sanitize_module_name, validate_modules,
    BundleAction, BundleError, BundleInputs, BundleModule, BundleSigning,
};
use rusk::cli::aab_name;
use rusk::path::{replace_extension, HostOs};

fn inputs() -> BundleInputs {
    BundleInputs {
        bundletool_jar: "/b.jar".to_string(),
        base_module_dir: "/base".to_string(),
        out_aab: "/out/app.aab".to_string(),
    }
}

fn module(name: &str, is_dir: bool) -> BundleModule {
    BundleModule { name: name.to_string(), module_dir: format!("/m/{name}"), is_dir }
}

#[test]
fn modules_are_packed_and_the_bundle_built() {
    let modules = vec![module("a-b", true), module("a_b", true)];
    let mut run = build_bundle_multi_module(HostOs::Linux, &inputs(), &modules).unwrap();
    assert_eq!(run.labels().0, "Packaging 3 modules");
    let zips =
        ["/out/app.basemodule.zip.tmp", "/out/app.module-0-a_b.zip.tmp", "/out/app.module-1-a_b.zip.tmp"];
    let mut packed = vec![];
    loop {
        match run.next() {
            BundleAction::Pack { from, to } => {
                packed.push((from, to));
                assert_eq!(run.leftovers(), zips[..packed.len()]);
                run.module_packed();
            }
            BundleAction::Build(args) => {
                let list = format!("--modules={}", zips.join(","));
                assert_eq!(
                    args,
                    ["-jar", "/b.jar", "build-bundle", list.as_str(), "--output=/out/app.aab", "--overwrite"]
                );
                break;
            }
        }
    }
    assert_eq!(packed[0], ("/base".to_string(), zips[0].to_string()));
    assert_eq!(packed[1], ("/m/a-b".to_string(), zips[1].to_string()));
    assert_eq!(packed[2], ("/m/a_b".to_string(), zips[2].to_string()));
    assert_eq!(run.leftovers(), zips);
    assert_eq!(run.labels().1, "Building app bundle (3 modules, bundletool build-bundle)");
}

#[test]
fn a_single_module_is_a_bundle_without_features() {
    let a = build_bundle(HostOs::Linux, &inputs());
    let b = build_bundle_multi_module(HostOs::Linux, &inputs(), &vec![]).unwrap();
    assert_eq!(format!("{a:?}"), format!("{b:?}"));
    assert_eq!(a.labels().0, "Packaging 1 module");
    assert_eq!(a.leftovers(), ["/out/app.basemodule.zip.tmp"]);
}

#[test]
fn bad_modules_fail_before_anything_is_packed() {
    let e = validate_modules(&vec![module("ok", true), module(" \t", true)]).unwrap_err();
    assert_eq!(e.message(), "invalid bundle module: feature module has an empty name");
    let modules = vec![module("gone", false), module("", false)];
    let e = build_bundle_multi_module(HostOs::Linux, &inputs(), &modules).unwrap_err();
    assert_eq!(
        e.message(),
        "invalid bundle module: feature module \"gone\" points at /m/gone, which is not a directory"
    );
}

#[test]
fn temporary_names() {
    assert_eq!(sanitize_module_name("my module-2é"), "my_module_2_");
    assert_eq!(module_zip_path(HostOs::Linux, "/x.y/b.aab", 12, "a b"), "/x.y/b.module-12-a_b.zip.tmp");
    assert_eq!(module_zip_path(HostOs::Linux, "/x.y/b", 0, "a"), "/x.y/b.module-0-a.zip.tmp");
    assert_eq!(module_zip_path(HostOs::Windows, "c:\\x.y\\b", 0, "a"), "c:\\x.y\\b.module-0-a.zip.tmp");
}

#[test]
fn extensions_are_replaced_as_path_does() {
    for path in [
        "/out/app.aab", "app.aab", "a.b/c", "a.b/.c", "a.b/.c.d", "x.y.z", "x", "d/x.", ".x", "", ".", "..", "/",
        "//", "a/", "a.b/", "a.b//", "a/.", "a.b/./", "a/..", "./a", "./a.b/.", "../a.b", "...", "a/...b", "/..", "/.",
    ] {
        for extension in ["e.f", "e", ""] {
            let want = std::path::Path::new(path).with_extension(extension);
            assert_eq!(
                replace_extension(HostOs::Linux, path, extension),
                want.to_string_lossy(),
                "{path:?} {extension:?}"
            );
        }
    }
    assert_eq!(replace_extension(HostOs::Windows, "C:a.b", "x"), "C:a.x");
    assert_eq!(replace_extension(HostOs::Windows, "C:", "x"), "C:");
    assert_eq!(replace_extension(HostOs::Windows, "\\\\s\\d.e", "x"), "\\\\s\\d.e");
}

#[test]
fn bundletool_is_cached() {
    let p = ensure_bundletool(HostOs::Linux, Some("/h"), "1.17.1").unwrap();
    assert_eq!(p.jar_path, "/h/.rusk/bundletool/bundletool-all-1.17.1.jar");
    assert_eq!(p.url, "https://github.com/google/bundletool/releases/download/1.17.1/bundletool-all-1.17.1.jar");
    assert_eq!(p.tmp_path, "/h/.rusk/bundletool/.bundletool-1.17.1.tmp");
    let e = ensure_bundletool(HostOs::Linux, None, "1").unwrap_err();
    assert_eq!(e.message(), "could not determine a home directory to cache bundletool in");
}

#[test]
fn bundletool_outcomes() {
    assert!(bundletool_outcome(true, Some(0)).is_ok());
    assert!(matches!(bundletool_outcome(false, None), Err(BundleError::ToolFailed(-1))));
    assert_eq!(BundleError::ToolFailed(3).message(), "`java -jar bundletool.jar` exited with status 3");
    assert_eq!(BundleError::BadStatus(404).message(), "unexpected HTTP status 404 fetching bundletool");
    assert!(BundleError::NoKeystore.message().starts_with("bundletool build-apks needs a keystore"));
}

#[test]
fn apks_of_a_bundle() {
    let signing = BundleSigning {
        keystore_path: "/k".to_string(),
        alias: "a".to_string(),
        store_password: "s".to_string(),
        key_password: "p".to_string(),
    };
    let args = build_apks_for_testing("/b.jar", "/x.aab", &signing, "/x.apks", true);
    assert_eq!(
        args,
        [
            "-jar", "/b.jar", "build-apks", "--bundle=/x.aab", "--output=/x.apks", "--overwrite", "--ks=/k",
            "--ks-key-alias=a", "--ks-pass=pass:s", "--key-pass=pass:p", "--connected-device",
        ]
    );
    assert_eq!(build_apks_for_testing("/b.jar", "/x.aab", &signing, "/x.apks", false).len(), 10);
    assert_eq!(install_apks("/b.jar", "/x.apks", Some("emu")), ["-jar", "/b.jar", "install-apks", "--apks=/x.apks", "--device-id=emu"]);
    assert_eq!(install_apks("/b.jar", "/x.apks", None).len(), 4);
}

#[test]
fn entries_of_a_packed_module() {
    assert_eq!(entry_name("", true), None);
    assert_eq!(entry_name("res\\values", true), Some("res/values/".to_string()));
    assert_eq!(entry_name("res/a.xml", false), Some("res/a.xml".to_string()));
    assert_eq!(aab_name("my", &Some("pro".to_string())), "my-pro.aab");
    assert_eq!(aab_name("my", &None), "my.aab");
}
