use rusk::androidgen::{
    escape_toml_string, generate_activity_shim_java, generate_build_rs, generate_cargo_toml,
    generate_cargo_toml_with_render, generate_lib_rs, generate_lib_rs_with_render, generate_manifest,
    generate_strings_xml, xml_escape, RenderCratePathsForCargoToml,
};
use rusk::manifest::{
    AbiSection, AppSection, DependenciesSection, LintSection, NdkSection, Orientation, PackageSection,
    PermissionsSection, RuskManifest, SdkToolsSection,
};

fn app(name: &str) -> RuskManifest {
    RuskManifest {
        package: PackageSection {
            name: name.to_string(),
            id: "com.example.my_app".to_string(),
            version: "0.1.0".to_string(),
            entry: "src/main.rs".to_string(),
            sdk_min: 24,
            sdk_target: 34,
            sdk_compile: 34,
        },
        app: AppSection::default(),
        abi: AbiSection::default(),
        permissions: PermissionsSection::default(),
        dependencies: DependenciesSection::default(),
        ndk: NdkSection::default(),
        sdk: SdkToolsSection::default(),
        signing: None,
        flavor: vec![],
        bundle: None,
        proguard: None,
        lint: LintSection::default(),
    }
}

#[test]
fn xml_is_escaped() {
    assert_eq!(xml_escape("a & b < c > d \" e ' f"), "a &amp; b &lt; c &gt; d &quot; e &apos; f");
    assert_eq!(xml_escape("&amp;"), "&amp;amp;");
    assert_eq!(xml_escape("Приложение"), "Приложение");
}

#[test]
fn toml_is_escaped() {
    assert_eq!(escape_toml_string("C:\\Users\\\"x\""), "C:\\\\Users\\\\\\\"x\\\"");
}

#[test]
fn the_manifest_of_an_application() {
    let mut m = app("my_app");
    m.app.label = Some("Tom & Jerry".to_string());
    m.app.orientation = Orientation::Landscape;
    m.app.fullscreen = true;
    m.app.debuggable = true;
    m.permissions.list = vec!["INTERNET".to_string(), "com.vendor.PERM".to_string()];
    let want = r#"<?xml version="1.0" encoding="utf-8"?>
<manifest xmlns:android="http://schemas.android.com/apk/res/android"
    package="com.example.my_app"
    android:versionName="0.1.0">
    <uses-sdk android:minSdkVersion="24" android:targetSdkVersion="34" />
    <uses-permission android:name="android.permission.INTERNET" />
    <uses-permission android:name="com.vendor.PERM" />
    <application android:label="Tom &amp; Jerry" android:hasCode="true" android:debuggable="true" android:allowBackup="true">
        <activity android:name="android.app.NativeActivity"
            android:label="Tom &amp; Jerry"
            android:configChanges="orientation|keyboardHidden|screenSize|uiMode"
            android:screenOrientation="landscape"
            android:theme="@android:style/Theme.NoTitleBar.Fullscreen"
            android:exported="true">
            <meta-data android:name="android.app.lib_name" android:value="my_app" />
            <intent-filter>
                <action android:name="android.intent.action.MAIN" />
                <category android:name="android.intent.category.LAUNCHER" />
            </intent-filter>
        </activity>
    </application>
</manifest>
"#;
    assert_eq!(generate_manifest(&m, "my_app", true), want);
}

#[test]
fn the_manifest_of_a_plain_application() {
    let text = generate_manifest(&app("my_app"), "my_app", false);
    assert!(text.contains("android:hasCode=\"false\" android:debuggable=\"false\""));
    assert!(!text.contains("android:theme"));
    assert!(!text.contains("uses-permission"));
}

#[test]
fn the_strings_of_an_application() {
    let mut m = app("my_app");
    m.app.label = Some("<b>".to_string());
    assert_eq!(
        generate_strings_xml(&m),
        "<?xml version=\"1.0\" encoding=\"utf-8\"?>\n<resources>\n    <string name=\"app_name\">&lt;b&gt;</string>\n</resources>\n"
    );
}

#[test]
fn the_shim_of_an_application() {
    let (class, source) = generate_activity_shim_java(&app("my-app"));
    assert_eq!(class, "RuskShimActivity");
    assert_eq!(
        source,
        "package com.example.my_app;\n\npublic class RuskShimActivity extends android.app.NativeActivity {\n    static {\n        System.loadLibrary(\"my_app\");\n    }\n}\n"
    );
}

fn expected_cargo_toml(project_name: &str, with_bindgen: bool) -> String {
    let build_line = if with_bindgen { "build = \"build.rs\"\n" } else { "" };
    let build_deps = if with_bindgen {
        "\n[target.'cfg(target_os = \"android\")'.build-dependencies]\nbindgen = \"0.69\"\n"
    } else {
        ""
    };
    format!(
        r#"[package]
name = "{project_name}"
version = "0.1.0"
edition = "2021"
{build_line}
[lib]
crate-type = ["cdylib"]
path = "src/lib.rs"

[[bin]]
name = "{project_name}"
path = "src/main.rs"

[dependencies]
{build_deps}"#
    )
}

#[test]
fn the_cargo_toml_of_a_project() {
    assert_eq!(generate_cargo_toml("demo", true), expected_cargo_toml("demo", true));
    assert_eq!(generate_cargo_toml("demo", false), expected_cargo_toml("demo", false));
}

fn expected_render_cargo_toml(project_name: &str, render_path: &str, ndk_sys_path: &str) -> String {
    let build_line = "";
    let build_deps = "";
    format!(
        r#"[package]
name = "{project_name}"
version = "0.1.0"
edition = "2021"
{build_line}
[lib]
crate-type = ["cdylib"]
path = "src/lib.rs"

[[bin]]
name = "{project_name}"
path = "src/main.rs"

[dependencies]
rusk-render = {{ path = "{render_path}" }}
rusk-ndk-sys = {{ path = "{ndk_sys_path}" }}
{build_deps}"#
    )
}

#[test]
fn the_cargo_toml_of_a_rendering_project() {
    let paths = RenderCratePathsForCargoToml { render: "C:\\sdk\\r".to_string(), ndk_sys: "/sdk/n".to_string() };
    assert_eq!(
        generate_cargo_toml_with_render("demo", false, &paths),
        expected_render_cargo_toml("demo", "C:\\\\sdk\\\\r", "/sdk/n")
    );
}

fn expected_lib_rs(tag: &str, with_bindgen: bool) -> String {
    let bindgen_module = if with_bindgen {
        "\n#[cfg(target_os = \"android\")]\n#[allow(non_camel_case_types, non_snake_case, dead_code)]\npub mod ndk {\n    include!(concat!(env!(\"OUT_DIR\"), \"/ndk_bindings.rs\"));\n}\n"
    } else {
        ""
    };
    format!(
        r#"//! Entry point loaded by android.app.NativeActivity.
//!
//! The Android runtime `dlopen`s this library (named via the
//! `android.app.lib_name` meta-data Rusk generates in
//! AndroidManifest.xml) and calls `ANativeActivity_onCreate` directly —
//! there is no Java code in between unless [dependencies.java] or a
//! `Java_...` JNI export pulls some in.
#![cfg(target_os = "android")]

use std::os::raw::c_void;
{bindgen_module}
#[repr(C)]
pub struct ANativeActivity {{
    _private: [u8; 0],
}}

#[no_mangle]
pub extern "C" fn ANativeActivity_onCreate(
    _activity: *mut ANativeActivity,
    _saved_state: *mut c_void,
    _saved_state_size: usize,
) {{
    // `rusk-ndk-sys` wraps `__android_log_write` for exactly this: a
    // real, working log line the moment the app starts, visible with
    // `adb logcat -s {tag}`. Add rusk-ndk-sys to [dependencies] to use
    // it — see crates/rusk-ndk-sys in the Rusk SDK repository for the
    // rest of the native_window / looper / input / asset_manager API.
    //
    // rusk_ndk_sys::log::log_info("{tag}", "ANativeActivity_onCreate");
    //
    // Or, with the `ndk` module above (generated straight from the real
    // NDK sysroot headers via bindgen):
    //
    // #[cfg(target_os = "android")]
    // unsafe {{ ndk::__android_log_write(4, c"{tag}".as_ptr(), c"onCreate".as_ptr()); }}

    // A real app takes it from here: ALooper_prepare + AInputQueue to
    // read events, ANativeWindow_lock to draw, or a windowing crate
    // (winit + android-activity) built on top of the same NDK contract.
}}
"#
    )
}

#[test]
fn the_library_of_a_project() {
    assert_eq!(generate_lib_rs(&app("demo"), true), expected_lib_rs("demo", true));
    assert_eq!(generate_lib_rs(&app("demo"), false), expected_lib_rs("demo", false));
}

fn expected_render_rs(tag: &str) -> String {
    format!(
        r#"//! Entry point loaded by android.app.NativeActivity, wired up with
//! `rusk-render::AppShell` so the app draws real pixels immediately
//! instead of showing a black screen — see the `rusk-render` crate docs
//! for why a bare NativeActivity is black by default and what this
//! crate's `AppShell` does about it.
#![cfg(target_os = "android")]

use rusk_render::{{AppShell, FrameBuffer}};
use rusk_ndk_sys::native_activity::ANativeActivity;
use std::os::raw::c_void;

#[no_mangle]
pub extern "C" fn ANativeActivity_onCreate(
    activity: *mut ANativeActivity,
    _saved_state: *mut c_void,
    _saved_state_size: usize,
) {{
    rusk_ndk_sys::log::log_info("{tag}", "starting render loop");

    // SAFETY: `activity` is exactly the pointer Android just handed us;
    // this is the one place that contract is guaranteed to hold.
    let reason = unsafe {{
        AppShell::run(activity, |fb: &mut FrameBuffer, dt_seconds: f32| {{
            draw_frame(fb, dt_seconds);
            true // keep running; return false here to exit cleanly
        }})
    }};
    rusk_ndk_sys::log::log_info("{tag}", &format!("render loop exited: {{reason:?}}"));
}}

/// Replace this with your actual rendering. What's here is deliberately
/// visible and animated (not just a static clear color) so it's
/// immediately obvious the loop is really running at whatever frame rate
/// the device delivers, not just drawn once.
struct DemoState {{
    elapsed: f32,
}}

thread_local! {{
    static STATE: std::cell::RefCell<DemoState> = std::cell::RefCell::new(DemoState {{ elapsed: 0.0 }});
}}

fn draw_frame(fb: &mut FrameBuffer, dt: f32) {{
    STATE.with(|state| {{
        let mut state = state.borrow_mut();
        state.elapsed += dt;

        // A dark blue-gray background — deliberately not pure black, so
        // "the screen is some solid color" vs "the screen is black
        // because nothing drew" are visually distinguishable at a
        // glance while you're debugging.
        fb.clear(0x14161Aff);

        // A bright square that sweeps left-to-right and wraps, proving
        // both that drawing works and that dt-based animation is live.
        let w = fb.width();
        let h = fb.height();
        let size = (w.min(h) / 8).max(8);
        let period_seconds = 3.0;
        let t = (state.elapsed % period_seconds) / period_seconds;
        let x = ((w - size) as f32 * t) as i32;
        let y = (h - size) / 2;
        for py in y..(y + size).min(h) {{
            for px in x..(x + size).min(w) {{
                fb.put_pixel(px, py, 0xE0C34Cff);
            }}
        }}
    }});
}}
"#
    )
}

#[test]
fn the_library_of_a_rendering_project() {
    assert_eq!(generate_lib_rs_with_render(&app("demo")), expected_render_rs("demo"));
}

#[test]
fn the_build_script_of_a_project() {
    let want = r#"//! Generated by `rusk new`. Binds the real Android NDK C headers
//! with `bindgen` at build time -- see crates/rusk-ndk-sys in the Rusk
//! SDK repo for a hand-written, dependency-free alternative covering
//! the same APIs if you'd rather not pull in bindgen + libclang.

fn main() {
    let target_os = std::env::var("CARGO_CFG_TARGET_OS").unwrap_or_default();
    if target_os != "android" {
        // Host-side `cargo check` / `cargo test` doesn't need Android
        // bindings, and won't have an NDK to bind against anyway.
        return;
    }

    let ndk_home = std::env::var("ANDROID_NDK_HOME").expect(
        "ANDROID_NDK_HOME is not set. Build through `rusk build`, which points this at \
         the NDK it manages under ~/.rusk/ndk/... automatically.",
    );

    let host_tag = if cfg!(target_os = "windows") {
        "windows-x86_64"
    } else if cfg!(target_os = "macos") {
        "darwin-x86_64"
    } else {
        "linux-x86_64"
    };

    let sysroot = std::path::Path::new(&ndk_home)
        .join("toolchains")
        .join("llvm")
        .join("prebuilt")
        .join(host_tag)
        .join("sysroot");
    let include_dir = sysroot.join("usr").join("include");

    let headers = [
        "android/native_activity.h",
        "android/native_window.h",
        "android/looper.h",
        "android/input.h",
        "android/asset_manager.h",
        "android/log.h",
    ];

    let mut builder = bindgen::Builder::default()
        .clang_arg(format!("--sysroot={}", sysroot.display()))
        .clang_arg(format!("-I{}", include_dir.display()))
        // Only the symbols an app loop actually needs -- an unfiltered
        // bind of the whole sysroot pulls in far more than this project
        // uses and slows every build down for no benefit.
        .allowlist_function("ANativeActivity_.*")
        .allowlist_function("ANativeWindow_.*")
        .allowlist_function("ALooper_.*")
        .allowlist_function("AInputQueue_.*")
        .allowlist_function("AInputEvent_.*")
        .allowlist_function("AMotionEvent_.*")
        .allowlist_function("AKeyEvent_.*")
        .allowlist_function("AAssetManager_.*")
        .allowlist_function("AAsset_.*")
        .allowlist_function("__android_log_.*")
        .allowlist_type("ANativeActivity.*")
        .allowlist_type("ARect")
        .derive_default(true);

    for header in headers {
        let path = include_dir.join(header);
        builder = builder.header(path.to_string_lossy().into_owned());
    }

    let bindings = builder
        .generate()
        .expect(
            "bindgen failed to generate NDK bindings -- is libclang installed? \
             (Debian/Ubuntu: `apt install libclang-dev`; Windows: install LLVM \
             and set LIBCLANG_PATH to its `bin` directory; macOS: `xcode-select --install`)",
        );

    let out_dir = std::path::PathBuf::from(std::env::var("OUT_DIR").unwrap());
    bindings
        .write_to_file(out_dir.join("ndk_bindings.rs"))
        .expect("failed to write generated NDK bindings");
}
"#;
    assert_eq!(generate_build_rs(), want);
}

#[test]
fn an_icon_is_named() {
    let mut m = app("my_app");
    assert!(!generate_manifest(&m, "my_app", false).contains("android:icon"));
    m.app.icon = Some("art/icon.png".to_string());
    let text = generate_manifest(&m, "my_app", false);
    assert!(text.contains("android:allowBackup=\"true\" android:icon=\"@drawable/ic_launcher\">\n"));
}
