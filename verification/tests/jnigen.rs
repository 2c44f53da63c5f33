use rusk::jnigen::{
    find_matching_paren, generate_bindings_class, is_known_object_type, is_rust_source, map_rust_type_to_java,
    scan_dir, scan_source, split_top_level_commas, SourceFile,
};
use rusk::path::HostOs;

#[test]
fn the_documented_export_is_found() {
    let text = "#[no_mangle]\npub extern \"system\" fn Java_com_example_app_MainActivity_addNumbers(env: *mut JNIEnv, _class:\n jclass, a: i32, b: i32) -> i32 {\n a + b }";
    let found = scan_source(text, "Java_com_example_app_", "src/lib.rs");
    assert_eq!(found.len(), 1);
    let f = &found[0];
    assert_eq!(f.class_name, "MainActivity");
    assert_eq!(f.method_name, "addNumbers");
    assert_eq!(f.java_return, "int");
    assert_eq!(
        f.java_params,
        [("int".to_string(), "a".to_string()), ("int".to_string(), "b".to_string())]
    );
    assert!(f.unrecognized_types.is_empty());
    let class = generate_bindings_class("com.example.app", "MainActivity", "my_app", &found);
    assert_eq!(
        class,
        "package com.example.app;\n\npublic final class MainActivity {\n    static {\n        System.loadLibrary(\"my_app\");\n    }\n\n    // generated from src/lib.rs :: MainActivity\n    public static native int addNumbers(int a, int b);\n}\n"
    );
}

#[test]
fn unusual_parameters() {
    let text = "fn Java_p_C_m(e: E, c: C, _x: jstring, __: Vec<(u8, u8)>, untyped, cb: fn(i32, i32) -> i32, o: jobject) {}";
    let f = &scan_source(text, "Java_p_", "f")[0];
    let params: Vec<String> = f.java_params.iter().map(|(t, n)| format!("{t} {n}")).collect();
    assert_eq!(params, ["String x", "Object arg1", "Object cb"]);
    assert_eq!(f.unrecognized_types, ["Vec<(u8, u8)>", "fn(i32, i32) -> i32, o: jobject"]);
    assert_eq!(f.java_return, "void");
}

#[test]
fn names_that_are_no_exports_of_the_package() {
    for text in [
        "fn Java_other_C_m(e: E, c: C) {}",
        "fn Java_p_onlyclass(e: E, c: C) {}",
        "fn Java_p__m(e: E, c: C) {}",
        "fn Java_p_C_(e: E, c: C) {}",
        "fn Java_p_C_m",
        "fn Java_p_C_m(e: E, c: C",
        "fn java_p_C_m(e: E)",
    ] {
        assert!(scan_source(text, "Java_p_", "f").is_empty(), "{text}");
    }
}

#[test]
fn classes_and_methods_are_split_at_the_last_underscore() {
    let f = &scan_source("fn Java_p_Outer_Inner_go(e: E, c: C) -> () {", "Java_p_", "f")[0];
    assert_eq!((f.class_name.as_str(), f.method_name.as_str()), ("Outer_Inner", "go"));
    assert_eq!(f.java_return, "void");
}

#[test]
fn types_have_counterparts() {
    for (rust, java) in [
        ("jint", "int"), ("i64", "long"), ("i16", "short"), ("jbyte", "byte"), ("u16", "char"), ("f32", "float"),
        ("jdouble", "double"), ("bool", "boolean"), ("jstring", "String"), ("jbyteArray", "byte[]"),
        ("jobjectArray", "Object[]"), ("()", "void"), ("MyType", "Object"), ("jobject", "Object"),
    ] {
        assert_eq!(map_rust_type_to_java(rust), java, "{rust}");
    }
    assert!(is_known_object_type("jthrowable"));
    assert!(!is_known_object_type("i32"));
}

#[test]
fn brackets_are_matched() {
    let v: Vec<char> = "x(a(b)c)d)".chars().collect();
    assert_eq!(find_matching_paren(&v, 1), Some(7));
    assert_eq!(find_matching_paren(&v, 3), Some(5));
    let v: Vec<char> = "((".chars().collect();
    assert_eq!(find_matching_paren(&v, 0), None);
}

#[test]
fn commas_outside_brackets_split() {
    assert_eq!(split_top_level_commas("a: X<Y, Z>, b: (c, d), [e, f],, "), ["a: X<Y, Z>", "b: (c, d)", "[e, f]"]);
    assert!(split_top_level_commas("  ").is_empty());
}

#[test]
fn only_rust_sources_are_scanned() {
    for (path, want) in [("a/b.rs", true), ("b.rs", true), ("a/.rs", false), (".rs", false), ("b.rs.bak", false), ("..rs", true)] {
        assert_eq!(is_rust_source(HostOs::Linux, path), want, "{path}");
        let std_says = std::path::Path::new(path).extension().and_then(|e| e.to_str()) == Some("rs");
        assert_eq!(want, std_says, "{path}");
    }
    let text = "fn Java_com_x_C_m(e: E, c: C) {}".to_string();
    let files = vec![
        SourceFile { path: "src/a.txt".to_string(), text: text.clone() },
        SourceFile { path: "src/a.rs".to_string(), text },
    ];
    let found = scan_dir(HostOs::Linux, &files, "com.x");
    assert_eq!(found.len(), 1);
    assert_eq!(found[0].source_file, "src/a.rs");
}

#[test]
fn declarations_are_grouped_by_file() {
    let one = |file: &str, name: &str| {
        scan_source(&format!("fn Java_p_C_{name}(e: E, c: C) {{}}"), "Java_p_", file).remove(0)
    };
    let found = vec![one("a.rs", "x"), one("b.rs", "y"), one("a.rs", "z")];
    let class = generate_bindings_class("p", "C", "l", &found);
    let order: Vec<&str> = class
        .lines()
        .filter(|l| l.contains("native"))
        .map(|l| l.trim().trim_start_matches("public static native void "))
        .collect();
    assert_eq!(order, ["x();", "z();", "y();"]);
    assert_eq!(class.matches("// generated from a.rs :: C").count(), 2);
}

#[test]
fn rust_sources_are_what_path_says() {
    for path in ["a.rs", "src/a.rs", ".rs", "src/.rs", "..rs", "a.rs/", "a.rs/.", "a.rs/..", "rs", "a.rs.txt", "a.RS", ""] {
        let want = std::path::Path::new(path).extension().and_then(|e| e.to_str()) == Some("rs");
        assert_eq!(is_rust_source(HostOs::Linux, path), want, "{path:?}");
    }
    assert!(!is_rust_source(HostOs::Windows, "C:.rs"));
    assert!(is_rust_source(HostOs::Windows, "C:\\p\\a.rs"));
}
