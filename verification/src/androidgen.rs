//! The Android side of a project, generated from its manifest: the
//! `AndroidManifest.xml`, resources, the Java shim, and the files of a fresh
//! crate.
use crate::manifest::{ManifestView, Orientation, PackageView, RuskManifest};
use crate::num::{decimal, decimal_digits, decimal_read_back, number_of, push_decimal};
use crate::text::{
    behind_three, chars_of, concat2, contains_in_middle, contains_text, expand, expand_first,
    expand_injective, find_char_from, find_char_props, occurs_at, replace_char, replaced, split_all,
    split_all_of_joined, split_all_without, split_off, split_on, views,
};
use vstd::prelude::*;

verus! {

// ---------------------------------------------------------------------------
// Escaping

/// How a character is written in XML text and attribute values.
pub open spec fn xml_entity(c: char) -> Seq<char> {
    if c == '&' {
        "&amp;"@
    } else if c == '<' {
        "&lt;"@
    } else if c == '>' {
        "&gt;"@
    } else if c == '"' {
        "&quot;"@
    } else if c == '\'' {
        "&apos;"@
    } else {
        seq![c]
    }
}

/// Text as it is written in XML.
pub open spec fn xml_escaped(s: Seq<char>) -> Seq<char> {
    expand(s, |c: char| xml_entity(c))
}

/// Writes text for XML.
pub fn xml_escape(input: &str) -> (r: String)
    ensures
        r@ == xml_escaped(input@),
{
    let v = chars_of(input);
    let mut out = String::new();
    for i in 0..v.len()
        invariant
            out@ == xml_escaped(v@.take(i as int)),
    {
        proof {
            assert(v@.take(i + 1).drop_last() =~= v@.take(i as int));
        }
        let c = v[i];
        let ghost before = out@;
        if c == '&' {
            out.append("&amp;");
        } else if c == '<' {
            out.append("&lt;");
        } else if c == '>' {
            out.append("&gt;");
        } else if c == '"' {
            out.append("&quot;");
        } else if c == '\'' {
            out.append("&apos;");
        } else {
            out.push(c);
            assert(out@ =~= before + seq![c]);
        }
    }
    assert(v@.take(v@.len() as int) =~= v@);
    out
}

/// How a character is written in a TOML basic string.
pub open spec fn toml_char(c: char) -> Seq<char> {
    if c == '\\' {
        "\\\\"@
    } else if c == '"' {
        "\\\""@
    } else {
        seq![c]
    }
}

/// Text as it is written in a TOML basic string.
pub open spec fn toml_escaped(s: Seq<char>) -> Seq<char> {
    expand(s, |c: char| toml_char(c))
}

/// Writes text for a TOML basic string.
pub fn escape_toml_string(s: &str) -> (r: String)
    ensures
        r@ == toml_escaped(s@),
{
    let v = chars_of(s);
    let mut out = String::new();
    for i in 0..v.len()
        invariant
            out@ == toml_escaped(v@.take(i as int)),
    {
        proof {
            assert(v@.take(i + 1).drop_last() =~= v@.take(i as int));
        }
        let c = v[i];
        let ghost before = out@;
        if c == '\\' {
            out.append("\\\\");
        } else if c == '"' {
            out.append("\\\"");
        } else {
            out.push(c);
            assert(out@ =~= before + seq![c]);
        }
    }
    assert(v@.take(v@.len() as int) =~= v@);
    out
}

/// What is left of escaped text is free of the characters that XML reads as
/// markup or as the end of an attribute value.
pub proof fn xml_escaped_is_safe(s: Seq<char>)
    ensures
        forall|i: int|
            0 <= i < xml_escaped(s).len() ==> {
                let c = #[trigger] xml_escaped(s)[i];
                c != '<' && c != '>' && c != '"' && c != '\''
            },
    decreases s.len(),
{
    reveal_strlit("&amp;");
    reveal_strlit("&lt;");
    reveal_strlit("&gt;");
    reveal_strlit("&quot;");
    reveal_strlit("&apos;");
    if s.len() > 0 {
        xml_escaped_is_safe(s.drop_last());
        let a = xml_escaped(s.drop_last());
        let b = xml_entity(s.last());
        assert forall|i: int| 0 <= i < (a + b).len() implies {
            let c = #[trigger] (a + b)[i];
            c != '<' && c != '>' && c != '"' && c != '\''
        } by {
            if i < a.len() {
                assert((a + b)[i] == xml_escaped(s.drop_last())[i]);
            } else {
                assert((a + b)[i] == b[i - a.len()]);
            }
        }
    }
}

/// Different texts stay different when they are written in XML.
pub proof fn xml_escape_injective(a: Seq<char>, b: Seq<char>)
    requires
        xml_escaped(a) == xml_escaped(b),
    ensures
        a == b,
{
    reveal_strlit("&amp;");
    reveal_strlit("&lt;");
    reveal_strlit("&gt;");
    reveal_strlit("&quot;");
    reveal_strlit("&apos;");
    let f = |c: char| xml_entity(c);
    assert forall|x: char, y: char| x != y implies !(#[trigger] f(x)).is_prefix_of(#[trigger] f(y)) by {
        if f(x).is_prefix_of(f(y)) {
            assert(f(y).subrange(0, f(x).len() as int)[0] == f(y)[0]);
            if f(x).len() > 1 {
                assert(f(y).subrange(0, f(x).len() as int)[1] == f(y)[1]);
                assert(f(y).subrange(0, f(x).len() as int)[2] == f(y)[2]);
            }
        }
    }
    expand_injective(a, b, f);
}

/// Different texts stay different when they are written in a TOML string.
pub proof fn toml_escape_injective(a: Seq<char>, b: Seq<char>)
    requires
        toml_escaped(a) == toml_escaped(b),
    ensures
        a == b,
{
    reveal_strlit("\\\\");
    reveal_strlit("\\\"");
    let f = |c: char| toml_char(c);
    assert forall|x: char, y: char| x != y implies !(#[trigger] f(x)).is_prefix_of(#[trigger] f(y)) by {
        if f(x).is_prefix_of(f(y)) {
            assert(f(y).subrange(0, f(x).len() as int)[0] == f(y)[0]);
            if f(x).len() > 1 {
                assert(f(y).subrange(0, f(x).len() as int)[1] == f(y)[1]);
            }
        }
    }
    expand_injective(a, b, f);
}

// ---------------------------------------------------------------------------
// AndroidManifest.xml

/// The full name of a permission; a name with a dot is taken as it stands.
pub open spec fn permission_name(perm: Seq<char>) -> Seq<char> {
    if perm.contains('.') {
        perm
    } else {
        "android.permission."@ + perm
    }
}

/// The permission elements for the first `n` permissions.
pub open spec fn permission_lines(perms: Seq<Seq<char>>, n: nat) -> Seq<char>
    decreases n,
{
    if n == 0 || n > perms.len() {
        seq![]
    } else {
        permission_lines(perms, (n - 1) as nat) + "    <uses-permission android:name=\""@
            + xml_escaped(permission_name(perms[n - 1])) + "\" />\n"@
    }
}

/// A truth value as Android writes it.
pub open spec fn bool_text(b: bool) -> Seq<char> {
    if b {
        "true"@
    } else {
        "false"@
    }
}

/// A truth value as Android writes it.
pub fn bool_name(b: bool) -> (r: &'static str)
    ensures
        r@ == bool_text(b),
{
    if b {
        "true"
    } else {
        "false"
    }
}

/// The `<manifest>` tag and the SDK levels.
pub open spec fn manifest_head(m: ManifestView) -> Seq<char> {
    "<?xml version=\"1.0\" encoding=\"utf-8\"?>\n<manifest xmlns:android=\"http://schemas.android.com/apk/res/android\"\n    package=\""@
        + xml_escaped(m.package.id) + "\"\n    android:versionName=\""@ + xml_escaped(
        m.package.version,
    ) + "\">\n    <uses-sdk android:minSdkVersion=\""@ + decimal(m.package.sdk_min as nat)
        + "\" android:targetSdkVersion=\""@ + decimal(m.package.sdk_target as nat) + "\" />\n"@
}

/// The attribute that names the application's icon, where the project has one.
pub open spec fn icon_attribute(icon: Option<Seq<char>>) -> Seq<char> {
    if icon is Some {
        " android:icon=\"@drawable/ic_launcher\""@
    } else {
        ""@
    }
}

/// The `<application>` with its one activity, which hosts the native library.
pub open spec fn manifest_application(
    m: ManifestView,
    lib_name: Seq<char>,
    has_code: bool,
) -> Seq<char> {
    "    <application android:label=\""@ + xml_escaped(m.label()) + "\" android:hasCode=\""@
        + bool_text(has_code) + "\" android:debuggable=\""@ + bool_text(m.app.debuggable)
        + "\" android:allowBackup=\"true\""@ + icon_attribute(m.app.icon)
        + ">\n        <activity android:name=\"android.app.NativeActivity\"\n            android:label=\""@
        + xml_escaped(m.label())
        + "\"\n            android:configChanges=\"orientation|keyboardHidden|screenSize|uiMode\"\n            android:screenOrientation=\""@
        + m.app.orientation.android_value() + "\"\n"@ + (if m.app.fullscreen {
        "            android:theme=\"@android:style/Theme.NoTitleBar.Fullscreen\"\n"@
    } else {
        ""@
    })
        + "            android:exported=\"true\">\n            <meta-data android:name=\"android.app.lib_name\" android:value=\""@
        + lib_name
        + "\" />\n            <intent-filter>\n                <action android:name=\"android.intent.action.MAIN\" />\n                <category android:name=\"android.intent.category.LAUNCHER\" />\n            </intent-filter>\n        </activity>\n    </application>\n"@
}

/// A whole `AndroidManifest.xml`.
pub open spec fn android_manifest(
    m: ManifestView,
    lib_name: Seq<char>,
    has_code: bool,
) -> Seq<char> {
    manifest_head(m) + permission_lines(m.permissions, m.permissions.len()) + manifest_application(
        m,
        lib_name,
        has_code,
    ) + "</manifest>\n"@
}

fn write_head(manifest: &RuskManifest) -> (r: String)
    ensures
        r@ == manifest_head(manifest@),
{
    let mut xml =
        "<?xml version=\"1.0\" encoding=\"utf-8\"?>\n<manifest xmlns:android=\"http://schemas.android.com/apk/res/android\"\n    package=\"".to_owned();
    xml.append(&xml_escape(&manifest.package.id));
    xml.append("\"\n    android:versionName=\"");
    xml.append(&xml_escape(&manifest.package.version));
    xml.append("\">\n    <uses-sdk android:minSdkVersion=\"");
    push_decimal(&mut xml, manifest.package.sdk_min as u64);
    xml.append("\" android:targetSdkVersion=\"");
    push_decimal(&mut xml, manifest.package.sdk_target as u64);
    xml.append("\" />\n");
    xml
}

fn write_permissions(perms: &Vec<String>) -> (r: String)
    ensures
        r@ == permission_lines(views(perms@), perms@.len()),
{
    let mut xml = String::new();
    for i in 0..perms.len()
        invariant
            xml@ == permission_lines(views(perms@), i as nat),
    {
        let perm = &perms[i];
        let v = chars_of(perm);
        let dot = find_char_from(&v, '.', 0);
        proof {
            find_char_props(perm@, '.', 0);
            if dot < v.len() {
                assert(perm@[dot as int] == '.');
            }
        }
        let name = if dot < v.len() {
            perm.clone()
        } else {
            concat2("android.permission.", perm)
        };
        xml.append("    <uses-permission android:name=\"");
        xml.append(&xml_escape(&name));
        xml.append("\" />\n");
        assert(views(perms@)[i as int] == perm@);
    }
    xml
}

fn write_application(manifest: &RuskManifest, lib_name: &str, has_code: bool) -> (r: String)
    ensures
        r@ == manifest_application(manifest@, lib_name@, has_code),
{
    let label = xml_escape(&manifest.app_label());
    let mut xml = "    <application android:label=\"".to_owned();
    xml.append(&label);
    xml.append("\" android:hasCode=\"");
    xml.append(bool_name(has_code));
    xml.append("\" android:debuggable=\"");
    xml.append(bool_name(manifest.app.debuggable));
    xml.append("\" android:allowBackup=\"true\"");
    let icon = if manifest.app.icon.is_some() {
        " android:icon=\"@drawable/ic_launcher\""
    } else {
        ""
    };
    xml.append(icon);
    xml.append(
        ">\n        <activity android:name=\"android.app.NativeActivity\"\n            android:label=\"",
    );
    xml.append(&label);
    xml.append(
        "\"\n            android:configChanges=\"orientation|keyboardHidden|screenSize|uiMode\"\n            android:screenOrientation=\"",
    );
    xml.append(manifest.app.orientation.as_android_value());
    xml.append("\"\n");
    let theme = if manifest.app.fullscreen {
        "            android:theme=\"@android:style/Theme.NoTitleBar.Fullscreen\"\n"
    } else {
        ""
    };
    xml.append(theme);
    xml.append(
        "            android:exported=\"true\">\n            <meta-data android:name=\"android.app.lib_name\" android:value=\"",
    );
    xml.append(lib_name);
    xml.append(
        "\" />\n            <intent-filter>\n                <action android:name=\"android.intent.action.MAIN\" />\n                <category android:name=\"android.intent.category.LAUNCHER\" />\n            </intent-filter>\n        </activity>\n    </application>\n",
    );
    xml
}

/// The `AndroidManifest.xml` of a project. Its activity is Android's own
/// `NativeActivity`, which loads the library named `lib_name`.
pub fn generate_manifest(manifest: &RuskManifest, lib_name: &str, has_code: bool) -> (r: String)
    ensures
        r@ == android_manifest(manifest@, lib_name@, has_code),
{
    let mut xml = write_head(manifest);
    xml.append(&write_permissions(&manifest.permissions.list));
    xml.append(&write_application(manifest, lib_name, has_code));
    xml.append("</manifest>\n");
    xml
}

/// The strings of an application with a label.
pub open spec fn strings_xml(label: Seq<char>) -> Seq<char> {
    "<?xml version=\"1.0\" encoding=\"utf-8\"?>\n<resources>\n    <string name=\"app_name\">"@
        + xml_escaped(label) + "</string>\n</resources>\n"@
}

/// The `res/values/strings.xml` of a project.
pub fn generate_strings_xml(manifest: &RuskManifest) -> (r: String)
    ensures
        r@ == strings_xml(manifest@.label()),
{
    let mut xml =
        "<?xml version=\"1.0\" encoding=\"utf-8\"?>\n<resources>\n    <string name=\"app_name\">".to_owned();
    xml.append(&xml_escape(&manifest.app_label()));
    xml.append("</string>\n</resources>\n");
    xml
}

/// The class that hosts an application with Java code.
pub open spec fn shim_class(id: Seq<char>, name: Seq<char>) -> Seq<char> {
    "package "@ + id + ";\n\npublic class "@ + "RuskShimActivity"@
        + " extends android.app.NativeActivity {\n    static {\n        System.loadLibrary(\""@
        + replaced(name, '-', "_"@) + "\");\n    }\n}\n"@
}

/// The class that hosts an application with Java code, and its source: a
/// subclass of `NativeActivity` in the package that the application id names.
pub fn generate_activity_shim_java(manifest: &RuskManifest) -> (r: (String, String))
    ensures
        r.0@ == "RuskShimActivity"@,
        r.1@ == shim_class(manifest@.package.id, manifest@.package.name),
{
    let class_name = "RuskShimActivity";
    let mut src = "package ".to_owned();
    src.append(&manifest.package.id);
    src.append(";\n\npublic class ");
    src.append(class_name);
    src.append(" extends android.app.NativeActivity {\n    static {\n        System.loadLibrary(\"");
    src.append(&replace_char(&manifest.package.name, '-', "_"));
    src.append("\");\n    }\n}\n");
    (class_name.to_owned(), src)
}

// ---------------------------------------------------------------------------
// What the manifest says

/// What stands between the double quotes of a text, outside and inside in turn: the
/// values of attributes are the parts with odd numbers, each behind the part that ends
/// with its name.
pub open spec fn quoted_parts(text: Seq<char>) -> Seq<Seq<char>> {
    split_all(text, '"')
}

/// The value of the first attribute of a name, looked for from part `i` on.
pub open spec fn attribute_behind(parts: Seq<Seq<char>>, name: Seq<char>, i: nat) -> Option<
    Seq<char>,
>
    decreases parts.len() - i,
{
    if i + 1 >= parts.len() {
        None
    } else if name.push('=').is_suffix_of(parts[i as int]) {
        Some(parts[(i + 1) as int])
    } else {
        attribute_behind(parts, name, i + 2)
    }
}

/// The value of the first attribute of a name in a text of XML.
pub open spec fn attribute_in(text: Seq<char>, name: Seq<char>) -> Option<Seq<char>> {
    attribute_behind(quoted_parts(text), name, 0)
}

proof fn escaped_is_unquoted(s: Seq<char>)
    ensures
        !xml_escaped(s).contains('"'),
{
    xml_escaped_is_safe(s);
}

proof fn decimal_is_unquoted(n: nat)
    ensures
        !decimal(n).contains('"'),
{
    decimal_digits(n);
}

proof fn no_quote_in_both(a: Seq<char>, b: Seq<char>)
    requires
        !a.contains('"'),
        !b.contains('"'),
    ensures
        !(a + b).contains('"'),
{
    if (a + b).contains('"') {
        let i = choose|i: int| 0 <= i < (a + b).len() && (a + b)[i] == '"';
        if i < a.len() {
            assert(a[i] == '"');
        } else {
            assert(b[i - a.len()] == '"');
        }
    }
}

/// The parts of a manifest up to the permissions.
pub open spec fn head_list(m: ManifestView) -> Seq<Seq<char>> {
    seq![
        "<?xml version="@,
        "1.0"@,
        " encoding="@,
        "utf-8"@,
        "?>\n<manifest xmlns:android="@,
        "http://schemas.android.com/apk/res/android"@,
        "\n    package="@,
        xml_escaped(m.package.id),
        "\n    android:versionName="@,
        xml_escaped(m.package.version),
        ">\n    <uses-sdk android:minSdkVersion="@,
        decimal(m.package.sdk_min as nat),
        " android:targetSdkVersion="@,
        decimal(m.package.sdk_target as nat),
    ]
}

#[verifier::rlimit(60)]
proof fn head_parts(m: ManifestView, rest: Seq<char>)
    ensures
        quoted_parts(manifest_head(m) + rest) == head_list(m) + quoted_parts(" />\n"@ + rest),
{
    let q = '"';
    let id = xml_escaped(m.package.id);
    let version = xml_escaped(m.package.version);
    let lowest = decimal(m.package.sdk_min as nat);
    let target = decimal(m.package.sdk_target as nat);
    escaped_is_unquoted(m.package.id);
    escaped_is_unquoted(m.package.version);
    decimal_is_unquoted(m.package.sdk_min as nat);
    decimal_is_unquoted(m.package.sdk_target as nat);
    opening_pieces();
    version_piece();
    lowest_piece();
    target_piece();
    close_piece();
    let s0 = "<?xml version="@;
    split_all_without(s0, q);
    let s1 = s0 + seq![q] + "1.0"@;
    split_on(s0, "1.0"@, q);
    let s2 = s1 + seq![q] + " encoding="@;
    split_on(s1, " encoding="@, q);
    let s3 = s2 + seq![q] + "utf-8"@;
    split_on(s2, "utf-8"@, q);
    let s4 = s3 + seq![q] + "?>\n<manifest xmlns:android="@;
    split_on(s3, "?>\n<manifest xmlns:android="@, q);
    let s5 = s4 + seq![q] + "http://schemas.android.com/apk/res/android"@;
    split_on(s4, "http://schemas.android.com/apk/res/android"@, q);
    let s6 = s5 + seq![q] + "\n    package="@;
    split_on(s5, "\n    package="@, q);
    let s7 = s6 + seq![q] + id;
    split_on(s6, id, q);
    let s8 = s7 + seq![q] + "\n    android:versionName="@;
    split_on(s7, "\n    android:versionName="@, q);
    let s9 = s8 + seq![q] + version;
    split_on(s8, version, q);
    let s10 = s9 + seq![q] + ">\n    <uses-sdk android:minSdkVersion="@;
    split_on(s9, ">\n    <uses-sdk android:minSdkVersion="@, q);
    let s11 = s10 + seq![q] + lowest;
    split_on(s10, lowest, q);
    let s12 = s11 + seq![q] + " android:targetSdkVersion="@;
    split_on(s11, " android:targetSdkVersion="@, q);
    let s13 = s12 + seq![q] + target;
    split_on(s12, target, q);
    let o = "<?xml version=\"1.0\" encoding=\"utf-8\"?>\n<manifest xmlns:android=\"http://schemas.android.com/apk/res/android\"\n    package=\""@;
    assert(o == s6 + seq![q]);
    assert(o + id == s7);
    behind_three(s7, seq![q], "\n    android:versionName="@, seq![q]);
    assert(o + id + "\"\n    android:versionName=\""@ + version == s9);
    behind_three(s9, seq![q], ">\n    <uses-sdk android:minSdkVersion="@, seq![q]);
    behind_three(s11, seq![q], " android:targetSdkVersion="@, seq![q]);
    behind_three(s13, seq![q], " />\n"@, seq![q]);
    assert(manifest_head(m) == s13 + seq![q] + " />\n"@);
    assert(split_all(s13, q) == head_list(m));
    split_all_of_joined(s13, " />\n"@ + rest, q);
    assert(s13.push(q) + (" />\n"@ + rest) =~= s13 + seq![q] + " />\n"@ + rest);
}

proof fn opening_pieces()
    ensures
        "<?xml version=\"1.0\" encoding=\"utf-8\"?>\n<manifest xmlns:android=\"http://schemas.android.com/apk/res/android\"\n    package=\""@ == "<?xml version="@ + seq!['"'] + "1.0"@ + seq!['"'] + " encoding="@ + seq!['"'] + "utf-8"@ + seq!['"'] + "?>\n<manifest xmlns:android="@ + seq!['"'] + "http://schemas.android.com/apk/res/android"@ + seq!['"'] + "\n    package="@ + seq!['"'],
        !"\n    package="@.contains('"'),
        !" encoding="@.contains('"'),
        !"1.0"@.contains('"'),
        !"<?xml version="@.contains('"'),
        !"?>\n<manifest xmlns:android="@.contains('"'),
        !"http://schemas.android.com/apk/res/android"@.contains('"'),
        !"utf-8"@.contains('"'),
{
    reveal_strlit("\n    package=");
    reveal_strlit(" encoding=");
    reveal_strlit("1.0");
    reveal_strlit("<?xml version=");
    reveal_strlit("?>\n<manifest xmlns:android=");
    reveal_strlit("http://schemas.android.com/apk/res/android");
    reveal_strlit("utf-8");
    reveal_strlit("<?xml version=\"1.0\" encoding=\"utf-8\"?>\n<manifest xmlns:android=\"http://schemas.android.com/apk/res/android\"\n    package=\"");
    assert("<?xml version=\"1.0\" encoding=\"utf-8\"?>\n<manifest xmlns:android=\"http://schemas.android.com/apk/res/android\"\n    package=\""@ =~= "<?xml version="@ + seq!['"'] + "1.0"@ + seq!['"'] + " encoding="@ + seq!['"'] + "utf-8"@ + seq!['"'] + "?>\n<manifest xmlns:android="@ + seq!['"'] + "http://schemas.android.com/apk/res/android"@ + seq!['"'] + "\n    package="@ + seq!['"']);
}

proof fn version_piece()
    ensures
        "\"\n    android:versionName=\""@ == seq!['"'] + "\n    android:versionName="@ + seq!['"'],
        !"\n    android:versionName="@.contains('"'),
{
    reveal_strlit("\n    android:versionName=");
    reveal_strlit("\"\n    android:versionName=\"");
    assert("\"\n    android:versionName=\""@ =~= seq!['"'] + "\n    android:versionName="@ + seq!['"']);
}

proof fn lowest_piece()
    ensures
        "\">\n    <uses-sdk android:minSdkVersion=\""@ == seq!['"'] + ">\n    <uses-sdk android:minSdkVersion="@ + seq!['"'],
        !">\n    <uses-sdk android:minSdkVersion="@.contains('"'),
{
    reveal_strlit(">\n    <uses-sdk android:minSdkVersion=");
    reveal_strlit("\">\n    <uses-sdk android:minSdkVersion=\"");
    assert("\">\n    <uses-sdk android:minSdkVersion=\""@ =~= seq!['"'] + ">\n    <uses-sdk android:minSdkVersion="@ + seq!['"']);
}

proof fn target_piece()
    ensures
        "\" android:targetSdkVersion=\""@ == seq!['"'] + " android:targetSdkVersion="@ + seq!['"'],
        !" android:targetSdkVersion="@.contains('"'),
{
    reveal_strlit(" android:targetSdkVersion=");
    reveal_strlit("\" android:targetSdkVersion=\"");
    assert("\" android:targetSdkVersion=\""@ =~= seq!['"'] + " android:targetSdkVersion="@ + seq!['"']);
}

proof fn close_piece()
    ensures
        "\" />\n"@ == seq!['"'] + " />\n"@,
        !" />\n"@.contains('"'),
{
    reveal_strlit(" />\n");
    reveal_strlit("\" />\n");
    assert("\" />\n"@ =~= seq!['"'] + " />\n"@);
}

proof fn permission_piece()
    ensures
        "    <uses-permission android:name=\""@ == "    <uses-permission android:name="@ + seq!['"'],
        !"    <uses-permission android:name="@.contains('"'),
{
    reveal_strlit("    <uses-permission android:name=");
    reveal_strlit("    <uses-permission android:name=\"");
    assert("    <uses-permission android:name=\""@ =~= "    <uses-permission android:name="@ + seq!['"']);
}

proof fn application_piece()
    ensures
        "    <application android:label=\""@ == "    <application android:label="@ + seq!['"'],
        !"    <application android:label="@.contains('"'),
{
    reveal_strlit("    <application android:label=");
    reveal_strlit("    <application android:label=\"");
    assert("    <application android:label=\""@ =~= "    <application android:label="@ + seq!['"']);
}

proof fn code_piece()
    ensures
        "\" android:hasCode=\""@ == seq!['"'] + " android:hasCode="@ + seq!['"'],
        !" android:hasCode="@.contains('"'),
{
    reveal_strlit(" android:hasCode=");
    reveal_strlit("\" android:hasCode=\"");
    assert("\" android:hasCode=\""@ =~= seq!['"'] + " android:hasCode="@ + seq!['"']);
}

proof fn debuggable_piece()
    ensures
        "\" android:debuggable=\""@ == seq!['"'] + " android:debuggable="@ + seq!['"'],
        !" android:debuggable="@.contains('"'),
{
    reveal_strlit(" android:debuggable=");
    reveal_strlit("\" android:debuggable=\"");
    assert("\" android:debuggable=\""@ =~= seq!['"'] + " android:debuggable="@ + seq!['"']);
}

proof fn backup_pieces()
    ensures
        "\" android:allowBackup=\"true\""@ == seq!['"'] + " android:allowBackup="@ + seq!['"'] + "true"@ + seq!['"'] + seq![],
        !" android:allowBackup="@.contains('"'),
        !"true"@.contains('"'),
{
    reveal_strlit(" android:allowBackup=");
    reveal_strlit("true");
    reveal_strlit("\" android:allowBackup=\"true\"");
    assert("\" android:allowBackup=\"true\""@ =~= seq!['"'] + " android:allowBackup="@ + seq!['"'] + "true"@ + seq!['"'] + seq![]);
}

proof fn icon_pieces()
    ensures
        " android:icon=\"@drawable/ic_launcher\""@ == " android:icon="@ + seq!['"'] + "@drawable/ic_launcher"@ + seq!['"'] + seq![],
        !" android:icon="@.contains('"'),
        !"@drawable/ic_launcher"@.contains('"'),
{
    reveal_strlit(" android:icon=");
    reveal_strlit("@drawable/ic_launcher");
    reveal_strlit(" android:icon=\"@drawable/ic_launcher\"");
    assert(" android:icon=\"@drawable/ic_launcher\""@ =~= " android:icon="@ + seq!['"'] + "@drawable/ic_launcher"@ + seq!['"'] + seq![]);
}

proof fn activity_pieces()
    ensures
        ">\n        <activity android:name=\"android.app.NativeActivity\"\n            android:label=\""@ == ">\n        <activity android:name="@ + seq!['"'] + "android.app.NativeActivity"@ + seq!['"'] + "\n            android:label="@ + seq!['"'],
        !"\n            android:label="@.contains('"'),
        !">\n        <activity android:name="@.contains('"'),
        !"android.app.NativeActivity"@.contains('"'),
{
    reveal_strlit("\n            android:label=");
    reveal_strlit(">\n        <activity android:name=");
    reveal_strlit("android.app.NativeActivity");
    reveal_strlit(">\n        <activity android:name=\"android.app.NativeActivity\"\n            android:label=\"");
    assert(">\n        <activity android:name=\"android.app.NativeActivity\"\n            android:label=\""@ =~= ">\n        <activity android:name="@ + seq!['"'] + "android.app.NativeActivity"@ + seq!['"'] + "\n            android:label="@ + seq!['"']);
}

proof fn changes_pieces()
    ensures
        "\"\n            android:configChanges=\"orientation|keyboardHidden|screenSize|uiMode\"\n            android:screenOrientation=\""@ == seq!['"'] + "\n            android:configChanges="@ + seq!['"'] + "orientation|keyboardHidden|screenSize|uiMode"@ + seq!['"'] + "\n            android:screenOrientation="@ + seq!['"'],
        !"\n            android:configChanges="@.contains('"'),
        !"\n            android:screenOrientation="@.contains('"'),
        !"orientation|keyboardHidden|screenSize|uiMode"@.contains('"'),
{
    reveal_strlit("\n            android:configChanges=");
    reveal_strlit("\n            android:screenOrientation=");
    reveal_strlit("orientation|keyboardHidden|screenSize|uiMode");
    reveal_strlit("\"\n            android:configChanges=\"orientation|keyboardHidden|screenSize|uiMode\"\n            android:screenOrientation=\"");
    assert("\"\n            android:configChanges=\"orientation|keyboardHidden|screenSize|uiMode\"\n            android:screenOrientation=\""@ =~= seq!['"'] + "\n            android:configChanges="@ + seq!['"'] + "orientation|keyboardHidden|screenSize|uiMode"@ + seq!['"'] + "\n            android:screenOrientation="@ + seq!['"']);
}

proof fn line_piece()
    ensures
        "\"\n"@ == seq!['"'] + "\n"@,
        !"\n"@.contains('"'),
{
    reveal_strlit("\n");
    reveal_strlit("\"\n");
    assert("\"\n"@ =~= seq!['"'] + "\n"@);
}

proof fn theme_pieces()
    ensures
        "            android:theme=\"@android:style/Theme.NoTitleBar.Fullscreen\"\n"@ == "            android:theme="@ + seq!['"'] + "@android:style/Theme.NoTitleBar.Fullscreen"@ + seq!['"'] + "\n"@,
        !"\n"@.contains('"'),
        !"            android:theme="@.contains('"'),
        !"@android:style/Theme.NoTitleBar.Fullscreen"@.contains('"'),
{
    reveal_strlit("\n");
    reveal_strlit("            android:theme=");
    reveal_strlit("@android:style/Theme.NoTitleBar.Fullscreen");
    reveal_strlit("            android:theme=\"@android:style/Theme.NoTitleBar.Fullscreen\"\n");
    assert("            android:theme=\"@android:style/Theme.NoTitleBar.Fullscreen\"\n"@ =~= "            android:theme="@ + seq!['"'] + "@android:style/Theme.NoTitleBar.Fullscreen"@ + seq!['"'] + "\n"@);
}

proof fn exported_pieces()
    ensures
        "            android:exported=\"true\">\n            <meta-data android:name=\"android.app.lib_name\" android:value=\""@ == "            android:exported="@ + seq!['"'] + "true"@ + seq!['"'] + ">\n            <meta-data android:name="@ + seq!['"'] + "android.app.lib_name"@ + seq!['"'] + " android:value="@ + seq!['"'],
        !"            android:exported="@.contains('"'),
        !" android:value="@.contains('"'),
        !">\n            <meta-data android:name="@.contains('"'),
        !"android.app.lib_name"@.contains('"'),
        !"true"@.contains('"'),
{
    reveal_strlit("            android:exported=");
    reveal_strlit(" android:value=");
    reveal_strlit(">\n            <meta-data android:name=");
    reveal_strlit("android.app.lib_name");
    reveal_strlit("true");
    reveal_strlit("            android:exported=\"true\">\n            <meta-data android:name=\"android.app.lib_name\" android:value=\"");
    assert("            android:exported=\"true\">\n            <meta-data android:name=\"android.app.lib_name\" android:value=\""@ =~= "            android:exported="@ + seq!['"'] + "true"@ + seq!['"'] + ">\n            <meta-data android:name="@ + seq!['"'] + "android.app.lib_name"@ + seq!['"'] + " android:value="@ + seq!['"']);
}

proof fn package_is_named()
    ensures
        !"package"@.push('=').is_suffix_of("<?xml version="@),
        !"package"@.push('=').is_suffix_of(" encoding="@),
        !"package"@.push('=').is_suffix_of("?>\n<manifest xmlns:android="@),
        "package"@.push('=').is_suffix_of("\n    package="@),
{
    reveal_strlit("package");
    let name = "package"@.push('=');
    reveal_strlit("<?xml version=");
    reveal_strlit(" encoding=");
    reveal_strlit("?>\n<manifest xmlns:android=");
    reveal_strlit("\n    package=");
    if name.is_suffix_of("<?xml version="@) {
        let t = "<?xml version="@.subrange(6, 14);
        assert(t[6] == 'n');
        assert(name[6] == 'e');
    }
    if name.is_suffix_of(" encoding="@) {
        let t = " encoding="@.subrange(2, 10);
        assert(t[6] == 'g');
        assert(name[6] == 'e');
    }
    if name.is_suffix_of("?>\n<manifest xmlns:android="@) {
        let t = "?>\n<manifest xmlns:android="@.subrange(19, 27);
        assert(t[6] == 'd');
        assert(name[6] == 'e');
    }
    assert("\n    package="@.subrange(5, 13) =~= name);
}

proof fn version_is_named()
    ensures
        !"android:versionName"@.push('=').is_suffix_of("<?xml version="@),
        !"android:versionName"@.push('=').is_suffix_of(" encoding="@),
        !"android:versionName"@.push('=').is_suffix_of("?>\n<manifest xmlns:android="@),
        !"android:versionName"@.push('=').is_suffix_of("\n    package="@),
        "android:versionName"@.push('=').is_suffix_of("\n    android:versionName="@),
{
    reveal_strlit("android:versionName");
    let name = "android:versionName"@.push('=');
    reveal_strlit("<?xml version=");
    reveal_strlit(" encoding=");
    reveal_strlit("?>\n<manifest xmlns:android=");
    reveal_strlit("\n    package=");
    reveal_strlit("\n    android:versionName=");
    if name.is_suffix_of("?>\n<manifest xmlns:android="@) {
        let t = "?>\n<manifest xmlns:android="@.subrange(7, 27);
        assert(t[18] == 'd');
        assert(name[18] == 'e');
    }
    assert("\n    android:versionName="@.subrange(5, 25) =~= name);
}

proof fn lowest_is_named()
    ensures
        !"android:minSdkVersion"@.push('=').is_suffix_of("<?xml version="@),
        !"android:minSdkVersion"@.push('=').is_suffix_of(" encoding="@),
        !"android:minSdkVersion"@.push('=').is_suffix_of("?>\n<manifest xmlns:android="@),
        !"android:minSdkVersion"@.push('=').is_suffix_of("\n    package="@),
        !"android:minSdkVersion"@.push('=').is_suffix_of("\n    android:versionName="@),
        "android:minSdkVersion"@.push('=').is_suffix_of(">\n    <uses-sdk android:minSdkVersion="@),
{
    reveal_strlit("android:minSdkVersion");
    let name = "android:minSdkVersion"@.push('=');
    reveal_strlit("<?xml version=");
    reveal_strlit(" encoding=");
    reveal_strlit("?>\n<manifest xmlns:android=");
    reveal_strlit("\n    package=");
    reveal_strlit("\n    android:versionName=");
    reveal_strlit(">\n    <uses-sdk android:minSdkVersion=");
    if name.is_suffix_of("?>\n<manifest xmlns:android="@) {
        let t = "?>\n<manifest xmlns:android="@.subrange(5, 27);
        assert(t[20] == 'd');
        assert(name[20] == 'n');
    }
    if name.is_suffix_of("\n    android:versionName="@) {
        let t = "\n    android:versionName="@.subrange(3, 25);
        assert(t[20] == 'e');
        assert(name[20] == 'n');
    }
    assert(">\n    <uses-sdk android:minSdkVersion="@.subrange(16, 38) =~= name);
}

proof fn target_is_named()
    ensures
        !"android:targetSdkVersion"@.push('=').is_suffix_of("<?xml version="@),
        !"android:targetSdkVersion"@.push('=').is_suffix_of(" encoding="@),
        !"android:targetSdkVersion"@.push('=').is_suffix_of("?>\n<manifest xmlns:android="@),
        !"android:targetSdkVersion"@.push('=').is_suffix_of("\n    package="@),
        !"android:targetSdkVersion"@.push('=').is_suffix_of("\n    android:versionName="@),
        !"android:targetSdkVersion"@.push('=').is_suffix_of(">\n    <uses-sdk android:minSdkVersion="@),
        "android:targetSdkVersion"@.push('=').is_suffix_of(" android:targetSdkVersion="@),
{
    reveal_strlit("android:targetSdkVersion");
    let name = "android:targetSdkVersion"@.push('=');
    reveal_strlit("<?xml version=");
    reveal_strlit(" encoding=");
    reveal_strlit("?>\n<manifest xmlns:android=");
    reveal_strlit("\n    package=");
    reveal_strlit("\n    android:versionName=");
    reveal_strlit(">\n    <uses-sdk android:minSdkVersion=");
    reveal_strlit(" android:targetSdkVersion=");
    if name.is_suffix_of("?>\n<manifest xmlns:android="@) {
        let t = "?>\n<manifest xmlns:android="@.subrange(2, 27);
        assert(t[23] == 'd');
        assert(name[23] == 'n');
    }
    if name.is_suffix_of("\n    android:versionName="@) {
        let t = "\n    android:versionName="@.subrange(0, 25);
        assert(t[23] == 'e');
        assert(name[23] == 'n');
    }
    if name.is_suffix_of(">\n    <uses-sdk android:minSdkVersion="@) {
        let t = ">\n    <uses-sdk android:minSdkVersion="@.subrange(13, 38);
        assert(t[13] == 'n');
        assert(name[13] == 't');
    }
    assert(" android:targetSdkVersion="@.subrange(1, 26) =~= name);
}

/// Reading the head of a manifest gives back what the project is: the lowest level and
/// the level it is built for as numbers, the id and the version as they are escaped.
pub proof fn manifest_read_back(m: ManifestView, lib_name: Seq<char>, has_code: bool)
    ensures
        ({
            let text = android_manifest(m, lib_name, has_code);
            &&& attribute_in(text, "package"@) == Some(xml_escaped(m.package.id))
            &&& attribute_in(text, "android:versionName"@) == Some(xml_escaped(m.package.version))
            &&& attribute_in(text, "android:minSdkVersion"@) matches Some(lowest) && number_of(
                lowest,
                u32::MAX as nat,
            ) == Some(m.package.sdk_min as nat)
            &&& attribute_in(text, "android:targetSdkVersion"@) matches Some(target) && number_of(
                target,
                u32::MAX as nat,
            ) == Some(m.package.sdk_target as nat)
        }),
{
    let text = android_manifest(m, lib_name, has_code);
    let rest = permission_lines(m.permissions, m.permissions.len()) + manifest_application(
        m,
        lib_name,
        has_code,
    ) + "</manifest>\n"@;
    assert(text =~= manifest_head(m) + rest);
    head_parts(m, rest);
    let parts = quoted_parts(text);
    let list = head_list(m);
    assert(list.len() == 14);
    assert forall|i: int| 0 <= i < 14 implies parts[i] == list[i] by {}
    decimal_read_back(m.package.sdk_min as nat, u32::MAX as nat);
    decimal_read_back(m.package.sdk_target as nat, u32::MAX as nat);
    package_is_named();
    version_is_named();
    lowest_is_named();
    target_is_named();
    reveal_with_fuel(attribute_behind, 8);
}

/// The level that a project is compiled against is not in its manifest; the lowest
/// level and the level that it is built for are, so no two of them share one.
pub proof fn manifest_tells_levels(
    a: ManifestView,
    b: ManifestView,
    lib_name: Seq<char>,
    has_code: bool,
)
    requires
        a == (ManifestView {
            package: PackageView {
                sdk_min: a.package.sdk_min,
                sdk_target: a.package.sdk_target,
                sdk_compile: a.package.sdk_compile,
                ..b.package
            },
            ..b
        }),
    ensures
        android_manifest(a, lib_name, has_code) == android_manifest(b, lib_name, has_code)
            <==> a.package.sdk_min == b.package.sdk_min && a.package.sdk_target
            == b.package.sdk_target,
{
    manifest_read_back(a, lib_name, has_code);
    manifest_read_back(b, lib_name, has_code);
}

/// The permissions of a manifest are those of the project, in their order, each with
/// its full name.
proof fn permission_parts(perms: Seq<Seq<char>>, n: nat, rest: Seq<char>)
    requires
        n <= perms.len(),
    ensures
        ({
            let parts = quoted_parts(" />\n"@ + permission_lines(perms, n) + rest);
            &&& parts.len() >= 2 * n
            &&& parts.skip(2 * n as int) == quoted_parts(" />\n"@ + rest)
            &&& forall|k: int|
                0 <= k < n ==> #[trigger] parts[2 * k] == " />\n"@
                    + "    <uses-permission android:name="@
            &&& forall|k: int|
                0 <= k < n ==> #[trigger] parts[2 * k + 1] == xml_escaped(
                    permission_name(perms[k]),
                )
        }),
    decreases n,
{
    let pre = " />\n"@;
    let all = pre + permission_lines(perms, n) + rest;
    let parts = quoted_parts(all);
    if n == 0 {
        assert(all =~= pre + rest);
        assert(parts.skip(0) =~= parts);
    } else {
        let name = "    <uses-permission android:name="@;
        let value = xml_escaped(permission_name(perms[n - 1]));
        let more = "    <uses-permission android:name=\""@ + value + "\" />\n"@ + rest;
        permission_parts(perms, (n - 1) as nat, more);
        assert(all =~= pre + permission_lines(perms, (n - 1) as nat) + more);
        permission_piece();
        close_piece();
        escaped_is_unquoted(permission_name(perms[n - 1]));
        no_quote_in_both(pre, name);
        split_off(value, pre + rest, '"');
        split_off(pre + name, value.push('"') + (pre + rest), '"');
        assert((pre + name).push('"') + (value.push('"') + (pre + rest)) =~= pre + more);
        let tail = parts.skip(2 * (n - 1));
        assert(tail == seq![pre + name] + (seq![value] + quoted_parts(pre + rest)));
        assert(parts.skip(2 * n as int) =~= quoted_parts(pre + rest)) by {
            assert(tail.len() == 2 + quoted_parts(pre + rest).len());
            assert forall|i: int| 0 <= i < quoted_parts(pre + rest).len() implies parts.skip(
                2 * n as int,
            )[i] == quoted_parts(pre + rest)[i] by {
                assert(parts.skip(2 * n as int)[i] == tail[i + 2]);
            }
        }
        assert(parts[2 * (n - 1)] == tail[0]);
        assert(parts[2 * (n - 1) + 1] == tail[1]);
    }
}

proof fn bool_text_is_unquoted(b: bool)
    ensures
        !bool_text(b).contains('"'),
{
    reveal_strlit("true");
    reveal_strlit("false");
}

proof fn orientation_is_unquoted(v: Orientation)
    ensures
        !v.android_value().contains('"'),
{
    reveal_strlit("unspecified");
    reveal_strlit("portrait");
    reveal_strlit("landscape");
    reveal_strlit("sensor");
}

/// The first parts of an application, which stand before its icon.
spec fn application_list(m: ManifestView, has_code: bool) -> Seq<Seq<char>> {
    seq![
        " />\n"@ + "    <application android:label="@,
        xml_escaped(m.label()),
        " android:hasCode="@,
        bool_text(has_code),
        " android:debuggable="@,
        bool_text(m.app.debuggable),
        " android:allowBackup="@,
        "true"@,
    ]
}

/// The parts of its icon.
spec fn icon_list(m: ManifestView) -> Seq<Seq<char>> {
    if m.app.icon is Some {
        seq![" android:icon="@, "@drawable/ic_launcher"@]
    } else {
        seq![]
    }
}

/// The parts of its activity, up to the orientation.
spec fn activity_list(m: ManifestView) -> Seq<Seq<char>> {
    seq![
        ">\n        <activity android:name="@,
        "android.app.NativeActivity"@,
        "\n            android:label="@,
        xml_escaped(m.label()),
        "\n            android:configChanges="@,
        "orientation|keyboardHidden|screenSize|uiMode"@,
        "\n            android:screenOrientation="@,
        m.app.orientation.android_value(),
    ]
}

/// The parts of its theme and of what is behind it, up to the library.
spec fn theme_list(m: ManifestView) -> Seq<Seq<char>> {
    (if m.app.fullscreen {
        seq![
            "\n"@ + "            android:theme="@,
            "@android:style/Theme.NoTitleBar.Fullscreen"@,
        ]
    } else {
        seq![]
    }) + seq![
        "\n"@ + "            android:exported="@,
        "true"@,
        ">\n            <meta-data android:name="@,
        "android.app.lib_name"@,
        " android:value="@,
    ]
}

proof fn application_parts(m: ManifestView, has_code: bool, rest: Seq<char>)
    ensures
        quoted_parts(
            " />\n"@ + ("    <application android:label=\""@ + xml_escaped(m.label())
                + "\" android:hasCode=\""@ + bool_text(has_code) + "\" android:debuggable=\""@
                + bool_text(m.app.debuggable) + "\" android:allowBackup=\"true\""@) + rest,
        ) == application_list(m, has_code) + quoted_parts(rest),
{
    let q = '"';
    let pre = " />\n"@;
    let label = xml_escaped(m.label());
    escaped_is_unquoted(m.label());
    bool_text_is_unquoted(has_code);
    bool_text_is_unquoted(m.app.debuggable);
    close_piece();
    application_piece();
    code_piece();
    debuggable_piece();
    backup_pieces();
    no_quote_in_both(pre, "    <application android:label="@);
    let s0 = pre + "    <application android:label="@;
    split_all_without(s0, q);
    let s1 = s0 + seq![q] + label;
    split_on(s0, label, q);
    let s2 = s1 + seq![q] + " android:hasCode="@;
    split_on(s1, " android:hasCode="@, q);
    let s3 = s2 + seq![q] + bool_text(has_code);
    split_on(s2, bool_text(has_code), q);
    let s4 = s3 + seq![q] + " android:debuggable="@;
    split_on(s3, " android:debuggable="@, q);
    let s5 = s4 + seq![q] + bool_text(m.app.debuggable);
    split_on(s4, bool_text(m.app.debuggable), q);
    let s6 = s5 + seq![q] + " android:allowBackup="@;
    split_on(s5, " android:allowBackup="@, q);
    let s7 = s6 + seq![q] + "true"@;
    split_on(s6, "true"@, q);
    let text = "    <application android:label=\""@ + label + "\" android:hasCode=\""@ + bool_text(
        has_code,
    ) + "\" android:debuggable=\""@ + bool_text(m.app.debuggable)
        + "\" android:allowBackup=\"true\""@;
    let a = "    <application android:label="@;
    behind_three(pre, a, seq![q], label);
    let x1 = a + seq![q] + label;
    assert(pre + x1 == s1);
    behind_three(pre, x1, "\" android:hasCode=\""@, bool_text(has_code));
    let x2 = x1 + "\" android:hasCode=\""@ + bool_text(has_code);
    behind_three(s1, seq![q], " android:hasCode="@, seq![q]);
    assert(pre + x2 == s3);
    behind_three(pre, x2, "\" android:debuggable=\""@, bool_text(m.app.debuggable));
    let x3 = x2 + "\" android:debuggable=\""@ + bool_text(m.app.debuggable);
    behind_three(s3, seq![q], " android:debuggable="@, seq![q]);
    assert(pre + x3 == s5);
    assert(text == x3 + "\" android:allowBackup=\"true\""@);
    behind_three(pre, x3, "\" android:allowBackup=\"true\""@, seq![]);
    assert(pre + text == s5 + "\" android:allowBackup=\"true\""@);
    assert("\" android:allowBackup=\"true\""@ =~= seq![q] + " android:allowBackup="@ + seq![q]
        + "true"@ + seq![q]);
    behind_three(s5, seq![q], " android:allowBackup="@, seq![q] + "true"@ + seq![q]);
    assert(s5 + (seq![q] + " android:allowBackup="@ + seq![q] + "true"@ + seq![q]) =~= s7 + seq![
        q,
    ]);
    assert(split_all(s7, q) == application_list(m, has_code));
    split_all_of_joined(s7, rest, q);
    assert(s7.push(q) + rest =~= s7 + seq![q] + rest);
}

proof fn icon_parts(m: ManifestView, rest: Seq<char>)
    ensures
        quoted_parts(icon_attribute(m.app.icon) + rest) == icon_list(m) + quoted_parts(rest),
{
    if m.app.icon is Some {
        icon_pieces();
        split_off("@drawable/ic_launcher"@, rest, '"');
        let tail = "@drawable/ic_launcher"@.push('"') + rest;
        split_off(" android:icon="@, tail, '"');
        assert(" android:icon="@.push('"') + tail =~= icon_attribute(m.app.icon) + rest);
        assert(icon_list(m) + quoted_parts(rest) =~= seq![" android:icon="@] + (
        seq!["@drawable/ic_launcher"@] + quoted_parts(rest)));
    } else {
        reveal_strlit("");
        assert(icon_attribute(m.app.icon) + rest =~= rest);
        assert(icon_list(m) + quoted_parts(rest) =~= quoted_parts(rest));
    }
}

proof fn activity_parts(m: ManifestView, rest: Seq<char>)
    ensures
        quoted_parts(
            ">\n        <activity android:name=\"android.app.NativeActivity\"\n            android:label=\""@
                + xml_escaped(m.label())
                + "\"\n            android:configChanges=\"orientation|keyboardHidden|screenSize|uiMode\"\n            android:screenOrientation=\""@
                + m.app.orientation.android_value() + "\"\n"@ + rest,
        ) == activity_list(m) + quoted_parts("\n"@ + rest),
{
    let q = '"';
    let label = xml_escaped(m.label());
    let value = m.app.orientation.android_value();
    escaped_is_unquoted(m.label());
    orientation_is_unquoted(m.app.orientation);
    activity_pieces();
    changes_pieces();
    line_piece();
    let s0 = ">\n        <activity android:name="@;
    split_all_without(s0, q);
    let s1 = s0 + seq![q] + "android.app.NativeActivity"@;
    split_on(s0, "android.app.NativeActivity"@, q);
    let s2 = s1 + seq![q] + "\n            android:label="@;
    split_on(s1, "\n            android:label="@, q);
    let s3 = s2 + seq![q] + label;
    split_on(s2, label, q);
    let s4 = s3 + seq![q] + "\n            android:configChanges="@;
    split_on(s3, "\n            android:configChanges="@, q);
    let s5 = s4 + seq![q] + "orientation|keyboardHidden|screenSize|uiMode"@;
    split_on(s4, "orientation|keyboardHidden|screenSize|uiMode"@, q);
    let s6 = s5 + seq![q] + "\n            android:screenOrientation="@;
    split_on(s5, "\n            android:screenOrientation="@, q);
    let s7 = s6 + seq![q] + value;
    split_on(s6, value, q);
    let a =
        ">\n        <activity android:name=\"android.app.NativeActivity\"\n            android:label=\""@;
    let c =
        "\"\n            android:configChanges=\"orientation|keyboardHidden|screenSize|uiMode\"\n            android:screenOrientation=\""@;
    assert(a == s2 + seq![q]);
    assert(a + label == s3);
    assert(s3 + c =~= s6 + seq![q]);
    assert(a + label + c + value == s7);
    assert(s7 + "\"\n"@ + rest =~= s7 + seq![q] + ("\n"@ + rest));
    assert(split_all(s7, q) == activity_list(m));
    split_all_of_joined(s7, ("\n"@ + rest), q);
    assert(s7.push(q) + ("\n"@ + rest) =~= s7 + seq![q] + ("\n"@ + rest));
}

proof fn exported_parts(rest: Seq<char>)
    ensures
        quoted_parts(
            "\n"@
                + "            android:exported=\"true\">\n            <meta-data android:name=\"android.app.lib_name\" android:value=\""@
                + rest,
        ) == seq![
            "\n"@ + "            android:exported="@,
            "true"@,
            ">\n            <meta-data android:name="@,
            "android.app.lib_name"@,
            " android:value="@,
        ] + quoted_parts(rest),
{
    let q = '"';
    line_piece();
    exported_pieces();
    no_quote_in_both("\n"@, "            android:exported="@);
    let s0 = "\n"@ + "            android:exported="@;
    split_all_without(s0, q);
    let s1 = s0 + seq![q] + "true"@;
    split_on(s0, "true"@, q);
    let s2 = s1 + seq![q] + ">\n            <meta-data android:name="@;
    split_on(s1, ">\n            <meta-data android:name="@, q);
    let s3 = s2 + seq![q] + "android.app.lib_name"@;
    split_on(s2, "android.app.lib_name"@, q);
    let s4 = s3 + seq![q] + " android:value="@;
    split_on(s3, " android:value="@, q);
    let e =
        "            android:exported=\"true\">\n            <meta-data android:name=\"android.app.lib_name\" android:value=\""@;
    assert("\n"@ + e + rest =~= s4 + seq![q] + rest);
    split_all_of_joined(s4, rest, q);
    assert(s4.push(q) + rest =~= s4 + seq![q] + rest);
}

proof fn theme_parts(m: ManifestView, rest: Seq<char>)
    ensures
        quoted_parts(
            "\n"@ + (if m.app.fullscreen {
                "            android:theme=\"@android:style/Theme.NoTitleBar.Fullscreen\"\n"@
            } else {
                ""@
            })
                + "            android:exported=\"true\">\n            <meta-data android:name=\"android.app.lib_name\" android:value=\""@
                + rest,
        ) == theme_list(m) + quoted_parts(rest),
{
    let e =
        "            android:exported=\"true\">\n            <meta-data android:name=\"android.app.lib_name\" android:value=\""@;
    exported_parts(rest);
    let tail = "\n"@ + e + rest;
    if m.app.fullscreen {
        theme_pieces();
        line_piece();
        let name = "            android:theme="@;
        let value = "@android:style/Theme.NoTitleBar.Fullscreen"@;
        no_quote_in_both("\n"@, name);
        split_off(value, tail, '"');
        split_off("\n"@ + name, value.push('"') + tail, '"');
        let theme = "            android:theme=\"@android:style/Theme.NoTitleBar.Fullscreen\"\n"@;
        assert(theme == name + seq!['"'] + value + seq!['"'] + "\n"@);
        assert(("\n"@ + name).push('"') + (value.push('"') + tail) =~= "\n"@ + theme + e + rest);
        assert(theme_list(m) + quoted_parts(rest) =~= seq!["\n"@ + name] + (seq![value]
            + quoted_parts(tail)));
    } else {
        reveal_strlit("");
        assert("\n"@ + ""@ =~= "\n"@);
        assert(theme_list(m) + quoted_parts(rest) =~= quoted_parts(tail));
    }
}

/// What the parts of a manifest behind the permissions are.
#[verifier::rlimit(60)]
proof fn whole_application_parts(
    m: ManifestView,
    lib_name: Seq<char>,
    has_code: bool,
    rest: Seq<char>,
)
    requires
        !lib_name.contains('"'),
    ensures
        ({
            let lists = application_list(m, has_code) + icon_list(m) + activity_list(m)
                + theme_list(m);
            let parts = quoted_parts(" />\n"@ + manifest_application(m, lib_name, has_code) + rest);
            parts.len() > lists.len() && lists.push(lib_name).is_prefix_of(parts)
        }),
{
    let a = "    <application android:label=\""@ + xml_escaped(m.label())
        + "\" android:hasCode=\""@ + bool_text(has_code) + "\" android:debuggable=\""@ + bool_text(
        m.app.debuggable,
    ) + "\" android:allowBackup=\"true\""@;
    let v0 =
        ">\n        <activity android:name=\"android.app.NativeActivity\"\n            android:label=\""@;
    let v1 =
        "\"\n            android:configChanges=\"orientation|keyboardHidden|screenSize|uiMode\"\n            android:screenOrientation=\""@;
    let v = v0 + xml_escaped(m.label()) + v1 + m.app.orientation.android_value() + "\"\n"@;
    let theme = if m.app.fullscreen {
        "            android:theme=\"@android:style/Theme.NoTitleBar.Fullscreen\"\n"@
    } else {
        ""@
    };
    let e =
        "            android:exported=\"true\">\n            <meta-data android:name=\"android.app.lib_name\" android:value=\""@;
    let end =
        "\" />\n            <intent-filter>\n                <action android:name=\"android.intent.action.MAIN\" />\n                <category android:name=\"android.intent.category.LAUNCHER\" />\n            </intent-filter>\n        </activity>\n    </application>\n"@;
    let r4 = lib_name + (end + rest);
    let r3 = theme + e + r4;
    let r2 = v + r3;
    let r1 = icon_attribute(m.app.icon) + r2;
    assert(" />\n"@ + manifest_application(m, lib_name, has_code) + rest =~= " />\n"@ + a + r1);
    application_parts(m, has_code, r1);
    icon_parts(m, r2);
    activity_parts(m, r3);
    assert("\n"@ + r3 =~= "\n"@ + theme + e + r4);
    theme_parts(m, r4);
    assert(end[0] == '"') by {
        reveal_strlit(
            "\" />\n            <intent-filter>\n                <action android:name=\"android.intent.action.MAIN\" />\n                <category android:name=\"android.intent.category.LAUNCHER\" />\n            </intent-filter>\n        </activity>\n    </application>\n",
        );
    }
    end_begins_with_quote();
    let last = end.skip(1) + rest;
    assert(r4 =~= lib_name.push('"') + last);
    split_off(lib_name, last, '"');
    let lists = application_list(m, has_code) + icon_list(m) + activity_list(m) + theme_list(m);
    let parts = quoted_parts(" />\n"@ + manifest_application(m, lib_name, has_code) + rest);
    assert(parts =~= lists + (seq![lib_name] + quoted_parts(last)));
    assert(parts.subrange(0, (lists.len() + 1) as int) =~= lists.push(lib_name));
}

proof fn end_begins_with_quote()
    ensures
        "\" />\n            <intent-filter>\n                <action android:name=\"android.intent.action.MAIN\" />\n                <category android:name=\"android.intent.category.LAUNCHER\" />\n            </intent-filter>\n        </activity>\n    </application>\n"@.len()
            > 0,
{
    reveal_strlit(
        "\" />\n            <intent-filter>\n                <action android:name=\"android.intent.action.MAIN\" />\n                <category android:name=\"android.intent.category.LAUNCHER\" />\n            </intent-filter>\n        </activity>\n    </application>\n",
    );
}

/// Behind the SDK levels a manifest asks for the permissions of the project, in their
/// order, a short name with the prefix that it stands for. Then come the label, whether
/// there is code, whether it can be debugged, the icon where the project has one, the
/// native activity with the label again and the orientation, the full-screen theme
/// exactly where the project asks for it, and the library that is loaded.
#[verifier::rlimit(60)]
pub proof fn manifest_says_what_project_is(m: ManifestView, lib_name: Seq<char>, has_code: bool)
    requires
        !lib_name.contains('"'),
    ensures
        ({
            let parts = quoted_parts(android_manifest(m, lib_name, has_code));
            let n = (14 + 2 * m.permissions.len()) as int;
            let i = n + (if m.app.icon is Some {
                10int
            } else {
                8int
            });
            let l = i + (if m.app.fullscreen {
                15int
            } else {
                13int
            });
            &&& parts.len() > l
            &&& forall|k: int|
                0 <= k < m.permissions.len() ==> #[trigger] parts[14 + 2 * k + 1] == xml_escaped(
                    if m.permissions[k].contains('.') {
                        m.permissions[k]
                    } else {
                        "android.permission."@ + m.permissions[k]
                    },
                )
            &&& "<application android:label="@.is_suffix_of(parts[n])
            &&& parts[n + 1] == xml_escaped(m.label())
            &&& parts[n + 2] == " android:hasCode="@
            &&& parts[n + 3] == if has_code { "true"@ } else { "false"@ }
            &&& parts[n + 4] == " android:debuggable="@
            &&& parts[n + 5] == if m.app.debuggable { "true"@ } else { "false"@ }
            &&& m.app.icon is Some ==> parts[n + 8] == " android:icon="@ && parts[n + 9]
                == "@drawable/ic_launcher"@
            &&& parts[i + 1] == "android.app.NativeActivity"@
            &&& parts[i + 2] == "\n            android:label="@
            &&& parts[i + 3] == xml_escaped(m.label())
            &&& parts[i + 6] == "\n            android:screenOrientation="@
            &&& parts[i + 7] == m.app.orientation.android_value()
            &&& m.app.fullscreen ==> parts[i + 9] == "@android:style/Theme.NoTitleBar.Fullscreen"@
            &&& parts[l - 4] == "true"@
            &&& parts[l - 2] == "android.app.lib_name"@
            &&& parts[l - 1] == " android:value="@
            &&& parts[l] == lib_name
        }),
{
    let text = android_manifest(m, lib_name, has_code);
    let end = "</manifest>\n"@;
    let app = manifest_application(m, lib_name, has_code);
    let perms = permission_lines(m.permissions, m.permissions.len());
    assert(text =~= manifest_head(m) + (perms + (app + end)));
    head_parts(m, perms + (app + end));
    assert(" />\n"@ + (perms + (app + end)) =~= " />\n"@ + perms + (app + end));
    permission_parts(m.permissions, m.permissions.len(), app + end);
    assert(" />\n"@ + (app + end) =~= " />\n"@ + app + end);
    whole_application_parts(m, lib_name, has_code, end);
    let parts = quoted_parts(text);
    let behind = quoted_parts(" />\n"@ + perms + (app + end));
    let tail = quoted_parts(" />\n"@ + app + end);
    assert(parts == head_list(m) + behind);
    assert(head_list(m).len() == 14);
    let lists = application_list(m, has_code) + icon_list(m) + activity_list(m) + theme_list(m);
    let n = (14 + 2 * m.permissions.len()) as int;
    assert forall|k: int| 0 <= k < m.permissions.len() implies #[trigger] parts[14 + 2 * k + 1]
        == xml_escaped(
        if m.permissions[k].contains('.') {
            m.permissions[k]
        } else {
            "android.permission."@ + m.permissions[k]
        },
    ) by {
        assert(parts[14 + 2 * k + 1] == behind[2 * k + 1]);
    }
    assert forall|j: int| 0 <= j < tail.len() implies parts[n + j] == #[trigger] tail[j] by {
        assert(behind.skip(2 * m.permissions.len() as int)[j] == behind[2 * m.permissions.len() + j]);
    }
    assert forall|j: int| 0 <= j <= lists.len() implies #[trigger] tail[j] == lists.push(
        lib_name,
    )[j] by {
        assert(tail.subrange(0, (lists.len() + 1) as int)[j] == tail[j]);
    }
    let first = application_list(m, has_code);
    let icon = icon_list(m);
    let activity = activity_list(m);
    let theme = theme_list(m);
    assert(first.len() == 8 && activity.len() == 8);
    assert forall|j: int| 0 <= j < 8 implies parts[n + j] == #[trigger] first[j] by {
        assert(tail[j] == lists[j]);
    }
    assert forall|j: int| 0 <= j < icon.len() implies parts[n + 8 + j] == #[trigger] icon[j] by {
        assert(tail[8 + j] == lists[8 + j]);
    }
    assert forall|j: int| 0 <= j < 8 implies parts[n + 8 + icon.len() + j]
        == #[trigger] activity[j] by {
        assert(tail[8 + icon.len() + j] == lists[8 + icon.len() + j]);
    }
    assert forall|j: int| 0 <= j < theme.len() implies parts[n + 16 + icon.len() + j]
        == #[trigger] theme[j] by {
        assert(tail[16 + icon.len() + j] == lists[16 + icon.len() + j]);
    }
    assert(parts[n + lists.len()] == lib_name) by {
        assert(tail[lists.len() as int] == lib_name);
    }
    let t = theme.len() as int;
    assert(theme[t - 4] == "true"@ && theme[t - 2] == "android.app.lib_name"@);
    assert(theme[t - 1] == " android:value="@);
    assert(first[1] == xml_escaped(m.label()) && first[2] == " android:hasCode="@);
    assert(first[3] == bool_text(has_code) && first[4] == " android:debuggable="@);
    assert(first[5] == bool_text(m.app.debuggable));
    assert(activity[1] == "android.app.NativeActivity"@);
    assert(activity[2] == "\n            android:label="@);
    assert(activity[3] == xml_escaped(m.label()));
    assert(activity[6] == "\n            android:screenOrientation="@);
    assert(activity[7] == m.app.orientation.android_value());
    if m.app.icon is Some {
        assert(icon[0] == " android:icon="@ && icon[1] == "@drawable/ic_launcher"@);
    }
    if m.app.fullscreen {
        assert(theme[1] == "@android:style/Theme.NoTitleBar.Fullscreen"@);
    }
    let label_part = " />\n"@ + "    <application android:label="@;
    assert(first[0] == label_part);
    assert("<application android:label="@.is_suffix_of(label_part)) by {
        application_ends();
    }
}

proof fn application_ends()
    ensures
        "<application android:label="@.is_suffix_of(
            " />\n"@ + "    <application android:label="@,
        ),
{
    reveal_strlit("<application android:label=");
    reveal_strlit("    <application android:label=");
    reveal_strlit(" />\n");
    let s = " />\n"@ + "    <application android:label="@;
    assert(s.subrange(s.len() - 27, s.len() as int) =~= "<application android:label="@);
}

/// What a text of XML stands for: the five entities read as their characters, all else
/// as it is.
pub open spec fn xml_read(s: Seq<char>) -> Seq<char>
    decreases s.len(),
{
    if s.len() == 0 {
        seq![]
    } else if s.len() >= 5 && occurs_at(s, "&amp;"@, 0) {
        seq!['&'] + xml_read(s.skip(5))
    } else if s.len() >= 4 && occurs_at(s, "&lt;"@, 0) {
        seq!['<'] + xml_read(s.skip(4))
    } else if s.len() >= 4 && occurs_at(s, "&gt;"@, 0) {
        seq!['>'] + xml_read(s.skip(4))
    } else if s.len() >= 6 && occurs_at(s, "&quot;"@, 0) {
        seq!['"'] + xml_read(s.skip(6))
    } else if s.len() >= 6 && occurs_at(s, "&apos;"@, 0) {
        seq!['\''] + xml_read(s.skip(6))
    } else {
        seq![s[0]] + xml_read(s.skip(1))
    }
}

/// Reading escaped text gives the text back.
pub proof fn xml_escape_read_back(s: Seq<char>)
    ensures
        xml_read(xml_escaped(s)) == s,
    decreases s.len(),
{
    if s.len() > 0 {
        let f = |c: char| xml_entity(c);
        expand_first(s, f);
        let rest = s.drop_first();
        xml_escape_read_back(rest);
        let t = xml_escaped(s);
        let e = xml_entity(s[0]);
        assert(t == e + xml_escaped(rest));
        assert(t.skip(e.len() as int) =~= xml_escaped(rest));
        reveal_strlit("&amp;");
        reveal_strlit("&lt;");
        reveal_strlit("&gt;");
        reveal_strlit("&quot;");
        reveal_strlit("&apos;");
        assert(t.subrange(0, e.len() as int) =~= e);
        assert(e.len() > 0 && t[0] == e[0]);
        if e.len() > 1 {
            assert(t[1] == e[1]);
        }
        assert forall|p: Seq<char>| #[trigger] occurs_at(t, p, 0) && p.len() > 1 implies t[0] == p[0]
            && t[1] == p[1] by {
            assert(t.subrange(0, p.len() as int)[0] == p[0]);
            assert(t.subrange(0, p.len() as int)[1] == p[1]);
        }
        if e.len() > 2 {
            assert(t[2] == e[2]);
        }
        assert(seq![s[0]] + rest =~= s);
    }
}

/// What a basic TOML string stands for, as far as it holds escapes of one character.
pub open spec fn toml_read(s: Seq<char>) -> Seq<char>
    decreases s.len(),
{
    if s.len() == 0 {
        seq![]
    } else if s[0] == '\\' && s.len() > 1 {
        seq![s[1]] + toml_read(s.skip(2))
    } else {
        seq![s[0]] + toml_read(s.skip(1))
    }
}

/// Reading an escaped string gives the string back.
pub proof fn toml_escape_read_back(s: Seq<char>)
    ensures
        toml_read(toml_escaped(s)) == s,
    decreases s.len(),
{
    if s.len() > 0 {
        let f = |c: char| toml_char(c);
        expand_first(s, f);
        let rest = s.drop_first();
        toml_escape_read_back(rest);
        reveal_strlit("\\\\");
        reveal_strlit("\\\"");
        let t = toml_escaped(s);
        let e = toml_char(s[0]);
        assert(t == e + toml_escaped(rest));
        assert(t.skip(e.len() as int) =~= toml_escaped(rest));
        assert(t[0] == e[0]);
        if e.len() > 1 {
            assert(t[1] == e[1]);
        }
        assert(seq![s[0]] + rest =~= s);
    }
}

/// The strings of an application hold its label.
pub proof fn strings_hold_label(label: Seq<char>)
    ensures
        contains_text(
            strings_xml(label),
            "<string name=\"app_name\">"@ + xml_escaped(label) + "</string>"@,
        ),
{
    let head =
        "<?xml version=\"1.0\" encoding=\"utf-8\"?>\n<resources>\n    <string name=\"app_name\">"@;
    let a = "<string name=\"app_name\">"@;
    let n = (head.len() - a.len()) as int;
    assert(head =~= head.take(n) + a && a.len() <= head.len()) by {
        reveal_strlit(
            "<?xml version=\"1.0\" encoding=\"utf-8\"?>\n<resources>\n    <string name=\"app_name\">",
        );
        reveal_strlit("<string name=\"app_name\">");
    }
    let end = "</string>\n</resources>\n"@;
    assert(end =~= "</string>"@ + end.skip(9)) by {
        reveal_strlit("</string>\n</resources>\n");
        reveal_strlit("</string>");
    }
    let core = a + xml_escaped(label) + "</string>"@;
    contains_in_middle(head.take(n), core, end.skip(9));
    assert(head.take(n) + core + end.skip(9) =~= strings_xml(label));
}

/// The class that hosts an application is in the package of its id, and loads the
/// library of its name, with underscores for hyphens.
pub proof fn shim_loads_library(id: Seq<char>, name: Seq<char>)
    ensures
        ("package "@ + id + ";"@).is_prefix_of(shim_class(id, name)),
        contains_text(
            shim_class(id, name),
            "System.loadLibrary(\""@ + replaced(name, '-', seq!['_']) + "\");"@,
        ),
        contains_text(
            shim_class(id, name),
            "public class RuskShimActivity extends android.app.NativeActivity {"@,
        ),
{
    let t = shim_class(id, name);
    let r = replaced(name, '-', seq!['_']);
    assert("_"@ =~= seq!['_']) by {
        reveal_strlit("_");
    }
    let c = ";\n\npublic class "@;
    assert(c =~= ";"@ + seq!['\n', '\n'] + c.skip(3) && c.len() == 16) by {
        reveal_strlit(";\n\npublic class ");
        reveal_strlit(";");
    }
    let p = "package "@ + id + ";"@;
    let x = " extends android.app.NativeActivity {\n    static {\n        System.loadLibrary(\""@;
    let y = "System.loadLibrary(\""@;
    let n = (x.len() - y.len()) as int;
    assert(x =~= x.take(n) + y && n > 0) by {
        reveal_strlit(
            " extends android.app.NativeActivity {\n    static {\n        System.loadLibrary(\"",
        );
        reveal_strlit("System.loadLibrary(\"");
    }
    let e = "\");\n    }\n}\n"@;
    assert(e =~= "\");"@ + e.skip(3)) by {
        reveal_strlit("\");\n    }\n}\n");
        reveal_strlit("\");");
    }
    assert(t.subrange(0, p.len() as int) =~= p);
    let before = "package "@ + id + c + "RuskShimActivity"@ + x.take(n);
    let core = y + r + "\");"@;
    contains_in_middle(before, core, e.skip(3));
    assert(before + core + e.skip(3) =~= t);
    let title = "public class RuskShimActivity extends android.app.NativeActivity {"@;
    assert(title =~= c.skip(3) + "RuskShimActivity"@ + x.take(37) && x.len() > 37) by {
        reveal_strlit("public class RuskShimActivity extends android.app.NativeActivity {");
        reveal_strlit(";\n\npublic class ");
        reveal_strlit("RuskShimActivity");
        reveal_strlit(
            " extends android.app.NativeActivity {\n    static {\n        System.loadLibrary(\"",
        );
    }
    let rest = x.skip(37) + r + e;
    contains_in_middle(p + seq!['\n', '\n'], title, rest);
    assert(p + seq!['\n', '\n'] + title + rest =~= t);
}

// ---------------------------------------------------------------------------
// A fresh crate

/// Where the crates that a rendering project builds on are.
#[derive(Debug)]
pub struct RenderCratePathsForCargoToml {
    pub render: String,
    pub ndk_sys: String,
}

/// The line that names the build script.
pub open spec fn build_line(with_bindgen: bool) -> Seq<char> {
    if with_bindgen {
        "build = \"build.rs\"\n"@
    } else {
        ""@
    }
}

/// The build dependencies.
pub open spec fn build_deps(with_bindgen: bool) -> Seq<char> {
    if with_bindgen {
        "\n[target.'cfg(target_os = \"android\")'.build-dependencies]\nbindgen = \"0.69\"\n"@
    } else {
        ""@
    }
}

/// A `Cargo.toml` up to and with the heading of its dependencies.
pub open spec fn cargo_toml_head(project_name: Seq<char>, with_bindgen: bool) -> Seq<char> {
    "[package]\nname = \""@ + project_name + "\"\nversion = \"0.1.0\"\nedition = \"2021\"\n"@
        + build_line(with_bindgen)
        + "\n[lib]\ncrate-type = [\"cdylib\"]\npath = \"src/lib.rs\"\n\n[[bin]]\nname = \""@
        + project_name + "\"\npath = \"src/main.rs\"\n\n[dependencies]\n"@
}

fn write_cargo_toml_head(project_name: &str, with_bindgen: bool) -> (r: String)
    ensures
        r@ == cargo_toml_head(project_name@, with_bindgen),
{
    let mut out = "[package]\nname = \"".to_owned();
    out.append(project_name);
    out.append("\"\nversion = \"0.1.0\"\nedition = \"2021\"\n");
    out.append(
        if with_bindgen {
            "build = \"build.rs\"\n"
        } else {
            ""
        },
    );
    out.append(
        "\n[lib]\ncrate-type = [\"cdylib\"]\npath = \"src/lib.rs\"\n\n[[bin]]\nname = \"",
    );
    out.append(project_name);
    out.append("\"\npath = \"src/main.rs\"\n\n[dependencies]\n");
    out
}

fn push_build_deps(out: &mut String, with_bindgen: bool)
    ensures
        final(out)@ == old(out)@ + build_deps(with_bindgen),
{
    out.append(
        if with_bindgen {
            "\n[target.'cfg(target_os = \"android\")'.build-dependencies]\nbindgen = \"0.69\"\n"
        } else {
            ""
        },
    );
}

/// The `Cargo.toml` of a fresh project.
pub open spec fn fresh_cargo_toml(project_name: Seq<char>, with_bindgen: bool) -> Seq<char> {
    cargo_toml_head(project_name, with_bindgen) + build_deps(with_bindgen)
}

/// The `Cargo.toml` of a fresh project that renders.
pub open spec fn rendering_cargo_toml(
    project_name: Seq<char>,
    with_bindgen: bool,
    render: Seq<char>,
    ndk_sys: Seq<char>,
) -> Seq<char> {
    cargo_toml_head(project_name, with_bindgen) + "rusk-render = { path = \""@ + toml_escaped(
        render,
    ) + "\" }\nrusk-ndk-sys = { path = \""@ + toml_escaped(ndk_sys) + "\" }\n"@ + build_deps(
        with_bindgen,
    )
}

/// The `Cargo.toml` of a fresh project.
pub fn generate_cargo_toml(project_name: &str, with_bindgen: bool) -> (r: String)
    ensures
        r@ == fresh_cargo_toml(project_name@, with_bindgen),
{
    let mut out = write_cargo_toml_head(project_name, with_bindgen);
    push_build_deps(&mut out, with_bindgen);
    out
}

/// The `Cargo.toml` of a fresh project that renders: it depends on the
/// rendering crates by path.
pub fn generate_cargo_toml_with_render(
    project_name: &str,
    with_bindgen: bool,
    render_paths: &RenderCratePathsForCargoToml,
) -> (r: String)
    ensures
        r@ == rendering_cargo_toml(
            project_name@,
            with_bindgen,
            render_paths.render@,
            render_paths.ndk_sys@,
        ),
{
    let mut out = write_cargo_toml_head(project_name, with_bindgen);
    out.append("rusk-render = { path = \"");
    out.append(&escape_toml_string(&render_paths.render));
    out.append("\" }\nrusk-ndk-sys = { path = \"");
    out.append(&escape_toml_string(&render_paths.ndk_sys));
    out.append("\" }\n");
    push_build_deps(&mut out, with_bindgen);
    out
}

/// A minimal `src/lib.rs`, up to the module of generated bindings.
pub const LIB_RS_HEAD: &'static str = r#"//! Entry point loaded by android.app.NativeActivity.
//!
//! The Android runtime `dlopen`s this library (named via the
//! `android.app.lib_name` meta-data Rusk generates in
//! AndroidManifest.xml) and calls `ANativeActivity_onCreate` directly —
//! there is no Java code in between unless [dependencies.java] or a
//! `Java_...` JNI export pulls some in.
#![cfg(target_os = "android")]

use std::os::raw::c_void;
"#;

/// From there to the tag in the hint on `adb logcat`.
pub const LIB_RS_TO_LOGCAT_TAG: &'static str = r#"
#[repr(C)]
pub struct ANativeActivity {
    _private: [u8; 0],
}

#[no_mangle]
pub extern "C" fn ANativeActivity_onCreate(
    _activity: *mut ANativeActivity,
    _saved_state: *mut c_void,
    _saved_state_size: usize,
) {
    // `rusk-ndk-sys` wraps `__android_log_write` for exactly this: a
    // real, working log line the moment the app starts, visible with
    // `adb logcat -s "#;

/// From there to the tag in the hint on logging.
pub const LIB_RS_TO_LOG_TAG: &'static str = r#"`. Add rusk-ndk-sys to [dependencies] to use
    // it — see crates/rusk-ndk-sys in the Rusk SDK repository for the
    // rest of the native_window / looper / input / asset_manager API.
    //
    // rusk_ndk_sys::log::log_info(""#;

/// From there to the tag in the hint on the generated bindings.
pub const LIB_RS_TO_NDK_TAG: &'static str = r#"", "ANativeActivity_onCreate");
    //
    // Or, with the `ndk` module above (generated straight from the real
    // NDK sysroot headers via bindgen):
    //
    // #[cfg(target_os = "android")]
    // unsafe { ndk::__android_log_write(4, c""#;

/// The rest of the file.
pub const LIB_RS_END: &'static str = r#"".as_ptr(), c"onCreate".as_ptr()); }

    // A real app takes it from here: ALooper_prepare + AInputQueue to
    // read events, ANativeWindow_lock to draw, or a windowing crate
    // (winit + android-activity) built on top of the same NDK contract.
}
"#;

/// A `src/lib.rs` that draws, up to the tag of its first log line.
pub const RENDER_RS_HEAD: &'static str = r#"//! Entry point loaded by android.app.NativeActivity, wired up with
//! `rusk-render::AppShell` so the app draws real pixels immediately
//! instead of showing a black screen — see the `rusk-render` crate docs
//! for why a bare NativeActivity is black by default and what this
//! crate's `AppShell` does about it.
#![cfg(target_os = "android")]

use rusk_render::{AppShell, FrameBuffer};
use rusk_ndk_sys::native_activity::ANativeActivity;
use std::os::raw::c_void;

#[no_mangle]
pub extern "C" fn ANativeActivity_onCreate(
    activity: *mut ANativeActivity,
    _saved_state: *mut c_void,
    _saved_state_size: usize,
) {
    rusk_ndk_sys::log::log_info(""#;

/// From there to the tag of its last log line.
pub const RENDER_RS_TO_EXIT_TAG: &'static str = r#"", "starting render loop");

    // SAFETY: `activity` is exactly the pointer Android just handed us;
    // this is the one place that contract is guaranteed to hold.
    let reason = unsafe {
        AppShell::run(activity, |fb: &mut FrameBuffer, dt_seconds: f32| {
            draw_frame(fb, dt_seconds);
            true // keep running; return false here to exit cleanly
        })
    };
    rusk_ndk_sys::log::log_info(""#;

/// The rest of the file.
pub const RENDER_RS_END: &'static str = r#"", &format!("render loop exited: {reason:?}"));
}

/// Replace this with your actual rendering. What's here is deliberately
/// visible and animated (not just a static clear color) so it's
/// immediately obvious the loop is really running at whatever frame rate
/// the device delivers, not just drawn once.
struct DemoState {
    elapsed: f32,
}

thread_local! {
    static STATE: std::cell::RefCell<DemoState> = std::cell::RefCell::new(DemoState { elapsed: 0.0 });
}

fn draw_frame(fb: &mut FrameBuffer, dt: f32) {
    STATE.with(|state| {
        let mut state = state.borrow_mut();
        state.elapsed += dt;

        // A dark blue-gray background — deliberately not pure black, so
        // "the screen is some solid color" vs "the screen is black
        // because nothing drew" are visually distinguishable at a
        // glance while you're debugging.
        fb.clear(0x14161Aff);

        // A bright square that sweeps left-to-right and wraps, proving
        // both that drawing works and that dt-based animation is live.
        let w = fb.width();
        let h = fb.height();
        let size = (w.min(h) / 8).max(8);
        let period_seconds = 3.0;
        let t = (state.elapsed % period_seconds) / period_seconds;
        let x = ((w - size) as f32 * t) as i32;
        let y = (h - size) / 2;
        for py in y..(y + size).min(h) {
            for px in x..(x + size).min(w) {
                fb.put_pixel(px, py, 0xE0C34Cff);
            }
        }
    });
}
"#;

/// A `build.rs` that binds the NDK headers with bindgen.
pub const BUILD_RS: &'static str = r#"//! Generated by `rusk new`. Binds the real Android NDK C headers
//! with `bindgen` at build time -- see crates/rusk-ndk-sys in the Rusk
//! SDK repo for a hand-written, dependency-free alternative covering
//! the same APIs if you'd rather not pull in bindgen + libclang.

fn main() {
    let target_os = std::env::var("CARGO_CFG_TARGET_OS").unwrap_or_default();
    if target_os != "android" {
        // Host-side `cargo check` / `cargo test` doesn't need Android
        // bindings, and won't have an NDK to bind against anyway.
        return;
    }

    let ndk_home = std::env::var("ANDROID_NDK_HOME").expect(
        "ANDROID_NDK_HOME is not set. Build through `rusk build`, which points this at \
         the NDK it manages under ~/.rusk/ndk/... automatically.",
    );

    let host_tag = if cfg!(target_os = "windows") {
        "windows-x86_64"
    } else if cfg!(target_os = "macos") {
        "darwin-x86_64"
    } else {
        "linux-x86_64"
    };

    let sysroot = std::path::Path::new(&ndk_home)
        .join("toolchains")
        .join("llvm")
        .join("prebuilt")
        .join(host_tag)
        .join("sysroot");
    let include_dir = sysroot.join("usr").join("include");

    let headers = [
        "android/native_activity.h",
        "android/native_window.h",
        "android/looper.h",
        "android/input.h",
        "android/asset_manager.h",
        "android/log.h",
    ];

    let mut builder = bindgen::Builder::default()
        .clang_arg(format!("--sysroot={}", sysroot.display()))
        .clang_arg(format!("-I{}", include_dir.display()))
        // Only the symbols an app loop actually needs -- an unfiltered
        // bind of the whole sysroot pulls in far more than this project
        // uses and slows every build down for no benefit.
        .allowlist_function("ANativeActivity_.*")
        .allowlist_function("ANativeWindow_.*")
        .allowlist_function("ALooper_.*")
        .allowlist_function("AInputQueue_.*")
        .allowlist_function("AInputEvent_.*")
        .allowlist_function("AMotionEvent_.*")
        .allowlist_function("AKeyEvent_.*")
        .allowlist_function("AAssetManager_.*")
        .allowlist_function("AAsset_.*")
        .allowlist_function("__android_log_.*")
        .allowlist_type("ANativeActivity.*")
        .allowlist_type("ARect")
        .derive_default(true);

    for header in headers {
        let path = include_dir.join(header);
        builder = builder.header(path.to_string_lossy().into_owned());
    }

    let bindings = builder
        .generate()
        .expect(
            "bindgen failed to generate NDK bindings -- is libclang installed? \
             (Debian/Ubuntu: `apt install libclang-dev`; Windows: install LLVM \
             and set LIBCLANG_PATH to its `bin` directory; macOS: `xcode-select --install`)",
        );

    let out_dir = std::path::PathBuf::from(std::env::var("OUT_DIR").unwrap());
    bindings
        .write_to_file(out_dir.join("ndk_bindings.rs"))
        .expect("failed to write generated NDK bindings");
}
"#;

/// The module of generated bindings.
pub const BINDGEN_MODULE: &'static str = "\n#[cfg(target_os = \"android\")]\n#[allow(non_camel_case_types, non_snake_case, dead_code)]\npub mod ndk {\n    include!(concat!(env!(\"OUT_DIR\"), \"/ndk_bindings.rs\"));\n}\n";

/// A minimal `src/lib.rs` that logs under a tag.
pub open spec fn lib_rs(tag: Seq<char>, with_bindgen: bool) -> Seq<char> {
    LIB_RS_HEAD@ + (if with_bindgen {
        BINDGEN_MODULE@
    } else {
        ""@
    }) + LIB_RS_TO_LOGCAT_TAG@ + tag + LIB_RS_TO_LOG_TAG@ + tag + LIB_RS_TO_NDK_TAG@ + tag
        + LIB_RS_END@
}

/// A `src/lib.rs` that draws and logs under a tag.
pub open spec fn render_lib_rs(tag: Seq<char>) -> Seq<char> {
    RENDER_RS_HEAD@ + tag + RENDER_RS_TO_EXIT_TAG@ + tag + RENDER_RS_END@
}

/// The `src/lib.rs` of a fresh project: the one function that every hosted
/// application has to export.
pub fn generate_lib_rs(manifest: &RuskManifest, with_bindgen: bool) -> (r: String)
    ensures
        r@ == lib_rs(manifest@.package.name, with_bindgen),
{
    let tag = &manifest.package.name;
    let mut out = LIB_RS_HEAD.to_owned();
    out.append(
        if with_bindgen {
            BINDGEN_MODULE
        } else {
            ""
        },
    );
    out.append(LIB_RS_TO_LOGCAT_TAG);
    out.append(tag);
    out.append(LIB_RS_TO_LOG_TAG);
    out.append(tag);
    out.append(LIB_RS_TO_NDK_TAG);
    out.append(tag);
    out.append(LIB_RS_END);
    out
}

/// The `src/lib.rs` of a fresh project that renders: it draws a moving square.
pub fn generate_lib_rs_with_render(manifest: &RuskManifest) -> (r: String)
    ensures
        r@ == render_lib_rs(manifest@.package.name),
{
    let mut out = RENDER_RS_HEAD.to_owned();
    out.append(&manifest.package.name);
    out.append(RENDER_RS_TO_EXIT_TAG);
    out.append(&manifest.package.name);
    out.append(RENDER_RS_END);
    out
}

/// The `build.rs` of a fresh project that binds the NDK headers.
pub fn generate_build_rs() -> (r: String)
    ensures
        r@ == BUILD_RS@,
{
    BUILD_RS.to_owned()
}

// ---------------------------------------------------------------------------
// What a fresh crate says

/// A fresh `Cargo.toml` is for a package and a program of the project's name. It has a
/// build script, and what that needs, exactly where bindings are generated.
#[verifier::rlimit(40)]
pub proof fn fresh_crate_has_its_name(project_name: Seq<char>, with_bindgen: bool)
    ensures
        ("[package]\nname = \""@ + project_name + "\"\n"@).is_prefix_of(
            fresh_cargo_toml(project_name, with_bindgen),
        ),
        contains_text(
            fresh_cargo_toml(project_name, with_bindgen),
            "[[bin]]\nname = \""@ + project_name + "\"\n"@,
        ),
        fresh_cargo_toml(project_name, true).len() == fresh_cargo_toml(project_name, false).len()
            + "build = \"build.rs\"\n"@.len()
            + "\n[target.'cfg(target_os = \"android\")'.build-dependencies]\nbindgen = \"0.69\"\n"@.len(),
        contains_text(fresh_cargo_toml(project_name, true), "build = \"build.rs\"\n"@),
        "\n[target.'cfg(target_os = \"android\")'.build-dependencies]\nbindgen = \"0.69\"\n"@.is_suffix_of(
            fresh_cargo_toml(project_name, true),
        ),
{
    let t = fresh_cargo_toml(project_name, with_bindgen);
    let p = "[package]\nname = \""@ + project_name + "\"\n"@;
    let v = "\"\nversion = \"0.1.0\"\nedition = \"2021\"\n"@;
    assert(v =~= "\"\n"@ + v.skip(2)) by {
        reveal_strlit("\"\nversion = \"0.1.0\"\nedition = \"2021\"\n");
        reveal_strlit("\"\n");
    }
    assert(t.subrange(0, p.len() as int) =~= p);
    let l = "\n[lib]\ncrate-type = [\"cdylib\"]\npath = \"src/lib.rs\"\n\n[[bin]]\nname = \""@;
    let b = "[[bin]]\nname = \""@;
    let n = (l.len() - b.len()) as int;
    assert(l =~= l.take(n) + b && n > 0) by {
        reveal_strlit(
            "\n[lib]\ncrate-type = [\"cdylib\"]\npath = \"src/lib.rs\"\n\n[[bin]]\nname = \"",
        );
        reveal_strlit("[[bin]]\nname = \"");
    }
    let e = "\"\npath = \"src/main.rs\"\n\n[dependencies]\n"@;
    assert(e =~= "\"\n"@ + e.skip(2)) by {
        reveal_strlit("\"\npath = \"src/main.rs\"\n\n[dependencies]\n");
        reveal_strlit("\"\n");
    }
    let before = "[package]\nname = \""@ + project_name + v + build_line(with_bindgen) + l.take(n);
    let core = b + project_name + "\"\n"@;
    let after = e.skip(2) + build_deps(with_bindgen);
    contains_in_middle(before, core, after);
    assert(before + core + after =~= t);
    let u = fresh_cargo_toml(project_name, true);
    let line = "build = \"build.rs\"\n"@;
    let x = "[package]\nname = \""@ + project_name + v;
    let y = l + project_name + e + build_deps(true);
    contains_in_middle(x, line, y);
    assert(x + line + y =~= u);
    reveal_strlit("");
    let d = "\n[target.'cfg(target_os = \"android\")'.build-dependencies]\nbindgen = \"0.69\"\n"@;
    assert(u.subrange(u.len() - d.len(), u.len() as int) =~= d);
}

/// A fresh crate that renders is the plain one with the two crates it draws with among
/// its dependencies, each at its own path.
pub proof fn rendering_crate_adds_dependencies(
    project_name: Seq<char>,
    with_bindgen: bool,
    render: Seq<char>,
    ndk_sys: Seq<char>,
)
    ensures
        ({
            let plain = fresh_cargo_toml(project_name, with_bindgen);
            let t = rendering_cargo_toml(project_name, with_bindgen, render, ndk_sys);
            let lines = "rusk-render = { path = \""@ + toml_escaped(render) + "\" }\n"@
                + "rusk-ndk-sys = { path = \""@ + toml_escaped(ndk_sys) + "\" }\n"@;
            exists|n: int|
                0 <= n <= plain.len() && t == #[trigger] plain.take(n) + lines + plain.skip(n)
        }),
{
    let plain = fresh_cargo_toml(project_name, with_bindgen);
    let t = rendering_cargo_toml(project_name, with_bindgen, render, ndk_sys);
    let lines = "rusk-render = { path = \""@ + toml_escaped(render) + "\" }\n"@
        + "rusk-ndk-sys = { path = \""@ + toml_escaped(ndk_sys) + "\" }\n"@;
    let two = "\" }\nrusk-ndk-sys = { path = \""@;
    assert(two =~= "\" }\n"@ + "rusk-ndk-sys = { path = \""@) by {
        reveal_strlit("\" }\nrusk-ndk-sys = { path = \"");
        reveal_strlit("\" }\n");
        reveal_strlit("rusk-ndk-sys = { path = \"");
    }
    let head = cargo_toml_head(project_name, with_bindgen);
    let n = head.len() as int;
    assert(plain.take(n) =~= head);
    assert(plain.skip(n) =~= build_deps(with_bindgen));
    assert(t =~= head + lines + build_deps(with_bindgen));
    assert(t == plain.take(n) + lines + plain.skip(n));
}

/// Every log line of a fresh library is under the project's name: no two names share a
/// library, and one with generated bindings differs by the module that takes them in.
pub proof fn fresh_library_logs_name(a: Seq<char>, b: Seq<char>, with_bindgen: bool)
    requires
        a.len() == b.len(),
    ensures
        lib_rs(a, with_bindgen) == lib_rs(b, with_bindgen) <==> a == b,
        render_lib_rs(a) == render_lib_rs(b) <==> a == b,
        lib_rs(a, true).len() == lib_rs(a, false).len() + BINDGEN_MODULE@.len(),
        lib_rs(a, with_bindgen).len() - lib_rs(seq![], with_bindgen).len() == 3 * a.len(),
        render_lib_rs(a).len() - render_lib_rs(seq![]).len() == 2 * a.len(),
{
    reveal_strlit("");
    if lib_rs(a, with_bindgen) == lib_rs(b, with_bindgen) {
        let h = LIB_RS_HEAD@ + (if with_bindgen {
            BINDGEN_MODULE@
        } else {
            ""@
        }) + LIB_RS_TO_LOGCAT_TAG@;
        let n = h.len() as int;
        assert(lib_rs(a, with_bindgen).subrange(n, n + a.len()) =~= a);
        assert(lib_rs(b, with_bindgen).subrange(n, n + b.len()) =~= b);
    }
    if render_lib_rs(a) == render_lib_rs(b) {
        let n = RENDER_RS_HEAD@.len() as int;
        assert(render_lib_rs(a).subrange(n, n + a.len()) =~= a);
        assert(render_lib_rs(b).subrange(n, n + b.len()) =~= b);
    }
}

} // verus!
