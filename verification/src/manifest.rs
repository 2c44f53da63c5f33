//! The project descriptor `Rusk.toml`: its sections, when it is valid, and how
//! build flavors change it.
use crate::num::{decimal, push_decimal};
use crate::ordmap::{
    OrdMap, holds_key, holds_key_iff, in_key_order, items_of, key_at_slot, lookup,
    lookup_after_with_entry, map_items, map_items_keeps_order, slot, slot_from_props, with_entries,
    with_entry_keeps_order, with_entry_map,
};
use crate::path::{HostOs, join_path, joined_path};
use crate::text::{
    ascii_alnum, ascii_letter, behind_three, chars_of, clone_opt, clone_strings, concat3,
    contains_text, is_alnum, is_letter, joined, opt_view, pair_views, precedes, same, split,
    split_all, split_all_joins, split_all_of_joined, split_all_of_list, split_all_without, tells,
    tells_behind, tells_more, views,
};
use vstd::prelude::*;

verus! {

/// What is wrong with a manifest.
#[derive(Debug)]
pub enum ManifestError {
    /// No `Rusk.toml` in the directory or any above it.
    NotFound(String),
    InvalidAppId(String),
    MissingEntry(String),
    UnknownAbi(String),
    SdkRange { sdk_min: u32, sdk_target: u32 },
    UnknownFlavor(String),
}

impl ManifestError {
    /// The text of the message shown for the error.
    pub open spec fn text(&self) -> Seq<char> {
        match *self {
            ManifestError::NotFound(dir) => "Rusk.toml not found in "@ + dir@
                + " (or any parent directory)"@,
            ManifestError::InvalidAppId(id) => "invalid `package.id` \""@ + id@
                + "\": must be a reverse-DNS Java package identifier, e.g. com.example.app"@,
            ManifestError::MissingEntry(path) => "`package.entry` points to \""@ + path@
                + "\", but that file does not exist"@,
            ManifestError::UnknownAbi(abi) => "unknown ABI \""@ + abi@
                + "\"; expected one of: arm64-v8a, armeabi-v7a, x86_64, x86"@,
            ManifestError::SdkRange { sdk_min, sdk_target } => "`package.sdk_min` ("@ + decimal(
                sdk_min as nat,
            ) + ") cannot be greater than `package.sdk_target` ("@ + decimal(sdk_target as nat)
                + ")"@,
            ManifestError::UnknownFlavor(name) => "no [[flavor]] named \""@ + name@
                + "\" in Rusk.toml"@,
        }
    }

    /// The message shown for the error.
    pub fn message(&self) -> (r: String)
        ensures
            r@ == self.text(),
    {
        match self {
            ManifestError::NotFound(dir) => concat3(
                "Rusk.toml not found in ",
                dir,
                " (or any parent directory)",
            ),
            ManifestError::InvalidAppId(id) => concat3(
                "invalid `package.id` \"",
                id,
                "\": must be a reverse-DNS Java package identifier, e.g. com.example.app",
            ),
            ManifestError::MissingEntry(path) => concat3(
                "`package.entry` points to \"",
                path,
                "\", but that file does not exist",
            ),
            ManifestError::UnknownAbi(abi) => concat3(
                "unknown ABI \"",
                abi,
                "\"; expected one of: arm64-v8a, armeabi-v7a, x86_64, x86",
            ),
            ManifestError::SdkRange { sdk_min, sdk_target } => {
                let mut out = "`package.sdk_min` (".to_owned();
                push_decimal(&mut out, *sdk_min as u64);
                out.append(") cannot be greater than `package.sdk_target` (");
                push_decimal(&mut out, *sdk_target as u64);
                out.append(")");
                out
            },
            ManifestError::UnknownFlavor(name) => concat3(
                "no [[flavor]] named \"",
                name,
                "\" in Rusk.toml",
            ),
        }
    }
}

// ---------------------------------------------------------------------------
// Sections

/// `[package]`: what the application is and which SDK levels it is for.
#[derive(Debug)]
pub struct PackageSection {
    pub name: String,
    /// Reverse-DNS application id.
    pub id: String,
    pub version: String,
    /// The crate's entry point, relative to the project root.
    pub entry: String,
    pub sdk_min: u32,
    pub sdk_target: u32,
    pub sdk_compile: u32,
}

pub struct PackageView {
    pub name: Seq<char>,
    pub id: Seq<char>,
    pub version: Seq<char>,
    pub entry: Seq<char>,
    pub sdk_min: u32,
    pub sdk_target: u32,
    pub sdk_compile: u32,
}

impl View for PackageSection {
    type V = PackageView;

    open spec fn view(&self) -> PackageView {
        PackageView {
            name: self.name@,
            id: self.id@,
            version: self.version@,
            entry: self.entry@,
            sdk_min: self.sdk_min,
            sdk_target: self.sdk_target,
            sdk_compile: self.sdk_compile,
        }
    }
}

impl Clone for PackageSection {
    fn clone(&self) -> (r: Self)
        ensures
            r@ == self@,
    {
        PackageSection {
            name: self.name.clone(),
            id: self.id.clone(),
            version: self.version.clone(),
            entry: self.entry.clone(),
            sdk_min: self.sdk_min,
            sdk_target: self.sdk_target,
            sdk_compile: self.sdk_compile,
        }
    }
}

/// The version of a project that names none.
pub fn default_version() -> (r: String)
    ensures
        r@ == "0.1.0"@,
{
    "0.1.0".to_owned()
}

/// The entry point of a project that names none.
pub fn default_entry() -> (r: String)
    ensures
        r@ == "src/main.rs"@,
{
    "src/main.rs".to_owned()
}

/// The lowest SDK level of a project that names none.
pub fn default_sdk_min() -> (r: u32)
    ensures
        r == 24,
{
    24
}

/// The SDK level that a project is built for where it names none.
pub fn default_sdk_target() -> (r: u32)
    ensures
        r == 34,
{
    34
}

/// How the activity may be rotated.
#[derive(Debug, Clone, Copy, PartialEq, Eq, Structural)]
pub enum Orientation {
    Unspecified,
    Portrait,
    Landscape,
    Sensor,
}

impl Orientation {
    /// The value of `android:screenOrientation`.
    pub open spec fn android_value(self) -> Seq<char> {
        match self {
            Orientation::Unspecified => "unspecified"@,
            Orientation::Portrait => "portrait"@,
            Orientation::Landscape => "landscape"@,
            Orientation::Sensor => "sensor"@,
        }
    }

    /// The value of `android:screenOrientation`.
    pub fn as_android_value(&self) -> (r: &'static str)
        ensures
            r@ == self.android_value(),
    {
        match self {
            Orientation::Unspecified => "unspecified",
            Orientation::Portrait => "portrait",
            Orientation::Landscape => "landscape",
            Orientation::Sensor => "sensor",
        }
    }
}

/// `[app]`: how the application presents itself.
#[derive(Debug)]
pub struct AppSection {
    pub label: Option<String>,
    pub orientation: Orientation,
    pub fullscreen: bool,
    pub debuggable: bool,
    /// A PNG used for all densities.
    pub icon: Option<String>,
}

pub struct AppView {
    pub label: Option<Seq<char>>,
    pub orientation: Orientation,
    pub fullscreen: bool,
    pub debuggable: bool,
    pub icon: Option<Seq<char>>,
}

impl View for AppSection {
    type V = AppView;

    open spec fn view(&self) -> AppView {
        AppView {
            label: opt_view(self.label),
            orientation: self.orientation,
            fullscreen: self.fullscreen,
            debuggable: self.debuggable,
            icon: opt_view(self.icon),
        }
    }
}

impl Clone for AppSection {
    fn clone(&self) -> (r: Self)
        ensures
            r@ == self@,
    {
        AppSection {
            label: clone_opt(&self.label),
            orientation: self.orientation,
            fullscreen: self.fullscreen,
            debuggable: self.debuggable,
            icon: clone_opt(&self.icon),
        }
    }
}

impl Default for AppSection {
    fn default() -> (r: Self)
        ensures
            r@ == (AppView {
                label: None,
                orientation: Orientation::Unspecified,
                fullscreen: false,
                debuggable: false,
                icon: None,
            }),
    {
        AppSection {
            label: None,
            orientation: Orientation::Unspecified,
            fullscreen: false,
            debuggable: false,
            icon: None,
        }
    }
}

/// `[abi]`: the ABIs to build for.
#[derive(Debug)]
pub struct AbiSection {
    pub targets: Vec<String>,
}

impl Default for AbiSection {
    fn default() -> (r: Self)
        ensures
            views(r.targets@) == seq!["arm64-v8a"@],
    {
        let r = AbiSection { targets: vec!["arm64-v8a".to_owned()] };
        assert(views(r.targets@) =~= seq!["arm64-v8a"@]);
        r
    }
}

/// `[permissions]`: short names, which stand for `android.permission.<NAME>`.
#[derive(Debug)]
pub struct PermissionsSection {
    pub list: Vec<String>,
}

impl Default for PermissionsSection {
    fn default() -> (r: Self)
        ensures
            r.list@.len() == 0,
    {
        PermissionsSection { list: Vec::new() }
    }
}

/// `[dependencies]`: Java dependencies by `group:artifact`, and Maven
/// repositories that are searched before the default ones.
#[derive(Debug)]
pub struct DependenciesSection {
    pub java: OrdMap<String>,
    pub repositories: Vec<String>,
}

impl Default for DependenciesSection {
    fn default() -> (r: Self)
        ensures
            r.java@.len() == 0,
            r.repositories@.len() == 0,
    {
        DependenciesSection { java: OrdMap::new(), repositories: Vec::new() }
    }
}

/// A map from text to text, as texts.
pub open spec fn text_items(m: OrdMap<String>) -> Seq<(Seq<char>, Seq<char>)> {
    map_items(m@, |s: String| s@)
}

/// Copies a map from text to text.
pub fn clone_text_map(m: &OrdMap<String>) -> (r: OrdMap<String>)
    ensures
        text_items(r) == text_items(*m),
        in_key_order(text_items(r)),
{
    let mut entries: Vec<(String, String)> = Vec::new();
    for i in 0..m.entries.len()
        invariant
            entries@.len() == i,
            forall|j: int|
                0 <= j < i ==> (#[trigger] entries@[j]).0@ == m.entries@[j].0@ && entries@[j].1@
                    == m.entries@[j].1@,
    {
        entries.push((m.entries[i].0.clone(), m.entries[i].1.clone()));
    }
    proof {
        use_type_invariant(m);
        let s = items_of(entries@);
        assert forall|i: int, j: int| 0 <= i < j < s.len() implies precedes(
            #[trigger] s[i].0,
            #[trigger] s[j].0,
        ) by {
            assert(s[i].0 == m@[i].0 && s[j].0 == m@[j].0);
        }
    }
    let r = OrdMap { entries };
    proof {
        assert(text_items(r) =~= text_items(*m));
        map_items_keeps_order(r@, |s: String| s@);
    }
    r
}

/// `[ndk]`: the NDK release to build with; the newest known one where none is named.
#[derive(Debug)]
pub struct NdkSection {
    pub version: Option<String>,
}

impl Default for NdkSection {
    fn default() -> (r: Self)
        ensures
            r.version is None,
    {
        NdkSection { version: None }
    }
}

/// `[sdk]`: the build-tools revision to use.
#[derive(Debug)]
pub struct SdkToolsSection {
    pub build_tools_version: String,
}

impl Default for SdkToolsSection {
    fn default() -> (r: Self)
        ensures
            r.build_tools_version@ == "34.0.0"@,
    {
        SdkToolsSection { build_tools_version: "34.0.0".to_owned() }
    }
}

/// `[[flavor]]`: a named variant of the build, of which each field that is set
/// overlays the manifest.
#[derive(Debug)]
pub struct FlavorSection {
    pub name: String,
    pub id_suffix: Option<String>,
    pub label_suffix: Option<String>,
    pub cargo_features: Vec<String>,
    pub abi_targets: Option<Vec<String>>,
    pub java: OrdMap<String>,
}

pub struct FlavorView {
    pub name: Seq<char>,
    pub id_suffix: Option<Seq<char>>,
    pub label_suffix: Option<Seq<char>>,
    pub cargo_features: Seq<Seq<char>>,
    pub abi_targets: Option<Seq<Seq<char>>>,
    pub java: Seq<(Seq<char>, Seq<char>)>,
}

impl View for FlavorSection {
    type V = FlavorView;

    open spec fn view(&self) -> FlavorView {
        FlavorView {
            name: self.name@,
            id_suffix: opt_view(self.id_suffix),
            label_suffix: opt_view(self.label_suffix),
            cargo_features: views(self.cargo_features@),
            abi_targets: match self.abi_targets {
                Some(t) => Some(views(t@)),
                None => None,
            },
            java: text_items(self.java),
        }
    }
}

impl Clone for FlavorSection {
    fn clone(&self) -> (r: Self)
        ensures
            r@ == self@,
    {
        FlavorSection {
            name: self.name.clone(),
            id_suffix: clone_opt(&self.id_suffix),
            label_suffix: clone_opt(&self.label_suffix),
            cargo_features: clone_strings(&self.cargo_features),
            abi_targets: match &self.abi_targets {
                Some(t) => Some(clone_strings(t)),
                None => None,
            },
            java: clone_text_map(&self.java),
        }
    }
}

/// `[signing]`: the key that releases are signed with. The password comes from
/// an environment variable, never from the manifest.
#[derive(Debug)]
pub struct SigningSection {
    pub keystore: String,
    pub alias: String,
    pub password_env: String,
}

pub struct SigningView {
    pub keystore: Seq<char>,
    pub alias: Seq<char>,
    pub password_env: Seq<char>,
}

impl View for SigningSection {
    type V = SigningView;

    open spec fn view(&self) -> SigningView {
        SigningView {
            keystore: self.keystore@,
            alias: self.alias@,
            password_env: self.password_env@,
        }
    }
}

impl Clone for SigningSection {
    fn clone(&self) -> (r: Self)
        ensures
            r@ == self@,
    {
        SigningSection {
            keystore: self.keystore.clone(),
            alias: self.alias.clone(),
            password_env: self.password_env.clone(),
        }
    }
}

/// The environment variable that holds the password where none is named.
pub fn default_password_env() -> (r: String)
    ensures
        r@ == "RUSK_KEYSTORE_PASSWORD"@,
{
    "RUSK_KEYSTORE_PASSWORD".to_owned()
}

/// `[bundle]`: configuration of App Bundles.
#[derive(Debug)]
pub struct BundleSection {
    pub bundletool_version: Option<String>,
}

impl Clone for BundleSection {
    fn clone(&self) -> (r: Self)
        ensures
            opt_view(r.bundletool_version) == opt_view(self.bundletool_version),
    {
        BundleSection { bundletool_version: clone_opt(&self.bundletool_version) }
    }
}

/// `[proguard]`: configuration of minification, which is off by default.
#[derive(Debug)]
pub struct ProguardSection {
    pub enabled: bool,
    /// Rules appended to the generated ones, relative to the project root.
    pub extra_rules: Option<String>,
}

impl Clone for ProguardSection {
    fn clone(&self) -> (r: Self)
        ensures
            r.enabled == self.enabled,
            opt_view(r.extra_rules) == opt_view(self.extra_rules),
    {
        ProguardSection { enabled: self.enabled, extra_rules: clone_opt(&self.extra_rules) }
    }
}

/// `[lint]`: the checks to leave out.
#[derive(Debug)]
pub struct LintSection {
    pub ignore: Vec<String>,
}

impl Default for LintSection {
    fn default() -> (r: Self)
        ensures
            r.ignore@.len() == 0,
    {
        LintSection { ignore: Vec::new() }
    }
}

/// A whole `Rusk.toml`.
#[derive(Debug)]
pub struct RuskManifest {
    pub package: PackageSection,
    pub app: AppSection,
    pub abi: AbiSection,
    pub permissions: PermissionsSection,
    pub dependencies: DependenciesSection,
    pub ndk: NdkSection,
    pub sdk: SdkToolsSection,
    pub signing: Option<SigningSection>,
    pub flavor: Vec<FlavorSection>,
    pub bundle: Option<BundleSection>,
    pub proguard: Option<ProguardSection>,
    pub lint: LintSection,
}

/// The texts of a manifest.
pub struct ManifestView {
    pub package: PackageView,
    pub app: AppView,
    pub targets: Seq<Seq<char>>,
    pub permissions: Seq<Seq<char>>,
    pub java: Seq<(Seq<char>, Seq<char>)>,
    pub repositories: Seq<Seq<char>>,
    pub ndk_version: Option<Seq<char>>,
    pub build_tools_version: Seq<char>,
    pub signing: Option<SigningView>,
    pub flavor: Seq<FlavorView>,
    pub bundletool_version: Option<Option<Seq<char>>>,
    pub proguard: Option<(bool, Option<Seq<char>>)>,
    pub lint_ignore: Seq<Seq<char>>,
}

/// The texts of a list of flavors.
pub open spec fn flavor_views(v: Seq<FlavorSection>) -> Seq<FlavorView> {
    v.map_values(|f: FlavorSection| f@)
}

impl View for RuskManifest {
    type V = ManifestView;

    open spec fn view(&self) -> ManifestView {
        ManifestView {
            package: self.package@,
            app: self.app@,
            targets: views(self.abi.targets@),
            permissions: views(self.permissions.list@),
            java: text_items(self.dependencies.java),
            repositories: views(self.dependencies.repositories@),
            ndk_version: opt_view(self.ndk.version),
            build_tools_version: self.sdk.build_tools_version@,
            signing: match self.signing {
                Some(s) => Some(s@),
                None => None,
            },
            flavor: flavor_views(self.flavor@),
            bundletool_version: match self.bundle {
                Some(b) => Some(opt_view(b.bundletool_version)),
                None => None,
            },
            proguard: match self.proguard {
                Some(p) => Some((p.enabled, opt_view(p.extra_rules))),
                None => None,
            },
            lint_ignore: views(self.lint.ignore@),
        }
    }
}

fn clone_flavors(v: &Vec<FlavorSection>) -> (r: Vec<FlavorSection>)
    ensures
        flavor_views(r@) == flavor_views(v@),
{
    let mut out: Vec<FlavorSection> = Vec::new();
    for i in 0..v.len()
        invariant
            out@.len() == i,
            forall|j: int| 0 <= j < i ==> (#[trigger] out@[j])@ == v@[j]@,
    {
        out.push(v[i].clone());
    }
    assert(flavor_views(out@) =~= flavor_views(v@));
    out
}

impl Clone for RuskManifest {
    fn clone(&self) -> (r: Self)
        ensures
            r@ == self@,
    {
        RuskManifest {
            package: self.package.clone(),
            app: self.app.clone(),
            abi: AbiSection { targets: clone_strings(&self.abi.targets) },
            permissions: PermissionsSection { list: clone_strings(&self.permissions.list) },
            dependencies: DependenciesSection {
                java: clone_text_map(&self.dependencies.java),
                repositories: clone_strings(&self.dependencies.repositories),
            },
            ndk: NdkSection { version: clone_opt(&self.ndk.version) },
            sdk: SdkToolsSection { build_tools_version: self.sdk.build_tools_version.clone() },
            signing: match &self.signing {
                Some(s) => Some(s.clone()),
                None => None,
            },
            flavor: clone_flavors(&self.flavor),
            bundle: match &self.bundle {
                Some(b) => Some(b.clone()),
                None => None,
            },
            proguard: match &self.proguard {
                Some(p) => Some(p.clone()),
                None => None,
            },
            lint: LintSection { ignore: clone_strings(&self.lint.ignore) },
        }
    }
}

// ---------------------------------------------------------------------------
// ABIs

/// An Android ABI with its Rust target, the target prefix of the NDK's clang,
/// and the directory of its libraries in an APK.
#[derive(Debug, Clone, Copy)]
pub struct AbiTarget {
    pub abi: &'static str,
    pub rust_triple: &'static str,
    pub clang_target: &'static str,
    pub jni_libs_dir: &'static str,
}

pub struct AbiTargetView {
    pub abi: Seq<char>,
    pub rust_triple: Seq<char>,
    pub clang_target: Seq<char>,
    pub jni_libs_dir: Seq<char>,
}

impl View for AbiTarget {
    type V = AbiTargetView;

    open spec fn view(&self) -> AbiTargetView {
        AbiTargetView {
            abi: self.abi@,
            rust_triple: self.rust_triple@,
            clang_target: self.clang_target@,
            jni_libs_dir: self.jni_libs_dir@,
        }
    }
}

/// The texts of a list of targets.
pub open spec fn target_views(v: Seq<AbiTarget>) -> Seq<AbiTargetView> {
    v.map_values(|t: AbiTarget| t@)
}

/// The ABIs that can be built for.
pub open spec fn abi_table() -> Seq<AbiTargetView> {
    seq![
        AbiTargetView {
            abi: "arm64-v8a"@,
            rust_triple: "aarch64-linux-android"@,
            clang_target: "aarch64-linux-android"@,
            jni_libs_dir: "arm64-v8a"@,
        },
        AbiTargetView {
            abi: "armeabi-v7a"@,
            rust_triple: "armv7-linux-androideabi"@,
            clang_target: "armv7a-linux-androideabi"@,
            jni_libs_dir: "armeabi-v7a"@,
        },
        AbiTargetView {
            abi: "x86_64"@,
            rust_triple: "x86_64-linux-android"@,
            clang_target: "x86_64-linux-android"@,
            jni_libs_dir: "x86_64"@,
        },
        AbiTargetView {
            abi: "x86"@,
            rust_triple: "i686-linux-android"@,
            clang_target: "i686-linux-android"@,
            jni_libs_dir: "x86"@,
        },
    ]
}

/// The ABIs that can be built for.
pub fn known_abis() -> (r: Vec<AbiTarget>)
    ensures
        target_views(r@) == abi_table(),
{
    let r = vec![
        AbiTarget {
            abi: "arm64-v8a",
            rust_triple: "aarch64-linux-android",
            clang_target: "aarch64-linux-android",
            jni_libs_dir: "arm64-v8a",
        },
        AbiTarget {
            abi: "armeabi-v7a",
            rust_triple: "armv7-linux-androideabi",
            clang_target: "armv7a-linux-androideabi",
            jni_libs_dir: "armeabi-v7a",
        },
        AbiTarget {
            abi: "x86_64",
            rust_triple: "x86_64-linux-android",
            clang_target: "x86_64-linux-android",
            jni_libs_dir: "x86_64",
        },
        AbiTarget {
            abi: "x86",
            rust_triple: "i686-linux-android",
            clang_target: "i686-linux-android",
            jni_libs_dir: "x86",
        },
    ];
    assert(target_views(r@) =~= abi_table());
    r
}

/// The first target at or after `i` with the given ABI name.
pub open spec fn abi_from(table: Seq<AbiTargetView>, name: Seq<char>, i: int) -> Option<
    AbiTargetView,
>
    decreases table.len() - i,
{
    if i < 0 || i >= table.len() {
        None
    } else if table[i].abi == name {
        Some(table[i])
    } else {
        abi_from(table, name, i + 1)
    }
}

/// The target with the given ABI name.
pub open spec fn abi_named(name: Seq<char>) -> Option<AbiTargetView> {
    abi_from(abi_table(), name, 0)
}

/// The target with the given ABI name.
pub fn resolve_abi(name: &str) -> (r: Option<AbiTarget>)
    ensures
        match r {
            Some(t) => abi_named(name@) == Some(t@),
            None => abi_named(name@) is None,
        },
{
    let table = known_abis();
    for i in 0..table.len()
        invariant
            target_views(table@) == abi_table(),
            abi_named(name@) == abi_from(abi_table(), name@, i as int),
    {
        assert(abi_table()[i as int] == table@[i as int]@);
        if same(table[i].abi, name) {
            return Some(table[i]);
        }
    }
    None
}

/// The targets that the names stand for, in order; unknown names are passed over.
pub open spec fn targets_of(names: Seq<Seq<char>>) -> Seq<AbiTargetView>
    decreases names.len(),
{
    if names.len() == 0 {
        seq![]
    } else {
        match abi_named(names.last()) {
            Some(t) => targets_of(names.drop_last()).push(t),
            None => targets_of(names.drop_last()),
        }
    }
}

/// Every target that names stand for is a known one, and where all names are known
/// there is one for each, in their order and with that name.
pub proof fn resolved_targets_are_known(names: Seq<Seq<char>>)
    ensures
        forall|i: int|
            0 <= i < targets_of(names).len() ==> abi_table().contains(
                #[trigger] targets_of(names)[i],
            ),
        all_abis_known(names) ==> targets_of(names).len() == names.len() && (forall|i: int|
            0 <= i < names.len() ==> (#[trigger] targets_of(names)[i]).abi == names[i]),
    decreases names.len(),
{
    if names.len() > 0 {
        let rest = names.drop_last();
        resolved_targets_are_known(rest);
        abi_from_props(abi_table(), names.last(), 0);
        assert forall|i: int| 0 <= i < targets_of(names).len() implies abi_table().contains(
            #[trigger] targets_of(names)[i],
        ) by {
            if i < targets_of(rest).len() {
                assert(targets_of(names)[i] == targets_of(rest)[i]);
            }
        }
        if all_abis_known(names) {
            assert(names[names.len() - 1] == names.last());
            assert forall|i: int| 0 <= i < rest.len() implies abi_named(#[trigger] rest[i]) is Some by {
                assert(rest[i] == names[i]);
            }
            assert forall|i: int| 0 <= i < names.len() implies (#[trigger] targets_of(names)[i]).abi
                == names[i] by {
                if i < rest.len() {
                    assert(targets_of(names)[i] == targets_of(rest)[i]);
                    assert(rest[i] == names[i]);
                }
            }
        }
    }
}

proof fn abi_from_props(table: Seq<AbiTargetView>, name: Seq<char>, i: int)
    requires
        0 <= i,
    ensures
        abi_from(table, name, i) matches Some(t) ==> table.contains(t) && t.abi == name,
    decreases table.len() - i,
{
    if i < table.len() && table[i].abi != name {
        abi_from_props(table, name, i + 1);
    }
}

// ---------------------------------------------------------------------------
// Validity

/// A part of an application id: a letter, then letters, digits and underscores.
pub open spec fn valid_segment(s: Seq<char>) -> bool {
    &&& s.len() > 0
    &&& ascii_letter(s[0])
    &&& forall|i: int| 0 <= i < s.len() ==> ascii_alnum(#[trigger] s[i]) || s[i] == '_'
}

/// A reverse-DNS application id: two or more parts with dots between them.
pub open spec fn valid_app_id(id: Seq<char>) -> bool {
    &&& split_all(id, '.').len() >= 2
    &&& forall|i: int|
        0 <= i < split_all(id, '.').len() ==> valid_segment(#[trigger] split_all(id, '.')[i])
}

fn is_valid_segment(s: &str) -> (r: bool)
    ensures
        r == valid_segment(s@),
{
    let v = chars_of(s);
    if v.len() == 0 || !is_letter(v[0]) {
        return false;
    }
    for i in 0..v.len()
        invariant
            v@ == s@,
            forall|j: int| 0 <= j < i ==> ascii_alnum(#[trigger] s@[j]) || s@[j] == '_',
    {
        if !(is_alnum(v[i]) || v[i] == '_') {
            assert(!(ascii_alnum(s@[i as int]) || s@[i as int] == '_'));
            return false;
        }
    }
    true
}

/// Whether the text is a reverse-DNS application id.
pub fn is_valid_app_id(id: &str) -> (r: bool)
    ensures
        r == valid_app_id(id@),
{
    let parts = split(id, '.');
    let ghost all = split_all(id@, '.');
    if parts.len() < 2 {
        assert(views(parts@).len() < 2);
        return false;
    }
    for i in 0..parts.len()
        invariant
            views(parts@) == all,
            all == split_all(id@, '.'),
            forall|j: int| 0 <= j < i ==> valid_segment(#[trigger] all[j]),
    {
        assert(all[i as int] == parts@[i as int]@);
        if !is_valid_segment(&parts[i]) {
            assert(!valid_segment(split_all(id@, '.')[i as int]));
            return false;
        }
    }
    assert(views(parts@).len() >= 2);
    true
}

/// Whether every name is that of a known ABI.
pub open spec fn all_abis_known(names: Seq<Seq<char>>) -> bool {
    forall|i: int| 0 <= i < names.len() ==> abi_named(#[trigger] names[i]) is Some
}

impl ManifestView {
    /// The label of the application: its own, or the project's name.
    pub open spec fn label(self) -> Seq<char> {
        match self.app.label {
            Some(label) => label,
            None => self.package.name,
        }
    }

    /// The manifest with a flavor laid over it.
    pub open spec fn with_flavor(self, f: FlavorView) -> ManifestView {
        ManifestView {
            package: PackageView {
                id: match f.id_suffix {
                    Some(suffix) => self.package.id + "."@ + suffix,
                    None => self.package.id,
                },
                ..self.package
            },
            app: AppView {
                label: match f.label_suffix {
                    Some(suffix) => Some(self.label() + " "@ + suffix),
                    None => self.app.label,
                },
                ..self.app
            },
            targets: match f.abi_targets {
                Some(targets) => targets,
                None => self.targets,
            },
            java: with_entries(self.java, f.java),
            ..self
        }
    }
}

/// The first flavor at or after `i` with the given name.
pub open spec fn flavor_from(flavors: Seq<FlavorView>, name: Seq<char>, i: int) -> Option<
    FlavorView,
>
    decreases flavors.len() - i,
{
    if i < 0 || i >= flavors.len() {
        None
    } else if flavors[i].name == name {
        Some(flavors[i])
    } else {
        flavor_from(flavors, name, i + 1)
    }
}

/// The first position at or after `i` that holds `true`.
pub open spec fn first_true(s: Seq<bool>, i: int) -> Option<int>
    decreases s.len() - i,
{
    if i < 0 || i >= s.len() {
        None
    } else if s[i] {
        Some(i)
    } else {
        first_true(s, i + 1)
    }
}

/// The first position that holds `true`.
pub fn find_first_true(v: &Vec<bool>) -> (r: Option<usize>)
    ensures
        match r {
            Some(i) => first_true(v@, 0) == Some(i as int) && i < v.len(),
            None => first_true(v@, 0) is None,
        },
{
    for i in 0..v.len()
        invariant
            first_true(v@, 0) == first_true(v@, i as int),
    {
        if v[i] {
            return Some(i);
        }
    }
    None
}

impl RuskManifest {
    /// Which directory's `Rusk.toml` to load: of the starting directory and those
    /// above it, nearest first, the first that has one. `has_manifest` says for
    /// each of them whether it does.
    pub fn discover(start_dir: &str, has_manifest: &Vec<bool>) -> (r: Result<usize, ManifestError>)
        ensures
            match r {
                Ok(i) => first_true(has_manifest@, 0) == Some(i as int) && i < has_manifest.len(),
                Err(ManifestError::NotFound(dir)) => first_true(has_manifest@, 0) is None && dir@
                    == start_dir@,
                Err(_) => false,
            },
    {
        match find_first_true(has_manifest) {
            Some(i) => Ok(i),
            None => Err(ManifestError::NotFound(start_dir.to_owned())),
        }
    }

    /// Where the entry point of the project at `project_root` is.
    pub fn entry_path(&self, host: HostOs, project_root: &str) -> (r: String)
        ensures
            r@ == joined_path(host, project_root@, self@.package.entry),
    {
        join_path(host, project_root, &self.package.entry)
    }

    /// Checks the manifest of the project at `project_root`, in which the file
    /// at [`RuskManifest::entry_path`] exists exactly if `entry_is_file`. The
    /// application id is looked at first, then the entry point, the ABIs in
    /// order, and the SDK levels.
    pub fn validate(&self, host: HostOs, project_root: &str, entry_is_file: bool) -> (r: Result<
        (),
        ManifestError,
    >)
        ensures
            match r {
                Ok(()) => {
                    &&& valid_app_id(self@.package.id)
                    &&& entry_is_file
                    &&& all_abis_known(self@.targets)
                    &&& self@.package.sdk_min <= self@.package.sdk_target
                },
                Err(ManifestError::InvalidAppId(id)) => id@ == self@.package.id && !valid_app_id(
                    id@,
                ),
                Err(ManifestError::MissingEntry(path)) => {
                    &&& valid_app_id(self@.package.id)
                    &&& !entry_is_file
                    &&& path@ == joined_path(host, project_root@, self@.package.entry)
                },
                Err(ManifestError::UnknownAbi(abi)) => {
                    &&& valid_app_id(self@.package.id)
                    &&& entry_is_file
                    &&& exists|i: int|
                        {
                            &&& 0 <= i < self@.targets.len()
                            &&& (#[trigger] self@.targets[i]) == abi@
                            &&& abi_named(abi@) is None
                            &&& all_abis_known(self@.targets.take(i))
                        }
                },
                Err(ManifestError::SdkRange { sdk_min, sdk_target }) => {
                    &&& valid_app_id(self@.package.id)
                    &&& entry_is_file
                    &&& all_abis_known(self@.targets)
                    &&& sdk_min == self@.package.sdk_min
                    &&& sdk_target == self@.package.sdk_target
                    &&& sdk_min > sdk_target
                },
                Err(_) => false,
            },
    {
        if !is_valid_app_id(&self.package.id) {
            return Err(ManifestError::InvalidAppId(self.package.id.clone()));
        }
        if !entry_is_file {
            return Err(ManifestError::MissingEntry(self.entry_path(host, project_root)));
        }
        let ghost all = self@.targets;
        for i in 0..self.abi.targets.len()
            invariant
                all == views(self.abi.targets@),
                all == self@.targets,
                valid_app_id(self@.package.id),
                entry_is_file,
                forall|j: int| 0 <= j < i ==> abi_named(#[trigger] all[j]) is Some,
        {
            assert(all[i as int] == self.abi.targets@[i as int]@);
            if resolve_abi(&self.abi.targets[i]).is_none() {
                assert(all_abis_known(all.take(i as int)));
                return Err(ManifestError::UnknownAbi(self.abi.targets[i].clone()));
            }
        }
        if self.package.sdk_min > self.package.sdk_target {
            return Err(
                ManifestError::SdkRange {
                    sdk_min: self.package.sdk_min,
                    sdk_target: self.package.sdk_target,
                },
            );
        }
        Ok(())
    }

    /// The label of the application: its own, or the project's name.
    pub fn app_label(&self) -> (r: String)
        ensures
            r@ == self@.label(),
    {
        match &self.app.label {
            Some(label) => label.clone(),
            None => self.package.name.clone(),
        }
    }

    /// The targets to build for, in order; unknown ABIs are passed over.
    pub fn resolved_targets(&self) -> (r: Vec<AbiTarget>)
        ensures
            target_views(r@) == targets_of(self@.targets),
    {
        let mut out: Vec<AbiTarget> = Vec::new();
        let ghost all = self@.targets;
        assert(target_views(out@) =~= seq![]);
        for i in 0..self.abi.targets.len()
            invariant
                all == views(self.abi.targets@),
                target_views(out@) == targets_of(all.take(i as int)),
        {
            proof {
                assert(all[i as int] == self.abi.targets@[i as int]@);
                assert(all.take(i + 1).drop_last() =~= all.take(i as int));
            }
            match resolve_abi(&self.abi.targets[i]) {
                Some(t) => {
                    let ghost before = out@;
                    out.push(t);
                    assert(target_views(out@) =~= target_views(before).push(t@));
                },
                None => {},
            }
        }
        assert(all.take(all.len() as int) =~= all);
        out
    }

    /// The Java dependencies, `group:artifact` with the version, in the order of
    /// their keys.
    pub fn java_dependencies(&self) -> (r: Vec<(String, String)>)
        ensures
            pair_views(r@) == self@.java,
            in_key_order(pair_views(r@)),
    {
        proof {
            use_type_invariant(&self.dependencies.java);
            map_items_keeps_order(self.dependencies.java@, |s: String| s@);
        }
        let mut out: Vec<(String, String)> = Vec::new();
        let java = &self.dependencies.java;
        for i in 0..java.entries.len()
            invariant
                out@.len() == i,
                forall|j: int|
                    0 <= j < i ==> (#[trigger] out@[j]).0@ == java.entries@[j].0@ && out@[j].1@
                        == java.entries@[j].1@,
        {
            out.push((java.entries[i].0.clone(), java.entries[i].1.clone()));
        }
        assert(pair_views(out@) =~= self@.java);
        out
    }

    fn find_flavor(&self, name: &str) -> (r: Option<&FlavorSection>)
        ensures
            match r {
                Some(f) => flavor_from(self@.flavor, name@, 0) == Some(f@),
                None => flavor_from(self@.flavor, name@, 0) is None,
            },
    {
        let ghost all = self@.flavor;
        for i in 0..self.flavor.len()
            invariant
                all == flavor_views(self.flavor@),
                flavor_from(all, name@, 0) == flavor_from(all, name@, i as int),
        {
            assert(all[i as int] == self.flavor@[i as int]@);
            if same(&self.flavor[i].name, name) {
                return Some(&self.flavor[i]);
            }
        }
        None
    }

    /// The manifest with the named flavor laid over it, and the features that
    /// cargo is to be given for it. Without a name the manifest is unchanged
    /// and no features are added.
    pub fn apply_flavor(&self, name: Option<&str>) -> (r: Result<
        (RuskManifest, Vec<String>),
        ManifestError,
    >)
        ensures
            match (r, name) {
                (Ok((m, features)), None) => m@ == self@ && features@.len() == 0
                    && in_key_order(m@.java),
                (Ok((m, features)), Some(n)) => {
                    &&& flavor_from(self@.flavor, n@, 0) is Some
                    &&& m@ == self@.with_flavor(flavor_from(self@.flavor, n@, 0)->0)
                    &&& in_key_order(m@.java)
                    &&& views(features@) == flavor_from(self@.flavor, n@, 0)->0.cargo_features
                },
                (Err(ManifestError::UnknownFlavor(n)), Some(wanted)) => {
                    &&& n@ == wanted@
                    &&& flavor_from(self@.flavor, n@, 0) is None
                },
                _ => false,
            },
    {
        let name = match name {
            Some(n) => n,
            None => {
                let same = self.clone();
                proof {
                    use_type_invariant(&same.dependencies.java);
                    map_items_keeps_order(same.dependencies.java@, |s: String| s@);
                }
                return Ok((same, Vec::new()));
            },
        };
        let flavor = match self.find_flavor(name) {
            Some(f) => f,
            None => {
                return Err(ManifestError::UnknownFlavor(name.to_owned()));
            },
        };
        let mut effective = self.clone();
        if let Some(suffix) = &flavor.id_suffix {
            effective.package.id = concat3(&effective.package.id, ".", suffix);
        }
        if let Some(suffix) = &flavor.label_suffix {
            effective.app.label = Some(concat3(&effective.app_label(), " ", suffix));
        }
        if let Some(targets) = &flavor.abi_targets {
            effective.abi.targets = clone_strings(targets);
        }
        insert_all(&mut effective.dependencies.java, &flavor.java);
        proof {
            use_type_invariant(&effective.dependencies.java);
            map_items_keeps_order(effective.dependencies.java@, |s: String| s@);
        }
        Ok((effective, clone_strings(&flavor.cargo_features)))
    }
}

/// Adds the entries of `other` to a map.
fn insert_all(map: &mut OrdMap<String>, other: &OrdMap<String>)
    ensures
        text_items(*final(map)) == with_entries(text_items(*old(map)), text_items(*other)),
{
    let ghost start = text_items(*map);
    let ghost more = text_items(*other);
    for i in 0..other.entries.len()
        invariant
            more == text_items(*other),
            text_items(*map) == with_entries(start, more.take(i as int)),
    {
        let ghost before = map@;
        let key = other.entries[i].0.clone();
        let value = other.entries[i].1.clone();
        proof {
            with_entry_map(before, key@, value, |s: String| s@);
            assert(more[i as int] == (key@, value@));
            assert(more.take(i + 1).drop_last() =~= more.take(i as int));
            assert(more.take(i + 1).last() == more[i as int]);
        }
        map.insert(key, value);
    }
    assert(more.take(more.len() as int) =~= more);
}

// ---------------------------------------------------------------------------
// What holds of every flavor

/// A valid application id stays valid when a flavor's suffix is a valid part.
pub proof fn flavored_id_is_valid(id: Seq<char>, suffix: Seq<char>)
    requires
        valid_app_id(id),
        valid_segment(suffix),
    ensures
        valid_app_id(id + "."@ + suffix),
{
    reveal_strlit(".");
    assert("."@ =~= seq!['.']);
    assert(id + "."@ + suffix =~= id.push('.') + suffix);
    split_all_of_joined(id, suffix, '.');
    assert(!suffix.contains('.')) by {
        if suffix.contains('.') {
            let i = choose|i: int| 0 <= i < suffix.len() && suffix[i] == '.';
            assert(ascii_alnum(suffix[i]) || suffix[i] == '_');
        }
    }
    split_all_without(suffix, '.');
    let a = split_all(id, '.');
    let all = split_all(id.push('.') + suffix, '.');
    assert(all =~= a + seq![suffix]);
    assert forall|i: int| 0 <= i < all.len() implies valid_segment(#[trigger] all[i]) by {
        if i < a.len() {
            assert(all[i] == a[i]);
        }
    }
}

/// A flavor that sets nothing changes nothing.
pub proof fn empty_flavor_changes_nothing(m: ManifestView, f: FlavorView)
    requires
        f.id_suffix is None,
        f.label_suffix is None,
        f.abi_targets is None,
        f.java.len() == 0,
    ensures
        m.with_flavor(f) == m,
{
}

/// A flavor's Java dependencies win over those of the manifest, which are kept
/// where the flavor does not name them.
pub proof fn flavor_java_wins(
    java: Seq<(Seq<char>, Seq<char>)>,
    more: Seq<(Seq<char>, Seq<char>)>,
    key: Seq<char>,
)
    requires
        in_key_order(java),
        in_key_order(more),
    ensures
        in_key_order(with_entries(java, more)),
        lookup(with_entries(java, more), key) == (match lookup(more, key) {
            Some(v) => Some(v),
            None => lookup(java, key),
        }),
    decreases more.len(),
{
    if more.len() > 0 {
        let fewer = more.drop_last();
        let (k, v) = more.last();
        assert forall|i: int, j: int| 0 <= i < j < fewer.len() implies precedes(
            #[trigger] fewer[i].0,
            #[trigger] fewer[j].0,
        ) by {
            assert(fewer[i] == more[i] && fewer[j] == more[j]);
        }
        flavor_java_wins(java, fewer, key);
        let sofar = with_entries(java, fewer);
        with_entry_keeps_order(sofar, k, v);
        lookup_after_with_entry(sofar, k, v, key);
        holds_key_iff(more, key);
        holds_key_iff(fewer, key);
        slot_from_props(more, key, 0);
        slot_from_props(fewer, key, 0);
        if key == k {
            key_at_slot(more, key, more.len() - 1);
        } else if holds_key(more, key) {
            let p = slot(more, key);
            assert(p < more.len() - 1);
            assert(fewer[p] == more[p]);
            key_at_slot(fewer, key, p);
        } else if holds_key(fewer, key) {
            let p = slot(fewer, key);
            assert(more[p] == fewer[p]);
        }
    }
}

// ---------------------------------------------------------------------------
// What a flavor does

/// The label of a flavored manifest is the label before, be it one that was set or the
/// name of the package, with a space and the suffix behind it. Without a suffix the
/// label stays.
pub proof fn flavor_extends_label(m: ManifestView, f: FlavorView)
    ensures
        f.label_suffix matches Some(suffix) ==> {
            &&& m.app.label matches Some(own) ==> m.with_flavor(f).label() == own.push(' ')
                + suffix
            &&& m.app.label is None ==> m.with_flavor(f).label() == m.package.name.push(' ')
                + suffix
            &&& m.with_flavor(f).label() == m.label().push(' ') + suffix
        },
        f.label_suffix is None ==> m.with_flavor(f).label() == m.label(),
{
    reveal_strlit(" ");
    if let Some(suffix) = f.label_suffix {
        assert(m.label() + " "@ + suffix =~= m.label().push(' ') + suffix);
    }
}

/// One flavor on top of another adds its suffixes behind those that are there.
pub proof fn flavors_stack_up(m: ManifestView, f: FlavorView, g: FlavorView)
    requires
        f.label_suffix is Some,
        g.label_suffix is Some,
        f.id_suffix is Some,
        g.id_suffix is Some,
    ensures
        m.with_flavor(f).with_flavor(g).label() == m.label() + (seq![' '] + f.label_suffix->0)
            + (seq![' '] + g.label_suffix->0),
        m.with_flavor(f).with_flavor(g).package.id == m.package.id + (seq!['.'] + f.id_suffix->0)
            + (seq!['.'] + g.id_suffix->0),
{
    flavor_extends_label(m, f);
    flavor_extends_label(m.with_flavor(f), g);
    flavor_extends_id(m, f);
    flavor_extends_id(m.with_flavor(f), g);
    assert(m.with_flavor(f).with_flavor(g).label() =~= m.label() + (seq![' '] + f.label_suffix->0)
        + (seq![' '] + g.label_suffix->0));
    assert(m.with_flavor(f).with_flavor(g).package.id =~= m.package.id + (seq!['.']
        + f.id_suffix->0) + (seq!['.'] + g.id_suffix->0));
}

/// The id of a flavored manifest is the id before with a dot and the suffix behind it,
/// so its parts are those of the id before and then those of the suffix. Without a
/// suffix the id stays.
pub proof fn flavor_extends_id(m: ManifestView, f: FlavorView)
    ensures
        f.id_suffix matches Some(suffix) ==> {
            &&& m.with_flavor(f).package.id == m.package.id.push('.') + suffix
            &&& !suffix.contains('.') ==> split_all(m.with_flavor(f).package.id, '.') == split_all(
                m.package.id,
                '.',
            ).push(suffix)
        },
        f.id_suffix is None ==> m.with_flavor(f).package.id == m.package.id,
{
    reveal_strlit(".");
    if let Some(suffix) = f.id_suffix {
        assert(m.package.id + "."@ + suffix =~= m.package.id.push('.') + suffix);
        split_all_of_joined(m.package.id, suffix, '.');
        if !suffix.contains('.') {
            split_all_without(suffix, '.');
            assert(split_all(m.package.id, '.') + seq![suffix] =~= split_all(
                m.package.id,
                '.',
            ).push(suffix));
        }
    }
}

/// A flavor's targets stand in for those of the manifest where it names some. All that
/// a flavor cannot set stays as it is.
pub proof fn flavor_keeps_the_rest(m: ManifestView, f: FlavorView)
    ensures
        m.with_flavor(f).targets == (match f.abi_targets {
            Some(targets) => targets,
            None => m.targets,
        }),
        m.with_flavor(f).package.name == m.package.name,
        m.with_flavor(f).package.version == m.package.version,
        m.with_flavor(f).package.entry == m.package.entry,
        m.with_flavor(f).package.sdk_min == m.package.sdk_min,
        m.with_flavor(f).package.sdk_target == m.package.sdk_target,
        m.with_flavor(f).package.sdk_compile == m.package.sdk_compile,
        m.with_flavor(f).app.orientation == m.app.orientation,
        m.with_flavor(f).app.fullscreen == m.app.fullscreen,
        m.with_flavor(f).app.debuggable == m.app.debuggable,
        m.with_flavor(f).app.icon == m.app.icon,
        m.with_flavor(f).permissions == m.permissions,
        m.with_flavor(f).repositories == m.repositories,
        m.with_flavor(f).ndk_version == m.ndk_version,
        m.with_flavor(f).build_tools_version == m.build_tools_version,
        m.with_flavor(f).signing == m.signing,
        m.with_flavor(f).flavor == m.flavor,
        m.with_flavor(f).bundletool_version == m.bundletool_version,
        m.with_flavor(f).proguard == m.proguard,
        m.with_flavor(f).lint_ignore == m.lint_ignore,
{
}

/// The flavor of a name is the first that has it, and there is one where any has it.
pub proof fn first_flavor_of_name(flavors: Seq<FlavorView>, name: Seq<char>, i: int)
    requires
        0 <= i <= flavors.len(),
    ensures
        match flavor_from(flavors, name, i) {
            Some(f) => exists|k: int|
                i <= k < flavors.len() && #[trigger] flavors[k] == f && f.name == name && (forall|
                    j: int,
                |
                    i <= j < k ==> (#[trigger] flavors[j]).name != name),
            None => forall|j: int| i <= j < flavors.len() ==> (#[trigger] flavors[j]).name != name,
        },
    decreases flavors.len() - i,
{
    if i < flavors.len() {
        if flavors[i].name == name {
            assert(flavors[i] == flavor_from(flavors, name, i)->0);
        } else {
            first_flavor_of_name(flavors, name, i + 1);
            if let Some(f) = flavor_from(flavors, name, i + 1) {
                let k = choose|k: int|
                    i + 1 <= k < flavors.len() && #[trigger] flavors[k] == f && f.name == name && (
                    forall|j: int| i + 1 <= j < k ==> (#[trigger] flavors[j]).name != name);
                assert(flavors[k] == f);
            }
        }
    }
}

/// The nearest directory with a manifest is taken.
pub proof fn nearest_is_found(s: Seq<bool>, i: int)
    requires
        0 <= i <= s.len(),
    ensures
        match first_true(s, i) {
            Some(k) => i <= k < s.len() && s[k] && (forall|j: int| i <= j < k ==> !s[j]),
            None => forall|j: int| i <= j < s.len() ==> !s[j],
        },
    decreases s.len() - i,
{
    if i < s.len() && !s[i] {
        nearest_is_found(s, i + 1);
    }
}

// ---------------------------------------------------------------------------
// What the table of ABIs says

/// The libraries of an ABI are packed under its own name. No two ABIs are built for
/// the same target, nor compiled by clang for the same one.
pub proof fn abis_are_told_apart(i: int, k: int)
    requires
        0 <= i < abi_table().len(),
        0 <= k < abi_table().len(),
    ensures
        abi_named(abi_table()[i].abi) == Some(abi_table()[i]),
        abi_table()[i].jni_libs_dir == abi_table()[i].abi,
        i != k ==> abi_table()[i].abi != abi_table()[k].abi,
        i != k ==> abi_table()[i].rust_triple != abi_table()[k].rust_triple,
        i != k ==> abi_table()[i].clang_target != abi_table()[k].clang_target,
{
    abi_texts();
    let t = abi_table();
    assert(t[0].abi == "arm64-v8a"@ && t[1].abi == "armeabi-v7a"@);
    assert(t[2].abi == "x86_64"@ && t[3].abi == "x86"@);
    reveal_with_fuel(abi_from, 5);
}

/// How long a text is and how it begins.
spec fn beginning(s: Seq<char>) -> (nat, char) {
    (s.len(), s[0])
}

proof fn abi_texts()
    ensures
        beginning("arm64-v8a"@) == (9nat, 'a'),
        beginning("armeabi-v7a"@) == (11nat, 'a'),
        beginning("x86_64"@) == (6nat, 'x'),
        beginning("x86"@) == (3nat, 'x'),
        beginning("aarch64-linux-android"@) == (21nat, 'a'),
        beginning("armv7-linux-androideabi"@) == (23nat, 'a'),
        beginning("armv7a-linux-androideabi"@) == (24nat, 'a'),
        beginning("x86_64-linux-android"@) == (20nat, 'x'),
        beginning("i686-linux-android"@) == (18nat, 'i'),
{
    reveal_strlit("arm64-v8a");
    reveal_strlit("armeabi-v7a");
    reveal_strlit("x86_64");
    reveal_strlit("x86");
    reveal_strlit("aarch64-linux-android");
    reveal_strlit("armv7-linux-androideabi");
    reveal_strlit("armv7a-linux-androideabi");
    reveal_strlit("x86_64-linux-android");
    reveal_strlit("i686-linux-android");
}

/// The processor that an ABI is for, as target triples name it.
pub open spec fn processor(abi: Seq<char>) -> Option<Seq<char>> {
    if abi == "arm64-v8a"@ {
        Some("aarch64"@)
    } else if abi == "armeabi-v7a"@ {
        Some("armv7"@)
    } else if abi == "x86_64"@ {
        Some("x86_64"@)
    } else if abi == "x86"@ {
        Some("i686"@)
    } else {
        None
    }
}

/// An ABI is known exactly where its processor is. Both of its targets begin with the
/// processor, and they are the same but on 32-bit ARM, where clang's has an `a` behind
/// the processor and both end in `eabi`.
pub proof fn abi_fits_its_processor(name: Seq<char>)
    ensures
        abi_named(name) is Some <==> processor(name) is Some,
        abi_named(name) matches Some(t) ==> {
            let cpu = processor(name)->0;
            let system = if name == "armeabi-v7a"@ {
                "-linux-androideabi"@
            } else {
                "-linux-android"@
            };
            &&& t.abi == name
            &&& t.jni_libs_dir == name
            &&& t.rust_triple == cpu + system
            &&& t.clang_target == if name == "armeabi-v7a"@ {
                cpu.push('a') + system
            } else {
                cpu + system
            }
        },
{
    abi_texts();
    reveal_with_fuel(abi_from, 6);
    let t = abi_table();
    assert(t[0].abi == "arm64-v8a"@ && t[1].abi == "armeabi-v7a"@);
    assert(t[2].abi == "x86_64"@ && t[3].abi == "x86"@);
    assert("aarch64-linux-android"@ =~= "aarch64"@ + "-linux-android"@) by {
        reveal_strlit("aarch64-linux-android");
        reveal_strlit("aarch64");
        reveal_strlit("-linux-android");
    }
    assert("x86_64-linux-android"@ =~= "x86_64"@ + "-linux-android"@) by {
        reveal_strlit("x86_64-linux-android");
        reveal_strlit("x86_64");
        reveal_strlit("-linux-android");
    }
    assert("i686-linux-android"@ =~= "i686"@ + "-linux-android"@) by {
        reveal_strlit("i686-linux-android");
        reveal_strlit("i686");
        reveal_strlit("-linux-android");
    }
    assert("armv7-linux-androideabi"@ =~= "armv7"@ + "-linux-androideabi"@) by {
        reveal_strlit("armv7-linux-androideabi");
        reveal_strlit("armv7");
        reveal_strlit("-linux-androideabi");
    }
    assert("armv7a-linux-androideabi"@ =~= "armv7"@.push('a') + "-linux-androideabi"@) by {
        reveal_strlit("armv7a-linux-androideabi");
        reveal_strlit("armv7");
        reveal_strlit("-linux-androideabi");
    }
}

/// The targets of a manifest that names known ABIs are those ABIs in that order, each
/// packed under its own name; one that is not known is left out and moves nothing.
pub proof fn targets_follow_names(names: Seq<Seq<char>>)
    ensures
        targets_of(names).map_values(|t: AbiTargetView| t.abi) == names.filter(
            |n: Seq<char>| processor(n) is Some,
        ),
        forall|i: int|
            0 <= i < targets_of(names).len() ==> (#[trigger] targets_of(names)[i]).jni_libs_dir
                == targets_of(names)[i].abi,
    decreases names.len(),
{
    reveal(Seq::filter);
    let known = |n: Seq<char>| processor(n) is Some;
    let abi = |t: AbiTargetView| t.abi;
    if names.len() > 0 {
        targets_follow_names(names.drop_last());
        abi_fits_its_processor(names.last());
        assert(targets_of(names).map_values(abi) =~= names.filter(known));
    } else {
        assert(targets_of(names).map_values(abi) =~= names.filter(known));
    }
}

/// The orientations have different values, each the name of its variant in lower case.
pub proof fn orientations_differ(a: Orientation, b: Orientation)
    ensures
        a.android_value() == b.android_value() ==> a == b,
        a.android_value()[0] == (match a {
            Orientation::Unspecified => 'u',
            Orientation::Portrait => 'p',
            Orientation::Landscape => 'l',
            Orientation::Sensor => 's',
        }),
{
    assert(beginning("unspecified"@) == (11nat, 'u')) by {
        reveal_strlit("unspecified");
    }
    assert(beginning("portrait"@) == (8nat, 'p')) by {
        reveal_strlit("portrait");
    }
    assert(beginning("landscape"@) == (9nat, 'l')) by {
        reveal_strlit("landscape");
    }
    assert(beginning("sensor"@) == (6nat, 's')) by {
        reveal_strlit("sensor");
    }
}

// ---------------------------------------------------------------------------
// Which ids are valid

/// Two or more parts with dots between them are a valid id exactly where each of them
/// begins with a letter and has letters, digits and underscores alone.
pub proof fn parts_make_id(parts: Seq<Seq<char>>)
    requires
        parts.len() >= 1,
        forall|i: int| 0 <= i < parts.len() ==> !(#[trigger] parts[i]).contains('.'),
    ensures
        valid_app_id(joined(parts, seq!['.'])) <==> parts.len() >= 2 && (forall|i: int|
            0 <= i < parts.len() ==> valid_segment(#[trigger] parts[i])),
{
    split_all_of_list(parts, '.');
}

/// A valid id stays in what a Java package may be called: it has a dot, neither begins
/// nor ends with one, and has no character but letters, digits, underscores and dots.
pub proof fn valid_id_is_plain(id: Seq<char>)
    requires
        valid_app_id(id),
    ensures
        id.contains('.'),
        id.len() >= 3,
        ascii_letter(id[0]),
        id.last() != '.',
        forall|i: int|
            0 <= i < id.len() ==> ascii_alnum(#[trigger] id[i]) || id[i] == '_' || id[i] == '.',
{
    let parts = split_all(id, '.');
    split_all_joins(id, '.');
    parts_are_plain(parts);
    if !id.contains('.') {
        split_all_without(id, '.');
    }
    let head = joined(parts.drop_last(), seq!['.']);
    assert(id == head + seq!['.'] + parts.last());
    parts_are_plain(parts.drop_last());
    assert(id[0] == head[0]);
    assert(id.last() == parts.last().last());
}

proof fn parts_are_plain(parts: Seq<Seq<char>>)
    requires
        parts.len() >= 1,
        forall|i: int| 0 <= i < parts.len() ==> valid_segment(#[trigger] parts[i]),
    ensures
        ({
            let s = joined(parts, seq!['.']);
            &&& s.len() >= 1
            &&& s[0] == parts[0][0]
            &&& forall|i: int|
                0 <= i < s.len() ==> ascii_alnum(#[trigger] s[i]) || s[i] == '_' || s[i] == '.'
        }),
    decreases parts.len(),
{
    reveal_with_fuel(joined, 2);
    if parts.len() > 1 {
        parts_are_plain(parts.drop_last());
    }
}

// ---------------------------------------------------------------------------
// A fresh manifest

/// A fresh `Rusk.toml`.
pub open spec fn new_manifest_text(project_name: Seq<char>, app_id: Seq<char>) -> Seq<char> {
    "[package]\nname = \""@ + project_name + "\"\nid = \""@ + app_id
        + "\"\nversion = \"0.1.0\"\nentry = \"src/main.rs\"\nsdk_min = 24\nsdk_target = 34\nsdk_compile = 34\n\n[app]\nlabel = \""@
        + project_name
        + "\"\norientation = \"unspecified\"\nfullscreen = false\ndebuggable = true\n\n[abi]\ntargets = [\"arm64-v8a\", \"x86_64\"]\n\n[permissions]\nlist = [\"INTERNET\"]\n\n[dependencies.java]\n# \"androidx.core:core-ktx\" = \"1.13.1\"\n\n[ndk]\n# version = \"27.0.12077973\"\n"@
}

/// A fresh `Rusk.toml` for a project.
pub fn render_new_manifest(project_name: &str, app_id: &str) -> (r: String)
    ensures
        r@ == new_manifest_text(project_name@, app_id@),
{
    let mut out = "[package]\nname = \"".to_owned();
    out.append(project_name);
    out.append("\"\nid = \"");
    out.append(app_id);
    out.append(
        "\"\nversion = \"0.1.0\"\nentry = \"src/main.rs\"\nsdk_min = 24\nsdk_target = 34\nsdk_compile = 34\n\n[app]\nlabel = \"",
    );
    out.append(project_name);
    out.append(
        "\"\norientation = \"unspecified\"\nfullscreen = false\ndebuggable = true\n\n[abi]\ntargets = [\"arm64-v8a\", \"x86_64\"]\n\n[permissions]\nlist = [\"INTERNET\"]\n\n[dependencies.java]\n# \"androidx.core:core-ktx\" = \"1.13.1\"\n\n[ndk]\n# version = \"27.0.12077973\"\n",
    );
    out
}

/// The message of an error tells what it is about; of a wrong range of levels which of
/// them is which.
#[verifier::rlimit(40)]
pub proof fn message_tells_all(e: ManifestError)
    ensures
        match e {
            ManifestError::NotFound(dir) => contains_text(e.text(), dir@),
            ManifestError::InvalidAppId(id) => contains_text(e.text(), id@),
            ManifestError::MissingEntry(path) => contains_text(e.text(), path@),
            ManifestError::UnknownAbi(abi) => contains_text(e.text(), abi@),
            ManifestError::SdkRange { sdk_min, sdk_target } => contains_text(e.text(), "sdk_min` ("@ + decimal(sdk_min as nat)) && contains_text(e.text(), "sdk_target` ("@ + decimal(sdk_target as nat)),
            ManifestError::UnknownFlavor(name) => contains_text(e.text(), name@),
        },
{
    match e {
        ManifestError::NotFound(dir) => {
            tells("Rusk.toml not found in "@, dir@);
            tells_more("Rusk.toml not found in "@ + dir@, " (or any parent directory)"@, dir@);
        },
        ManifestError::InvalidAppId(id) => {
            tells("invalid `package.id` \""@, id@);
            tells_more("invalid `package.id` \""@ + id@, "\": must be a reverse-DNS Java package identifier, e.g. com.example.app"@, id@);
        },
        ManifestError::MissingEntry(path) => {
            tells("`package.entry` points to \""@, path@);
            tells_more("`package.entry` points to \""@ + path@, "\", but that file does not exist"@, path@);
        },
        ManifestError::UnknownAbi(abi) => {
            tells("unknown ABI \""@, abi@);
            tells_more("unknown ABI \""@ + abi@, "\"; expected one of: arm64-v8a, armeabi-v7a, x86_64, x86"@, abi@);
        },
        ManifestError::SdkRange { sdk_min, sdk_target } => {
            assert("`package.sdk_min` ("@ =~= "`package."@ + "sdk_min` ("@) by {
                reveal_strlit("`package.sdk_min` (");
                reveal_strlit("`package.");
                reveal_strlit("sdk_min` (");
            }
            tells("`package."@, "sdk_min` ("@ + decimal(sdk_min as nat));
            behind_three("`package."@, "sdk_min` ("@, decimal(sdk_min as nat), seq![]);
            tells_more("`package.sdk_min` ("@ + decimal(sdk_min as nat), ") cannot be greater than `package.sdk_target` ("@, "sdk_min` ("@ + decimal(sdk_min as nat));
            tells_more("`package.sdk_min` ("@ + decimal(sdk_min as nat) + ") cannot be greater than `package.sdk_target` ("@, decimal(sdk_target as nat), "sdk_min` ("@ + decimal(sdk_min as nat));
            tells_more("`package.sdk_min` ("@ + decimal(sdk_min as nat) + ") cannot be greater than `package.sdk_target` ("@ + decimal(sdk_target as nat), ")"@, "sdk_min` ("@ + decimal(sdk_min as nat));
            assert(") cannot be greater than `package.sdk_target` ("@ =~= ") cannot be greater than `package."@ + "sdk_target` ("@) by {
                reveal_strlit(") cannot be greater than `package.sdk_target` (");
                reveal_strlit(") cannot be greater than `package.");
                reveal_strlit("sdk_target` (");
            }
            tells_behind("`package.sdk_min` ("@ + decimal(sdk_min as nat), ") cannot be greater than `package."@, "sdk_target` ("@, decimal(sdk_target as nat));
            tells_more("`package.sdk_min` ("@ + decimal(sdk_min as nat) + ") cannot be greater than `package.sdk_target` ("@ + decimal(sdk_target as nat), ")"@, "sdk_target` ("@ + decimal(sdk_target as nat));
        },
        ManifestError::UnknownFlavor(name) => {
            tells("no [[flavor]] named \""@, name@);
            tells_more("no [[flavor]] named \""@ + name@, "\" in Rusk.toml"@, name@);
        },
    }
}

/// A fresh manifest begins with the project's name and its id; the name is its label
/// too.
pub proof fn fresh_manifest_has_its_name(project_name: Seq<char>, app_id: Seq<char>)
    ensures
        ("[package]\nname = \""@ + project_name + "\"\nid = \""@ + app_id).is_prefix_of(
            new_manifest_text(project_name, app_id),
        ),
        contains_text(new_manifest_text(project_name, app_id), "[app]\nlabel = \""@ + project_name),
{
    let head = "[package]\nname = \""@ + project_name + "\"\nid = \""@ + app_id;
    let middle =
        "\"\nversion = \"0.1.0\"\nentry = \"src/main.rs\"\nsdk_min = 24\nsdk_target = 34\nsdk_compile = 34\n\n[app]\nlabel = \""@;
    let end =
        "\"\norientation = \"unspecified\"\nfullscreen = false\ndebuggable = true\n\n[abi]\ntargets = [\"arm64-v8a\", \"x86_64\"]\n\n[permissions]\nlist = [\"INTERNET\"]\n\n[dependencies.java]\n# \"androidx.core:core-ktx\" = \"1.13.1\"\n\n[ndk]\n# version = \"27.0.12077973\"\n"@;
    let label = "[app]\nlabel = \""@;
    let n = (middle.len() - label.len()) as int;
    assert(middle =~= middle.take(n) + label && n > 0) by {
        reveal_strlit(
            "\"\nversion = \"0.1.0\"\nentry = \"src/main.rs\"\nsdk_min = 24\nsdk_target = 34\nsdk_compile = 34\n\n[app]\nlabel = \"",
        );
        reveal_strlit("[app]\nlabel = \"");
    }
    let text = new_manifest_text(project_name, app_id);
    assert(text == head + middle + project_name + end);
    assert(text.subrange(0, head.len() as int) =~= head);
    tells_behind(head, middle.take(n), label, project_name);
    tells_more(head + middle + project_name, end, label + project_name);
}

} // verus!
