//! The build pipeline: what is compiled, with which commands, what is generated
//! and what goes into the APK. Running the commands and touching files is left
//! to the caller, which goes through the stages in the order given here.
use crate::androidgen::{generate_activity_shim_java, shim_class};
use crate::digest::sha256_hex;
use crate::incremental::{
    ArtifactFile, BuildFingerprint, CacheDecision, CachedArtifact, CachedView, DecisionView,
    IncrementalRecord, MissReason, decision, digest_of,
};
use crate::javadeps::ResolvedJar;
use crate::jnigen::{
    JniFunction, JniFunctionView, bindings_class, function_views, generate_bindings_class,
};
use crate::manifest::{
    AbiTarget, AbiTargetView, ManifestView, RuskManifest, SigningView, abi_named, abi_table,
    resolve_abi,
};
use crate::ndk::{NdkHome, clang_path, toolchain_dir};
use crate::num::{decimal, push_decimal, push_signed, signed_decimal};
use crate::ordmap::{in_key_order, map_items_keeps_order, with_entry};
use crate::path::{
    HostOs, components, exe_name, exe_suffix, join_path, joined_4, joined_components, joined_path,
    one_name, steady, undotted_is_one_name,
};
use crate::text::{
    behind_three, chars_of, clone_pairs, concat2, concat3, contains_in_middle, contains_text, join,
    joined, one_if, opt_view, option_is, pair_views, replace_char, replaced, replaced_one_for_one,
    same, sort_dedup_strings, split_all, split_all_of_list, strictly_in_order, tells, tells_behind,
    tells_more, text_of, to_upper_text, uppered, views,
};
use vstd::prelude::*;

verus! {

/// Why a build failed.
#[derive(Debug)]
pub enum BuildError {
    /// Something at a path could not be used.
    Io { path: String, source: String },
    CargoTomlMissing(String),
    CargoBuildFailed { triple: String, status: i32 },
    MissingBuiltLib(String),
    JavacFailed(i32),
    RustupTargetFailed { triple: String, status: i32 },
    RustupMissing(String),
}

impl BuildError {
    /// The text of the message shown for the error.
    pub open spec fn text(&self) -> Seq<char> {
        match *self {
            BuildError::Io { path, source } => "io error at "@ + path@ + ": "@ + source@,
            BuildError::CargoTomlMissing(path) => "failed to read the project's Cargo.toml at "@
                + path@,
            BuildError::CargoBuildFailed { triple, status } =>
                "`cargo build` failed for target "@ + triple@ + " (exit "@ + signed_decimal(
                status as int,
            ) + ")"@,
            BuildError::MissingBuiltLib(path) => "built library not found at "@ + path@
                + "; check that Cargo.toml declares `crate-type = [\"cdylib\"]`"@,
            BuildError::JavacFailed(status) =>
                "`javac` failed compiling the generated activity shim (exit "@ + signed_decimal(
                status as int,
            ) + ")"@,
            BuildError::RustupTargetFailed { triple, status } =>
                "rustup could not install target \""@ + triple@ + "\" (exit "@ + signed_decimal(
                status as int,
            )
                + "); if you're not using rustup, add the target's prebuilt std another way, then re-run rusk build"@,
            BuildError::RustupMissing(triple) => "`rustup` was not found on PATH, and target \""@
                + triple@
                + "\" is not installed; either install rustup or add this Android target's std some other way"@,
        }
    }

    /// The message shown for the error.
    pub fn message(&self) -> (r: String)
        ensures
            r@ == self.text(),
    {
        match self {
            BuildError::Io { path, source } => {
                let mut out = concat3("io error at ", path, ": ");
                out.append(source);
                out
            },
            BuildError::CargoTomlMissing(path) => concat2(
                "failed to read the project's Cargo.toml at ",
                path,
            ),
            BuildError::CargoBuildFailed { triple, status } => {
                let mut out = concat3("`cargo build` failed for target ", triple, " (exit ");
                push_signed(&mut out, *status);
                out.append(")");
                out
            },
            BuildError::MissingBuiltLib(path) => concat3(
                "built library not found at ",
                path,
                "; check that Cargo.toml declares `crate-type = [\"cdylib\"]`",
            ),
            BuildError::JavacFailed(status) => {
                let mut out =
                    "`javac` failed compiling the generated activity shim (exit ".to_owned();
                push_signed(&mut out, *status);
                out.append(")");
                out
            },
            BuildError::RustupTargetFailed { triple, status } => {
                let mut out = concat3(
                    "rustup could not install target \"",
                    triple,
                    "\" (exit ",
                );
                push_signed(&mut out, *status);
                out.append(
                    "); if you're not using rustup, add the target's prebuilt std another way, then re-run rusk build",
                );
                out
            },
            BuildError::RustupMissing(triple) => concat3(
                "`rustup` was not found on PATH, and target \"",
                triple,
                "\" is not installed; either install rustup or add this Android target's std some other way",
            ),
        }
    }
}

/// How the crate is compiled.
#[derive(Debug, Clone, Copy, PartialEq, Eq, Structural)]
pub enum Profile {
    Debug,
    Release,
}

impl Profile {
    /// The directory of what cargo builds.
    pub open spec fn dir(self) -> Seq<char> {
        match self {
            Profile::Debug => "debug"@,
            Profile::Release => "release"@,
        }
    }

    /// The flag that selects the profile, if one is needed.
    pub fn cargo_flag(&self) -> (r: Option<&'static str>)
        ensures
            match r {
                Some(flag) => *self == Profile::Release && flag@ == "--release"@,
                None => *self == Profile::Debug,
            },
    {
        match self {
            Profile::Debug => None,
            Profile::Release => Some("--release"),
        }
    }

    /// The directory of what cargo builds.
    pub fn dir_name(&self) -> (r: &'static str)
        ensures
            r@ == self.dir(),
    {
        match self {
            Profile::Debug => "debug",
            Profile::Release => "release",
        }
    }
}

/// What to build.
#[derive(Debug)]
pub struct BuildOptions {
    pub project_root: String,
    pub profile: Profile,
    pub flavor: Option<String>,
}

/// What a build produced.
#[derive(Debug)]
pub struct BuildOutcome {
    pub apk_path: String,
}

/// Whether an ABI can be built for.
pub fn check_abi(name: &str) -> (r: bool)
    ensures
        r == (abi_named(name@) is Some),
{
    resolve_abi(name).is_some()
}

/// The last `max_chars` characters of a text, after an ellipsis where
/// something was left out.
pub open spec fn tail_of(s: Seq<char>, max_chars: nat) -> Seq<char> {
    if s.len() <= max_chars {
        s
    } else {
        seq!['…'] + s.skip(s.len() - max_chars)
    }
}

/// Keeps the last `max_chars` characters of a text.
pub fn truncate_tail(s: &str, max_chars: usize) -> (r: String)
    ensures
        r@ == tail_of(s@, max_chars as nat),
        r@.len() <= max_chars + 1,
{
    let v = chars_of(s);
    if v.len() <= max_chars {
        return s.to_owned();
    }
    let mut out = String::new();
    out.push('…');
    let tail = text_of(&v, v.len() - max_chars, v.len());
    out.append(&tail);
    assert(out@ =~= tail_of(s@, max_chars as nat));
    out
}

/// The name of the library that a crate builds.
pub fn library_name(crate_name: &str) -> (r: String)
    ensures
        r@ == replaced(crate_name@, '-', "_"@),
{
    replace_char(crate_name, '-', "_")
}

/// The title of the build: the project's name, with the flavor in brackets.
pub fn build_title(name: &str, flavor: &Option<String>) -> (r: String)
    ensures
        r@ == (match flavor {
            Some(f) => name@ + " ["@ + f@ + "]"@,
            None => name@,
        }),
{
    match flavor {
        Some(f) => {
            let mut out = name.to_owned();
            out.append(" [");
            out.append(f);
            out.append("]");
            out
        },
        None => name.to_owned(),
    }
}

// ---------------------------------------------------------------------------
// Stages

/// The stages of a build.
#[derive(Debug, Clone, Copy, PartialEq, Eq, Structural)]
pub enum Stage {
    /// Provide the NDK.
    Ndk,
    /// Read the crate's name.
    CrateName,
    /// Compile for each target, or reuse what was compiled.
    Compile,
    /// Write the record of compiled targets.
    SaveRecord,
    /// Find or install the SDK's tools.
    Tools,
    /// Look for exported JNI functions.
    ScanJni,
    /// Resolve and fetch the Java dependencies.
    ResolveJava,
    /// Write the generated Java sources.
    WriteSources,
    /// Compile the generated Java sources.
    Javac,
    /// Provide the key to sign with.
    Signing,
    /// Package, align and sign.
    Package,
    /// Show what was built and update the lock file.
    Summary,
    Done,
}

/// The stage after `stage`. Java dependencies are resolved only where the
/// project has some, and Java is compiled only where the application has code.
pub open spec fn stage_after(stage: Stage, has_java_deps: bool, has_code: bool) -> Stage {
    match stage {
        Stage::Ndk => Stage::CrateName,
        Stage::CrateName => Stage::Compile,
        Stage::Compile => Stage::SaveRecord,
        Stage::SaveRecord => Stage::Tools,
        Stage::Tools => Stage::ScanJni,
        Stage::ScanJni => if has_java_deps {
            Stage::ResolveJava
        } else if has_code {
            Stage::WriteSources
        } else {
            Stage::Signing
        },
        Stage::ResolveJava => Stage::WriteSources,
        Stage::WriteSources => Stage::Javac,
        Stage::Javac => Stage::Signing,
        Stage::Signing => Stage::Package,
        Stage::Package => Stage::Summary,
        Stage::Summary => Stage::Done,
        Stage::Done => Stage::Done,
    }
}

/// The stage after `stage`.
pub fn next_stage(stage: Stage, has_java_deps: bool, has_code: bool) -> (r: Stage)
    ensures
        r == stage_after(stage, has_java_deps, has_code),
{
    match stage {
        Stage::Ndk => Stage::CrateName,
        Stage::CrateName => Stage::Compile,
        Stage::Compile => Stage::SaveRecord,
        Stage::SaveRecord => Stage::Tools,
        Stage::Tools => Stage::ScanJni,
        Stage::ScanJni => if has_java_deps {
            Stage::ResolveJava
        } else if has_code {
            Stage::WriteSources
        } else {
            Stage::Signing
        },
        Stage::ResolveJava => Stage::WriteSources,
        Stage::WriteSources => Stage::Javac,
        Stage::Javac => Stage::Signing,
        Stage::Signing => Stage::Package,
        Stage::Package => Stage::Summary,
        Stage::Summary => Stage::Done,
        Stage::Done => Stage::Done,
    }
}

/// The stage after `n` steps from the first.
pub open spec fn stage_at(n: nat, has_java_deps: bool, has_code: bool) -> Stage
    decreases n,
{
    if n == 0 {
        Stage::Ndk
    } else {
        stage_after(stage_at((n - 1) as nat, has_java_deps, has_code), has_java_deps, has_code)
    }
}

/// Every build comes to its end; it compiles Java exactly if the application
/// has code, and resolves Java dependencies exactly if there are some.
pub proof fn build_runs_to_its_end(has_java_deps: bool, has_code: bool)
    requires
        has_java_deps ==> has_code,
    ensures
        stage_at(12, has_java_deps, has_code) == Stage::Done,
        (exists|n: nat| stage_at(n, has_java_deps, has_code) == Stage::Javac) <==> has_code,
        (exists|n: nat| stage_at(n, has_java_deps, has_code) == Stage::ResolveJava)
            <==> has_java_deps,
{
    reveal_with_fuel(stage_at, 13);
    if has_java_deps {
        assert(stage_at(6, has_java_deps, has_code) == Stage::ResolveJava);
        assert(stage_at(8, has_java_deps, has_code) == Stage::Javac);
    } else if has_code {
        assert(stage_at(7, has_java_deps, has_code) == Stage::Javac);
    }
    assert forall|n: nat| !has_code implies #[trigger] stage_at(n, has_java_deps, has_code)
        != Stage::Javac && stage_at(n, has_java_deps, has_code) != Stage::WriteSources && stage_at(
        n,
        has_java_deps,
        has_code,
    ) != Stage::ResolveJava by {
        if !has_code {
            stages_without_code(n);
        }
    }
    assert forall|n: nat| !has_java_deps implies #[trigger] stage_at(n, has_java_deps, has_code)
        != Stage::ResolveJava by {
        if !has_java_deps {
            stages_without_java(n, has_code);
        }
    }
}

proof fn stages_without_code(n: nat)
    ensures
        stage_at(n, false, false) != Stage::Javac,
        stage_at(n, false, false) != Stage::WriteSources,
        stage_at(n, false, false) != Stage::ResolveJava,
    decreases n,
{
    if n > 0 {
        stages_without_code((n - 1) as nat);
    }
}

proof fn stages_without_java(n: nat, has_code: bool)
    ensures
        stage_at(n, false, has_code) != Stage::ResolveJava,
    decreases n,
{
    if n > 0 {
        stages_without_java((n - 1) as nat, has_code);
    }
}

// ---------------------------------------------------------------------------
// Compiling one target

/// A command to run: its program, its arguments and what is added to its
/// environment.
#[derive(Debug)]
pub struct CommandLine {
    pub program: String,
    pub args: Vec<String>,
    pub env: Vec<(String, String)>,
}

/// The arguments of `cargo`.
pub open spec fn cargo_args(
    triple: Seq<char>,
    profile: Profile,
    features: Seq<Seq<char>>,
) -> Seq<Seq<char>> {
    seq!["build"@, "--target"@, triple, "--lib"@] + one_if(
        profile == Profile::Release,
        "--release"@,
    ) + (if features.len() > 0 {
        seq!["--features"@, joined(features, ","@)]
    } else {
        seq![]
    })
}

/// The flags for `rustc`. On Windows the linker does not know the target from
/// its own name, so it is told.
pub open spec fn rustflags(host: HostOs, clang_target: Seq<char>, api_level: u32) -> Seq<char> {
    if host == HostOs::Windows {
        "-C link-arg=--target="@ + clang_target + decimal(api_level as nat) + " "@
            + "-C link-arg=-landroid -C link-arg=-llog"@
    } else {
        "-C link-arg=-landroid -C link-arg=-llog"@
    }
}

/// The environment that makes cargo and build scripts use the NDK's compilers.
pub open spec fn cargo_env(
    host: HostOs,
    ndk_root: Seq<char>,
    target: AbiTargetView,
    api_level: u32,
) -> Seq<(Seq<char>, Seq<char>)> {
    let clang = clang_path(host, ndk_root, target.clang_target, api_level, "clang"@);
    let clang_cxx = clang_path(host, ndk_root, target.clang_target, api_level, "clang++"@);
    let ar = joined_path(host, toolchain_dir(host, ndk_root), "llvm-ar"@ + exe_suffix(host));
    let loud = replaced(uppered(target.rust_triple), '-', "_"@);
    let quiet = replaced(target.rust_triple, '-', "_"@);
    seq![
        ("CARGO_TARGET_"@ + loud + "_LINKER"@, clang),
        ("CC_"@ + target.rust_triple, clang),
        ("CXX_"@ + target.rust_triple, clang_cxx),
        ("AR_"@ + target.rust_triple, ar),
        ("CC_"@ + quiet, clang),
        ("CXX_"@ + quiet, clang_cxx),
        ("AR_"@ + quiet, ar),
        ("ANDROID_NDK_HOME"@, ndk_root),
        (
            "CARGO_TARGET_"@ + loud + "_RUSTFLAGS"@,
            rustflags(host, target.clang_target, api_level),
        ),
    ]
}

fn write_rustflags(host: HostOs, clang_target: &str, api_level: u32) -> (r: String)
    ensures
        r@ == rustflags(host, clang_target@, api_level),
{
    let base = "-C link-arg=-landroid -C link-arg=-llog";
    if host == HostOs::Windows {
        let mut out = "-C link-arg=--target=".to_owned();
        out.append(clang_target);
        push_decimal(&mut out, api_level as u64);
        out.append(" ");
        out.append(base);
        out
    } else {
        base.to_owned()
    }
}

fn write_cargo_args(triple: &str, profile: Profile, features: &Vec<String>) -> (r: Vec<String>)
    ensures
        views(r@) == cargo_args(triple@, profile, views(features@)),
{
    let mut args = vec![
        "build".to_owned(),
        "--target".to_owned(),
        triple.to_owned(),
        "--lib".to_owned(),
    ];
    if let Some(flag) = profile.cargo_flag() {
        args.push(flag.to_owned());
    }
    if features.len() > 0 {
        args.push("--features".to_owned());
        args.push(join(features, ","));
    }
    assert(views(features@).len() == features.len());
    assert(views(args@) =~= cargo_args(triple@, profile, views(features@)));
    args
}

/// The command that compiles the crate's library for a target.
pub fn cargo_command(
    host: HostOs,
    ndk: &NdkHome,
    target: &AbiTarget,
    api_level: u32,
    profile: Profile,
    features: &Vec<String>,
) -> (r: CommandLine)
    requires
        abi_table().contains(target@),
    ensures
        r.program@ == "cargo"@,
        views(r.args@) == cargo_args(target@.rust_triple, profile, views(features@)),
        pair_views(r.env@) == cargo_env(host, ndk.root@, target@, api_level),
{
    let clang = ndk.clang_driver(host, target.clang_target, api_level);
    let clang_cxx = ndk.clang_cxx_driver(host, target.clang_target, api_level);
    let ar = join_path(host, &ndk.toolchain_bin(host), &exe_name(host, "llvm-ar"));
    let loud = replace_char(&to_upper_text(target.rust_triple), '-', "_");
    let quiet = replace_char(target.rust_triple, '-', "_");
    let env = vec![
        (concat3("CARGO_TARGET_", &loud, "_LINKER"), clang.clone()),
        (concat2("CC_", target.rust_triple), clang.clone()),
        (concat2("CXX_", target.rust_triple), clang_cxx.clone()),
        (concat2("AR_", target.rust_triple), ar.clone()),
        (concat2("CC_", &quiet), clang),
        (concat2("CXX_", &quiet), clang_cxx),
        (concat2("AR_", &quiet), ar),
        ("ANDROID_NDK_HOME".to_owned(), ndk.root.clone()),
        (
            concat3("CARGO_TARGET_", &loud, "_RUSTFLAGS"),
            write_rustflags(host, target.clang_target, api_level),
        ),
    ];
    assert(pair_views(env@) =~= cargo_env(host, ndk.root@, target@, api_level));
    CommandLine {
        program: "cargo".to_owned(),
        args: write_cargo_args(target.rust_triple, profile, features),
        env,
    }
}

/// The arguments that make `rustup` install a target.
pub fn rustup_args(triple: &str) -> (r: Vec<String>)
    ensures
        views(r@) == seq!["target"@, "add"@, triple@],
{
    let r = vec!["target".to_owned(), "add".to_owned(), triple.to_owned()];
    assert(views(r@) =~= seq!["target"@, "add"@, triple@]);
    r
}

/// How a command ended: it could not be started, or it ran and ended with a
/// success or with a code, which is missing where a signal ended it.
#[derive(Debug, Clone, Copy)]
pub enum Ended {
    NotStarted,
    Success,
    Failure(Option<i32>),
}

/// The code of a failure; -1 where there is none.
pub open spec fn code_or_minus_one(code: Option<i32>) -> i32 {
    match code {
        Some(c) => c,
        None => -1i32,
    }
}

fn failure_code(code: Option<i32>) -> (r: i32)
    ensures
        r == code_or_minus_one(code),
{
    match code {
        Some(c) => c,
        None => -1,
    }
}

/// Whether a target is installed, from how `rustup` ended. Without `rustup` it may
/// still be: `present` says whether the compiler has the target's standard library.
pub fn rustup_outcome(triple: &str, ended: Ended, present: bool) -> (r: Result<(), BuildError>)
    ensures
        match (r, ended) {
            (Ok(()), Ended::Success) => true,
            (Ok(()), Ended::NotStarted) => present,
            (Err(BuildError::RustupTargetFailed { triple: t, status }), Ended::Failure(code)) => t@
                == triple@ && status == code_or_minus_one(code),
            (Err(BuildError::RustupMissing(t)), Ended::NotStarted) => !present && t@ == triple@,
            _ => false,
        },
{
    match ended {
        Ended::Success => Ok(()),
        Ended::Failure(code) => Err(
            BuildError::RustupTargetFailed {
                triple: triple.to_owned(),
                status: failure_code(code),
            },
        ),
        Ended::NotStarted => if present {
            Ok(())
        } else {
            Err(BuildError::RustupMissing(triple.to_owned()))
        },
    }
}

/// Where cargo puts the library it builds for a target.
pub open spec fn library_path(
    host: HostOs,
    project_root: Seq<char>,
    triple: Seq<char>,
    profile: Profile,
    crate_name: Seq<char>,
) -> Seq<char> {
    joined_path(
        host,
        joined_path(
            host,
            joined_path(host, joined_path(host, project_root, "target"@), triple),
            profile.dir(),
        ),
        "lib"@ + replaced(crate_name, '-', "_"@) + ".so"@,
    )
}

/// Where cargo puts the library it builds for a target.
pub fn built_library(
    host: HostOs,
    project_root: &str,
    triple: &str,
    profile: Profile,
    crate_name: &str,
) -> (r: String)
    ensures
        r@ == library_path(host, project_root@, triple@, profile, crate_name@),
{
    let target = join_path(host, project_root, "target");
    let dir = join_path(host, &join_path(host, &target, triple), profile.dir_name());
    join_path(host, &dir, &concat3("lib", &library_name(crate_name), ".so"))
}

/// The result of compiling for a target: the library, where cargo succeeded
/// and the library is there.
pub fn compile_outcome(
    triple: &str,
    success: bool,
    code: Option<i32>,
    library: String,
    library_exists: bool,
) -> (r: Result<String, BuildError>)
    ensures
        match r {
            Ok(path) => success && library_exists && path@ == library@,
            Err(BuildError::CargoBuildFailed { triple: t, status }) => !success && t@ == triple@
                && status == code_or_minus_one(code),
            Err(BuildError::MissingBuiltLib(path)) => success && !library_exists && path@
                == library@,
            Err(_) => false,
        },
{
    if !success {
        return Err(
            BuildError::CargoBuildFailed {
                triple: triple.to_owned(),
                status: failure_code(code),
            },
        );
    }
    if !library_exists {
        return Err(BuildError::MissingBuiltLib(library));
    }
    Ok(library)
}

/// The line that announces a target.
pub fn compile_label(target: &AbiTarget, reused: bool) -> (r: String)
    ensures
        r@ == "Compiling for "@ + target@.abi + " ("@ + target@.rust_triple + (if reused {
            ") — unchanged since last build"@
        } else {
            ")"@
        }),
{
    let mut out = concat3("Compiling for ", target.abi, " (");
    out.append(target.rust_triple);
    out.append(
        if reused {
            ") — unchanged since last build"
        } else {
            ")"
        },
    );
    out
}

// ---------------------------------------------------------------------------
// Compiling all targets

/// The targets of a build, of which the first `done` have their library.
#[derive(Debug)]
pub(crate) struct CompileRun {
    pub(crate) targets: Vec<AbiTarget>,
    pub(crate) done: usize,
    /// The directory in the APK and the path of each library.
    pub(crate) native_libs: Vec<(String, String)>,
    pub(crate) record: IncrementalRecord,
}

/// What to do for a target.
#[derive(Debug)]
pub enum TargetAction {
    /// Its library is unchanged and has been taken over.
    Reused(String),
    Compile,
}

impl CompileRun {
    /// The targets done each have one library, in their order.
    pub(crate) open spec fn wf(&self) -> bool {
        &&& self.done <= self.targets.len()
        &&& self.native_libs.len() == self.done
        &&& forall|i: int|
            0 <= i < self.done ==> (#[trigger] self.native_libs@[i]).0@
                == self.targets@[i]@.jni_libs_dir
        &&& in_key_order(self.record@)
    }

    /// Before the first target.
    pub(crate) fn new(targets: Vec<AbiTarget>, record: IncrementalRecord) -> (r: Self)
        ensures
            r.wf(),
            r.targets == targets,
            r.done == 0,
            r.native_libs@.len() == 0,
            r.record == record,
    {
        proof {
            use_type_invariant(&record.artifacts);
            map_items_keeps_order(record.artifacts@, |a: CachedArtifact| a@);
        }
        CompileRun { targets, done: 0, native_libs: Vec::new(), record }
    }

    /// The next target, if one is left.
    pub(crate) fn current(&self) -> (r: Option<AbiTarget>)
        requires
            self.wf(),
        ensures
            match r {
                Some(t) => self.done < self.targets.len() && t == self.targets@[self.done as int],
                None => self.done == self.targets.len(),
            },
    {
        if self.done < self.targets.len() {
            Some(self.targets[self.done])
        } else {
            None
        }
    }

    /// Decides on the next target. `found` is what stands where the record says
    /// that its library is. A library that can be reused is taken over. A target
    /// without a fingerprint is compiled.
    pub(crate) fn decide(
        &mut self,
        fingerprint: &Option<BuildFingerprint>,
        found: &ArtifactFile,
    ) -> (r: TargetAction)
        requires
            old(self).wf(),
            old(self).done < old(self).targets.len(),
        ensures
            final(self).wf(),
            final(self).targets == old(self).targets,
            final(self).record == old(self).record,
            ({
                let target = old(self).targets@[old(self).done as int]@;
                let hit = match fingerprint {
                    Some(fp) => decision(
                        old(self).record@,
                        target.rust_triple,
                        fp@,
                        digest_of(*found),
                    ),
                    None => DecisionView::Miss(MissReason::NoPriorBuild),
                };
                match r {
                    TargetAction::Reused(path) => {
                        &&& hit == DecisionView::Hit(path@)
                        &&& final(self).done == old(self).done + 1
                        &&& pair_views(final(self).native_libs@) == pair_views(
                            old(self).native_libs@,
                        ).push((target.jni_libs_dir, path@))
                    },
                    TargetAction::Compile => {
                        &&& hit is Miss
                        &&& *final(self) == *old(self)
                    },
                }
            }),
    {
        let target = self.targets[self.done];
        match fingerprint {
            Some(fp) => match self.record.check(target.rust_triple, fp, found) {
                CacheDecision::Hit(path) => {
                    self.take(path.clone());
                    TargetAction::Reused(path)
                },
                CacheDecision::Miss(_) => TargetAction::Compile,
            },
            None => TargetAction::Compile,
        }
    }

    fn take(&mut self, path: String)
        requires
            old(self).wf(),
            old(self).done < old(self).targets.len(),
        ensures
            final(self).wf(),
            final(self).targets == old(self).targets,
            final(self).record == old(self).record,
            final(self).done == old(self).done + 1,
            pair_views(final(self).native_libs@) == pair_views(old(self).native_libs@).push(
                (old(self).targets@[old(self).done as int]@.jni_libs_dir, path@),
            ),
    {
        let dir = self.targets[self.done].jni_libs_dir.to_owned();
        let ghost libs = self.native_libs@;
        let entry = (dir, path);
        self.native_libs.push(entry);
        assert(pair_views(self.native_libs@) =~= pair_views(libs).push((entry.0@, entry.1@)));
        self.done += 1;
    }

    /// Takes a freshly compiled library, and records it where it has a
    /// fingerprint and could be read.
    pub(crate) fn compiled(
        &mut self,
        fingerprint: Option<BuildFingerprint>,
        library: String,
        contents: Option<&[u8]>,
    )
        requires
            old(self).wf(),
            old(self).done < old(self).targets.len(),
        ensures
            final(self).wf(),
            final(self).targets == old(self).targets,
            final(self).done == old(self).done + 1,
            ({
                let target = old(self).targets@[old(self).done as int]@;
                &&& pair_views(final(self).native_libs@) == pair_views(old(self).native_libs@).push(
                    (target.jni_libs_dir, library@),
                )
                &&& match (fingerprint, contents) {
                    (Some(fp), Some(bytes)) => final(self).record@ == with_entry(
                        old(self).record@,
                        target.rust_triple,
                        CachedView {
                            fingerprint: fp@,
                            artifact_path: library@,
                            artifact_sha256: sha256_hex(bytes@),
                        },
                    ),
                    _ => final(self).record == old(self).record,
                }
            }),
    {
        let target = self.targets[self.done];
        if let Some(fp) = fingerprint {
            if let Some(bytes) = contents {
                self.record.record(target.rust_triple, fp, library.clone(), bytes);
            }
        }
        self.take(library);
    }
}

// ---------------------------------------------------------------------------
// Java

/// Whether the application has Java code: its dependencies, or the
/// declarations of its JNI functions.
pub fn has_code(manifest: &RuskManifest, functions: &Vec<JniFunction>) -> (r: bool)
    ensures
        r == (manifest@.java.len() > 0 || functions@.len() > 0),
{
    assert(manifest@.java.len() == manifest.dependencies.java.entries@.len());
    manifest.dependencies.java.entries.len() > 0 || functions.len() > 0
}

/// The warning for a parameter whose type Java has no counterpart for.
pub open spec fn type_warning(f: JniFunctionView, ty: Seq<char>) -> Seq<char> {
    "JNI binding "@ + f.class_name + "."@ + f.method_name + ": unrecognized Rust param type \""@
        + ty + "\" mapped to Java Object — double-check it by hand"@
}

/// The warnings for the first `n` such types of a function.
pub open spec fn function_warnings(f: JniFunctionView, n: nat) -> Seq<Seq<char>>
    decreases n,
{
    if n == 0 || n > f.unrecognized_types.len() {
        seq![]
    } else {
        function_warnings(f, (n - 1) as nat).push(type_warning(f, f.unrecognized_types[n - 1]))
    }
}

/// The warnings for the first `n` functions.
pub open spec fn all_warnings(functions: Seq<JniFunctionView>, n: nat) -> Seq<Seq<char>>
    decreases n,
{
    if n == 0 || n > functions.len() {
        seq![]
    } else {
        let f = functions[n - 1];
        all_warnings(functions, (n - 1) as nat) + function_warnings(f, f.unrecognized_types.len())
    }
}

fn warnings_of(f: &JniFunction) -> (r: Vec<String>)
    ensures
        views(r@) == function_warnings(f@, f@.unrecognized_types.len()),
{
    let mut out: Vec<String> = Vec::new();
    assert(views(out@) =~= seq![]);
    for i in 0..f.unrecognized_types.len()
        invariant
            views(out@) == function_warnings(f@, i as nat),
    {
        let ty = &f.unrecognized_types[i];
        assert(f@.unrecognized_types[i as int] == ty@);
        let mut text = "JNI binding ".to_owned();
        text.append(&f.class_name);
        text.append(".");
        text.append(&f.method_name);
        text.append(": unrecognized Rust param type \"");
        text.append(ty);
        text.append("\" mapped to Java Object — double-check it by hand");
        let ghost so_far = out@;
        out.push(text);
        assert(views(out@) =~= views(so_far).push(text@));
    }
    assert(f@.unrecognized_types.len() == f.unrecognized_types.len());
    out
}

/// The warnings for parameters whose types Java has no counterpart for.
pub fn jni_warnings(functions: &Vec<JniFunction>) -> (r: Vec<String>)
    ensures
        views(r@) == all_warnings(function_views(functions@), functions@.len()),
{
    let mut out: Vec<String> = Vec::new();
    let ghost all = function_views(functions@);
    assert(views(out@) =~= seq![]);
    for i in 0..functions.len()
        invariant
            all == function_views(functions@),
            views(out@) == all_warnings(all, i as nat),
    {
        assert(all[i as int] == functions@[i as int]@);
        let mut more = warnings_of(&functions[i]);
        let ghost a = out@;
        let ghost b = more@;
        out.append(&mut more);
        assert(views(out@) =~= views(a) + views(b));
    }
    out
}

/// Those of the first `n` functions that belong to a class, in order.
pub open spec fn of_class(functions: Seq<JniFunctionView>, class_name: Seq<char>, n: nat) -> Seq<
    JniFunctionView,
>
    decreases n,
{
    if n == 0 || n > functions.len() {
        seq![]
    } else if functions[n - 1].class_name == class_name {
        of_class(functions, class_name, (n - 1) as nat).push(functions[n - 1])
    } else {
        of_class(functions, class_name, (n - 1) as nat)
    }
}

/// The classes of the first `n` functions, one for each function.
pub open spec fn class_names(functions: Seq<JniFunctionView>) -> Seq<Seq<char>> {
    functions.map_values(|f: JniFunctionView| f.class_name)
}

fn functions_of_class(functions: &Vec<JniFunction>, class_name: &str) -> (r: Vec<JniFunction>)
    ensures
        function_views(r@) == of_class(
            function_views(functions@),
            class_name@,
            functions@.len(),
        ),
{
    let mut out: Vec<JniFunction> = Vec::new();
    let ghost all = function_views(functions@);
    assert(function_views(out@) =~= seq![]);
    for i in 0..functions.len()
        invariant
            all == function_views(functions@),
            function_views(out@) == of_class(all, class_name@, i as nat),
    {
        assert(all[i as int] == functions@[i as int]@);
        if same(&functions[i].class_name, class_name) {
            let ghost so_far = out@;
            let f = functions[i].clone();
            out.push(f);
            assert(function_views(out@) =~= function_views(so_far).push(f@));
        }
    }
    out
}

/// The classes that functions belong to, sorted, each once.
pub fn bound_classes(functions: &Vec<JniFunction>) -> (r: Vec<String>)
    ensures
        strictly_in_order(views(r@)),
        forall|c: Seq<char>|
            #[trigger] views(r@).contains(c) <==> class_names(
                function_views(functions@),
            ).contains(c),
{
    let mut names: Vec<String> = Vec::new();
    for i in 0..functions.len()
        invariant
            names@.len() == i,
            forall|j: int| 0 <= j < i ==> (#[trigger] names@[j])@ == functions@[j].class_name@,
    {
        names.push(functions[i].class_name.clone());
    }
    assert(views(names@) =~= class_names(function_views(functions@)));
    sort_dedup_strings(&names)
}

/// The Java sources for the first `n` classes: path and text of each.
pub open spec fn class_sources(
    host: HostOs,
    pkg_dir: Seq<char>,
    package: Seq<char>,
    lib_name: Seq<char>,
    functions: Seq<JniFunctionView>,
    classes: Seq<Seq<char>>,
    n: nat,
) -> Seq<(Seq<char>, Seq<char>)>
    decreases n,
{
    if n == 0 || n > classes.len() {
        seq![]
    } else {
        let class = classes[n - 1];
        class_sources(host, pkg_dir, package, lib_name, functions, classes, (n - 1) as nat).push(
            (
                joined_path(host, pkg_dir, class + ".java"@),
                bindings_class(
                    package,
                    class,
                    lib_name,
                    of_class(functions, class, functions.len()),
                ),
            ),
        )
    }
}

/// The shim's source, where the project has Java dependencies.
pub open spec fn shim_source(host: HostOs, pkg_dir: Seq<char>, m: ManifestView) -> Seq<
    (Seq<char>, Seq<char>),
> {
    if m.java.len() > 0 {
        seq![
            (
                joined_path(host, pkg_dir, "RuskShimActivity"@ + ".java"@),
                shim_class(m.package.id, m.package.name),
            ),
        ]
    } else {
        seq![]
    }
}

/// The Java sources to generate, path and text of each: the activity shim where
/// the project has Java dependencies, then one class of declarations for each
/// class that exported functions belong to, in the order of their names.
pub fn java_sources(
    host: HostOs,
    manifest: &RuskManifest,
    lib_name: &str,
    pkg_dir: &str,
    functions: &Vec<JniFunction>,
) -> (r: Vec<(String, String)>)
    ensures
        exists|classes: Seq<Seq<char>>|
            {
                &&& strictly_in_order(classes)
                &&& forall|c: Seq<char>|
                    #[trigger] classes.contains(c) <==> class_names(
                        function_views(functions@),
                    ).contains(c)
                &&& pair_views(r@) == shim_source(host, pkg_dir@, manifest@)
                    + #[trigger] class_sources(
                    host,
                    pkg_dir@,
                    manifest@.package.id,
                    lib_name@,
                    function_views(functions@),
                    classes,
                    classes.len(),
                )
            },
{
    let mut out: Vec<(String, String)> = Vec::new();
    assert(manifest@.java.len() == manifest.dependencies.java.entries@.len());
    if manifest.dependencies.java.entries.len() > 0 {
        let (class_name, text) = generate_activity_shim_java(manifest);
        out.push((join_path(host, pkg_dir, &concat2(&class_name, ".java")), text));
    }
    let ghost shim = shim_source(host, pkg_dir@, manifest@);
    assert(pair_views(out@) =~= shim);
    let classes = bound_classes(functions);
    let ghost names = views(classes@);
    let ghost all = function_views(functions@);
    let ghost package = manifest@.package.id;
    assert(shim =~= shim + class_sources(host, pkg_dir@, package, lib_name@, all, names, 0));
    for i in 0..classes.len()
        invariant
            names == views(classes@),
            all == function_views(functions@),
            package == manifest@.package.id,
            pair_views(out@) == shim + class_sources(
                host,
                pkg_dir@,
                package,
                lib_name@,
                all,
                names,
                i as nat,
            ),
    {
        let class = &classes[i];
        assert(names[i as int] == class@);
        let functions_here = functions_of_class(functions, class);
        let text = generate_bindings_class(&manifest.package.id, class, lib_name, &functions_here);
        let path = join_path(host, pkg_dir, &concat2(class, ".java"));
        let ghost so_far = out@;
        out.push((path, text));
        proof {
            assert(pair_views(out@) =~= pair_views(so_far).push((path@, text@)));
            assert(pair_views(out@) =~= shim + class_sources(
                host,
                pkg_dir@,
                package,
                lib_name@,
                all,
                names,
                (i + 1) as nat,
            ));
        }
    }
    proof {
        assert(pair_views(out@) == shim + class_sources(
            host,
            pkg_dir@,
            package,
            lib_name@,
            all,
            names,
            names.len(),
        ));
    }
    out
}

/// The arguments of the Java compiler.
pub open spec fn javac_arguments(
    class_dir: Seq<char>,
    android_jar: Seq<char>,
    sources: Seq<(Seq<char>, Seq<char>)>,
) -> Seq<Seq<char>> {
    seq!["-d"@, class_dir, "-classpath"@, android_jar] + sources.map_values(
        |s: (Seq<char>, Seq<char>)| s.0,
    )
}

/// The arguments of `javac`.
pub fn javac_args(class_dir: &str, android_jar: &str, sources: &Vec<(String, String)>) -> (r: Vec<
    String,
>)
    ensures
        views(r@) == javac_arguments(class_dir@, android_jar@, pair_views(sources@)),
{
    let mut args = vec![
        "-d".to_owned(),
        class_dir.to_owned(),
        "-classpath".to_owned(),
        android_jar.to_owned(),
    ];
    let ghost start = seq!["-d"@, class_dir@, "-classpath"@, android_jar@];
    let ghost all = pair_views(sources@).map_values(|s: (Seq<char>, Seq<char>)| s.0);
    assert(views(args@) =~= start + all.take(0));
    for i in 0..sources.len()
        invariant
            all == pair_views(sources@).map_values(|s: (Seq<char>, Seq<char>)| s.0),
            views(args@) == start + all.take(i as int),
    {
        let ghost so_far = args@;
        args.push(sources[i].0.clone());
        proof {
            assert(views(args@) =~= views(so_far).push(sources@[i as int].0@));
            assert(all[i as int] == sources@[i as int].0@);
            assert(start + all.take(i + 1) =~= (start + all.take(i as int)).push(all[i as int]));
        }
    }
    assert(all.take(all.len() as int) =~= all);
    args
}

/// The result of `javac`.
pub fn javac_outcome(success: bool, code: Option<i32>) -> (r: Result<(), BuildError>)
    ensures
        match r {
            Ok(()) => success,
            Err(BuildError::JavacFailed(status)) => !success && status == code_or_minus_one(code),
            Err(_) => false,
        },
{
    if success {
        Ok(())
    } else {
        Err(BuildError::JavacFailed(failure_code(code)))
    }
}

// ---------------------------------------------------------------------------
// Packaging

/// The directories and files of a build below the project's root.
#[derive(Debug)]
pub struct BuildPaths {
    pub staging: String,
    pub pkg_dir: String,
    pub class_dir: String,
    pub unsigned_apk: String,
    pub out_dir: String,
    pub signed_apk: String,
}

/// The name of the APK: the project's, with the flavor.
pub open spec fn apk_file(name: Seq<char>, flavor: Option<Seq<char>>) -> Seq<char> {
    match flavor {
        Some(f) => name + "-"@ + f + ".apk"@,
        None => name + ".apk"@,
    }
}

/// The directories and files of a build below the project's root.
pub fn build_paths(
    host: HostOs,
    project_root: &str,
    manifest: &RuskManifest,
    flavor: &Option<String>,
) -> (r: BuildPaths)
    ensures
        r.staging@ == joined_path(host, project_root@, "target/rusk-staging"@),
        r.pkg_dir@ == joined_path(
            host,
            joined_path(host, r.staging@, "java-src"@),
            replaced(manifest@.package.id, '.', "/"@),
        ),
        r.class_dir@ == joined_path(host, r.staging@, "java-classes"@),
        r.unsigned_apk@ == joined_path(host, r.staging@, "unsigned.apk"@),
        r.out_dir@ == joined_path(host, project_root@, "target/rusk-out"@),
        r.signed_apk@ == joined_path(
            host,
            r.out_dir@,
            apk_file(manifest@.package.name, opt_view(*flavor)),
        ),
{
    let staging = join_path(host, project_root, "target/rusk-staging");
    let out_dir = join_path(host, project_root, "target/rusk-out");
    let apk = match flavor {
        Some(f) => {
            let mut n = manifest.package.name.clone();
            n.append("-");
            n.append(f);
            n.append(".apk");
            n
        },
        None => concat2(&manifest.package.name, ".apk"),
    };
    BuildPaths {
        pkg_dir: join_path(
            host,
            &join_path(host, &staging, "java-src"),
            &replace_char(&manifest.package.id, '.', "/"),
        ),
        class_dir: join_path(host, &staging, "java-classes"),
        unsigned_apk: join_path(host, &staging, "unsigned.apk"),
        signed_apk: join_path(host, &out_dir, &apk),
        staging,
        out_dir,
    }
}

/// The native libraries that the first `n` artifacts bring.
pub open spec fn brought_libs(jars: Seq<ResolvedJar>, n: nat) -> Seq<(Seq<char>, Seq<char>)>
    decreases n,
{
    if n == 0 || n > jars.len() {
        seq![]
    } else {
        brought_libs(jars, (n - 1) as nat) + pair_views(jars[n - 1].native_libs@)
    }
}

/// Adds the native libraries that Java dependencies bring to those compiled.
pub fn add_brought_libs(native_libs: &mut Vec<(String, String)>, jars: &Vec<ResolvedJar>)
    ensures
        pair_views(final(native_libs)@) == pair_views(old(native_libs)@) + brought_libs(
            jars@,
            jars@.len(),
        ),
{
    let ghost start = pair_views(native_libs@);
    assert(start =~= start + brought_libs(jars@, 0));
    for i in 0..jars.len()
        invariant
            pair_views(native_libs@) == start + brought_libs(jars@, i as nat),
    {
        let mut more = clone_pairs(&jars[i].native_libs);
        let ghost a = native_libs@;
        let ghost b = more@;
        native_libs.append(&mut more);
        proof {
            assert(pair_views(native_libs@) =~= pair_views(a) + pair_views(b));
            assert(pair_views(native_libs@) =~= start + brought_libs(jars@, (i + 1) as nat));
        }
    }
}

/// The signing key that the project names.
#[derive(Debug)]
pub struct KeystoreConfig {
    pub path: String,
    pub alias: String,
    pub password: String,
}

/// The key that signs a package: its keystore, its alias and its password, which is
/// empty where none is given.
pub open spec fn signing_key_of(
    host: HostOs,
    project_root: Seq<char>,
    signing: Option<SigningView>,
    password: Option<Seq<char>>,
) -> Option<(Seq<char>, Seq<char>, Seq<char>)> {
    match signing {
        Some(s) => Some(
            (
                joined_path(host, project_root, s.keystore),
                s.alias,
                match password {
                    Some(p) => p,
                    None => ""@,
                },
            ),
        ),
        None => None,
    }
}

/// The parts of a key.
pub open spec fn key_view(k: Option<KeystoreConfig>) -> Option<(Seq<char>, Seq<char>, Seq<char>)> {
    match k {
        Some(k) => Some((k.path@, k.alias@, k.password@)),
        None => None,
    }
}

/// The key to sign with: the project's own where it names one, with the password
/// found in its environment variable (empty where that is not set); else the
/// debug key, which is none of the project's.
pub fn signing_key(
    host: HostOs,
    project_root: &str,
    manifest: &RuskManifest,
    password: Option<String>,
) -> (r: Option<KeystoreConfig>)
    ensures
        key_view(r) == signing_key_of(
            host,
            project_root@,
            manifest@.signing,
            opt_view(password),
        ),
{
    match &manifest.signing {
        Some(s) => Some(
            KeystoreConfig {
                path: join_path(host, project_root, &s.keystore),
                alias: s.alias.clone(),
                password: match password {
                    Some(p) => p,
                    None => "".to_owned(),
                },
            },
        ),
        None => None,
    }
}

/// Whether the directory is that of one of the targets.
pub open spec fn is_target_dir(targets: Seq<AbiTarget>, dir: Seq<char>) -> bool {
    exists|i: int| 0 <= i < targets.len() && (#[trigger] targets[i])@.jni_libs_dir == dir
}

/// Those of the first `n` libraries that are in the directory of a target.
pub open spec fn libs_of_targets(
    libs: Seq<(Seq<char>, Seq<char>)>,
    targets: Seq<AbiTarget>,
    n: nat,
) -> Seq<(Seq<char>, Seq<char>)>
    decreases n,
{
    if n == 0 || n > libs.len() {
        seq![]
    } else if is_target_dir(targets, libs[n - 1].0) {
        libs_of_targets(libs, targets, (n - 1) as nat).push(libs[n - 1])
    } else {
        libs_of_targets(libs, targets, (n - 1) as nat)
    }
}

/// The libraries whose sizes the summary shows: those in the directory of a
/// target.
pub fn summary_libs(libs: &Vec<(String, String)>, targets: &Vec<AbiTarget>) -> (r: Vec<
    (String, String),
>)
    ensures
        pair_views(r@) == libs_of_targets(pair_views(libs@), targets@, libs@.len()),
{
    let mut out: Vec<(String, String)> = Vec::new();
    let ghost all = pair_views(libs@);
    assert(pair_views(out@) =~= seq![]);
    for i in 0..libs.len()
        invariant
            all == pair_views(libs@),
            pair_views(out@) == libs_of_targets(all, targets@, i as nat),
    {
        assert(all[i as int] == (libs@[i as int].0@, libs@[i as int].1@));
        let mut found = false;
        for j in 0..targets.len()
            invariant
                i < libs.len(),
                found ==> is_target_dir(targets@, libs@[i as int].0@),
                !found ==> forall|k: int|
                    0 <= k < j ==> (#[trigger] targets@[k])@.jni_libs_dir != libs@[i as int].0@,
        {
            if same(targets[j].jni_libs_dir, &libs[i].0) {
                found = true;
            }
        }
        if found {
            let ghost so_far = out@;
            out.push((libs[i].0.clone(), libs[i].1.clone()));
            assert(pair_views(out@) =~= pair_views(so_far).push(all[i as int]));
        }
    }
    out
}

// ---------------------------------------------------------------------------
// What holds of every build

/// A crate's name as part of a file's name: it could stand in `Cargo.toml`.
pub open spec fn crate_like(name: Seq<char>) -> bool {
    forall|i: int|
        0 <= i < name.len() ==> (#[trigger] name[i]) != '/' && name[i] != '\\' && name[i] != ':'
}

/// The library that cargo builds lies below the project's root in `target`, in the
/// directory of its target and in there in that of its profile: `debug` for a debug
/// build and `release` for a release build. Its name is the crate's with underscores
/// for hyphens, between `lib` and `.so`. So the two profiles never share a path.
pub proof fn library_lies_in_its_profile(
    host: HostOs,
    root: Seq<char>,
    triple: Seq<char>,
    crate_name: Seq<char>,
)
    requires
        steady(host, root),
        one_name(triple),
        crate_like(crate_name),
    ensures
        ({
            let debug = components(
                host,
                library_path(host, root, triple, Profile::Debug, crate_name),
            );
            let release = components(
                host,
                library_path(host, root, triple, Profile::Release, crate_name),
            );
            let n = components(host, root).len() as int;
            &&& debug.len() == n + 4
            &&& debug.take(n) == components(host, root)
            &&& debug[n] == "target"@
            &&& debug[n + 1] == triple
            &&& debug[n + 2] == "debug"@
            &&& debug[n + 3].len() == crate_name.len() + 6
            &&& debug[n + 3].take(3) == "lib"@
            &&& debug[n + 3].skip((crate_name.len() + 3) as int) == ".so"@
            &&& forall|i: int|
                0 <= i < crate_name.len() ==> #[trigger] debug[n + 3][i + 3] == (if crate_name[i]
                    == '-' {
                    '_'
                } else {
                    crate_name[i]
                })
            &&& release == debug.update(n + 2, "release"@)
        }),
        library_path(host, root, triple, Profile::Debug, crate_name) != library_path(
            host,
            root,
            triple,
            Profile::Release,
            crate_name,
        ),
{
    let middle = replaced(crate_name, '-', "_"@);
    let file = "lib"@ + middle + ".so"@;
    library_file_name(crate_name);
    assert(one_name("target"@)) by {
        reveal_strlit("target");
        undotted_is_one_name("target"@);
    }
    assert(one_name("debug"@)) by {
        reveal_strlit("debug");
        undotted_is_one_name("debug"@);
    }
    assert(one_name("release"@)) by {
        reveal_strlit("release");
        undotted_is_one_name("release"@);
    }
    assert("debug"@ != "release"@) by {
        reveal_strlit("debug");
        reveal_strlit("release");
        assert("debug"@.len() != "release"@.len());
    }
    joined_4(host, root, "target"@, triple, "debug"@, file);
    joined_4(host, root, "target"@, triple, "release"@, file);
    let base = components(host, root);
    let n = base.len() as int;
    let d = components(host, library_path(host, root, triple, Profile::Debug, crate_name));
    let r = components(host, library_path(host, root, triple, Profile::Release, crate_name));
    assert(d == base + seq!["target"@, triple, "debug"@, file]);
    assert(r == base + seq!["target"@, triple, "release"@, file]);
    assert(d.take(n) =~= base);
    assert(r =~= d.update(n + 2, "release"@));
    assert(d[n + 2] != r[n + 2]);
}

/// The name of a library's file.
proof fn library_file_name(crate_name: Seq<char>)
    requires
        crate_like(crate_name),
    ensures
        ({
            let file = "lib"@ + replaced(crate_name, '-', "_"@) + ".so"@;
            &&& one_name(file)
            &&& file.len() == crate_name.len() + 6
            &&& file.take(3) == "lib"@
            &&& file.skip((crate_name.len() + 3) as int) == ".so"@
            &&& forall|i: int|
                0 <= i < crate_name.len() ==> #[trigger] file[i + 3] == (if crate_name[i] == '-' {
                    '_'
                } else {
                    crate_name[i]
                })
        }),
{
    reveal_strlit("lib");
    reveal_strlit(".so");
    reveal_strlit("_");
    assert("_"@ =~= seq!['_']);
    let middle = replaced(crate_name, '-', "_"@);
    let file = "lib"@ + middle + ".so"@;
    replaced_one_for_one(crate_name, '-', '_');
    assert forall|i: int| 0 <= i < file.len() implies (#[trigger] file[i]) != '/' && file[i] != '\\'
        && file[i] != ':' by {
        if 3 <= i < 3 + middle.len() {
            assert(file[i] == middle[i - 3]);
            assert(crate_name[i - 3] != '/' && crate_name[i - 3] != '\\' && crate_name[i - 3] != ':');
        }
    }
    assert(file[0] == 'l');
    undotted_is_one_name(file);
    assert(file.take(3) =~= "lib"@);
    assert(file.skip((crate_name.len() + 3) as int) =~= ".so"@);
    assert forall|i: int| 0 <= i < crate_name.len() implies #[trigger] file[i + 3] == (
    if crate_name[i] == '-' {
        '_'
    } else {
        crate_name[i]
    }) by {
        assert(file[i + 3] == middle[i]);
    }
}

/// Cargo is told to build the library for the target, in release mode exactly for a
/// release build, and with exactly the features: what it is told of them splits at
/// commas into them.
pub proof fn cargo_is_told(triple: Seq<char>, profile: Profile, features: Seq<Seq<char>>)
    requires
        triple != "--release"@ && triple != "--features"@,
        forall|i: int| 0 <= i < features.len() ==> !(#[trigger] features[i]).contains(','),
    ensures
        ({
            let args = cargo_args(triple, profile, features);
            &&& args[0] == "build"@
            &&& args.contains("--lib"@)
            &&& exists|i: int|
                0 <= i < args.len() - 1 && #[trigger] args[i] == "--target"@ && args[i + 1] == triple
            &&& features.len() > 0 ==> {
                &&& args[args.len() - 2] == "--features"@
                &&& split_all(args.last(), ',') == features
            }
            &&& features.len() == 0 ==> (args.contains("--release"@) <==> profile
                == Profile::Release) && !args.contains("--features"@)
            &&& features.len() > 0 ==> (args.drop_last().contains("--release"@) <==> profile
                == Profile::Release)
        }),
{
    reveal_strlit("build");
    reveal_strlit("--target");
    reveal_strlit("--lib");
    reveal_strlit("--release");
    reveal_strlit("--features");
    reveal_strlit(",");
    assert(","@ =~= seq![',']);
    let args = cargo_args(triple, profile, features);
    assert(args[1] == "--target"@ && args[2] == triple);
    assert(args[3] == "--lib"@);
    assert("build"@.len() == 5 && "--target"@.len() == 8 && "--lib"@.len() == 5);
    assert("--release"@.len() == 9 && "--features"@.len() == 10);
    if profile == Profile::Release {
        assert(args[4] == "--release"@);
    }
    if features.len() > 0 {
        split_all_of_list(features, ',');
        let d = args.drop_last();
        if profile == Profile::Release {
            assert(d[4] == "--release"@);
        }
    }
}

/// Text that is cut keeps its end: at most so many characters, and all of a text that
/// is no longer than that.
pub proof fn cut_text_keeps_its_end(s: Seq<char>, max_chars: nat)
    ensures
        s.len() <= max_chars ==> tail_of(s, max_chars) == s,
        s.len() > max_chars ==> {
            &&& tail_of(s, max_chars).len() == max_chars + 1
            &&& tail_of(s, max_chars)[0] == '…'
            &&& forall|i: int|
                0 <= i < max_chars ==> #[trigger] tail_of(s, max_chars)[i + 1] == s[s.len()
                    - max_chars + i]
        },
{
}

/// The APK of a project is named after it and its flavor, and two flavors, or a flavor
/// and none, never share a name.
pub proof fn flavors_have_their_own_apk(
    name: Seq<char>,
    a: Option<Seq<char>>,
    b: Option<Seq<char>>,
)
    ensures
        apk_file(name, a) == apk_file(name, b) ==> a == b,
        name.is_prefix_of(apk_file(name, a)),
        ".apk"@.is_suffix_of(apk_file(name, a)),
        a matches Some(f) ==> contains_text(apk_file(name, a), f),
        a is None ==> apk_file(name, a).len() == name.len() + 4,
{
    reveal_strlit("-");
    reveal_strlit(".apk");
    let x = apk_file(name, a);
    let y = apk_file(name, b);
    assert(name =~= x.subrange(0, name.len() as int));
    assert(".apk"@ =~= x.subrange(x.len() - 4, x.len() as int));
    if let Some(f) = a {
        contains_in_middle(name + "-"@, f, ".apk"@);
        assert(x.subrange((name.len() + 1) as int, x.len() - 4) =~= f);
    }
    if let Some(g) = b {
        assert(y.subrange((name.len() + 1) as int, y.len() - 4) =~= g);
    }
}

/// The libraries that dependencies bring are those of each dependency, all of them,
/// one dependency after another.
pub proof fn every_brought_lib_is_packed(a: Seq<ResolvedJar>, b: Seq<ResolvedJar>)
    ensures
        brought_libs(a + b, (a + b).len()) == brought_libs(a, a.len()) + brought_libs(b, b.len()),
        b.len() == 1 ==> brought_libs(b, 1) == pair_views(b[0].native_libs@),
        a.len() == 0 ==> brought_libs(a, 0).len() == 0,
    decreases b.len(),
{
    let s = a + b;
    if b.len() == 0 {
        assert(s =~= a);
        assert(brought_libs(a, a.len()) + brought_libs(b, 0) =~= brought_libs(a, a.len()));
    } else {
        let c = b.drop_last();
        every_brought_lib_is_packed(a, c);
        assert(s.drop_last() =~= a + c);
        brought_by_prefix(s, a + c, (s.len() - 1) as nat);
        brought_by_prefix(b, c, c.len());
        assert(s.last() == b.last());
        assert(brought_libs(s, s.len()) =~= brought_libs(a, a.len()) + brought_libs(b, b.len()));
        if b.len() == 1 {
            assert(brought_libs(b, 0) =~= seq![]);
            assert(brought_libs(b, 1) =~= pair_views(b[0].native_libs@));
        }
    }
}

proof fn brought_by_prefix(a: Seq<ResolvedJar>, b: Seq<ResolvedJar>, n: nat)
    requires
        n <= a.len(),
        n <= b.len(),
        forall|i: int| 0 <= i < n ==> a[i] == b[i],
    ensures
        brought_libs(a, n) == brought_libs(b, n),
    decreases n,
{
    if n > 0 {
        brought_by_prefix(a, b, (n - 1) as nat);
    }
}

/// The summary shows exactly the libraries in the directories of targets.
pub proof fn summary_shows_targets(
    libs: Seq<(Seq<char>, Seq<char>)>,
    targets: Seq<AbiTarget>,
    n: nat,
)
    requires
        n <= libs.len(),
    ensures
        libs_of_targets(libs, targets, n) == libs.take(n as int).filter(
            |l: (Seq<char>, Seq<char>)|
                exists|i: int|
                    0 <= i < targets.len() && (#[trigger] targets[i])@.jni_libs_dir == l.0,
        ),
    decreases n,
{
    reveal(Seq::filter);
    let f = |l: (Seq<char>, Seq<char>)|
        exists|i: int| 0 <= i < targets.len() && (#[trigger] targets[i])@.jni_libs_dir == l.0;
    if n > 0 {
        summary_shows_targets(libs, targets, (n - 1) as nat);
        let t = libs.take(n as int);
        assert(t.drop_last() =~= libs.take(n - 1));
        assert(t.last() == libs[n - 1]);
        assert(is_target_dir(targets, libs[n - 1].0) == f(libs[n - 1]));
    }
}

/// The functions of a class are all functions with its name, in their order.
pub proof fn class_has_its_functions(
    functions: Seq<JniFunctionView>,
    class_name: Seq<char>,
    n: nat,
)
    requires
        n <= functions.len(),
    ensures
        of_class(functions, class_name, n) == functions.take(n as int).filter(
            |f: JniFunctionView| f.class_name == class_name,
        ),
    decreases n,
{
    reveal(Seq::filter);
    if n > 0 {
        class_has_its_functions(functions, class_name, (n - 1) as nat);
        let t = functions.take(n as int);
        assert(t.drop_last() =~= functions.take(n - 1));
        assert(t.last() == functions[n - 1]);
    }
}

/// Every type without a counterpart is warned of, once for each time it occurs, with
/// the name of its function.
pub proof fn every_odd_type_is_warned_of(f: JniFunctionView, n: nat)
    requires
        n <= f.unrecognized_types.len(),
    ensures
        function_warnings(f, n).len() == n,
        forall|i: int|
            0 <= i < n ==> {
                &&& contains_text(#[trigger] function_warnings(f, n)[i], f.unrecognized_types[i])
                &&& contains_text(function_warnings(f, n)[i], f.class_name + "."@ + f.method_name)
            },
    decreases n,
{
    if n > 0 {
        every_odd_type_is_warned_of(f, (n - 1) as nat);
        let ty = f.unrecognized_types[n - 1];
        let who = f.class_name + "."@ + f.method_name;
        let middle = ": unrecognized Rust param type \""@;
        let end = "\" mapped to Java Object — double-check it by hand"@;
        let w = type_warning(f, ty);
        contains_in_middle("JNI binding "@ + who + middle, ty, end);
        assert("JNI binding "@ + who + middle + ty + end =~= w);
        contains_in_middle("JNI binding "@, who, middle + ty + end);
        assert("JNI binding "@ + who + (middle + ty + end) =~= w);
    }
}

/// The stages come in one order. Resolving is left out without Java dependencies, and
/// with it writing and compiling sources where there is no code at all.
pub proof fn stages_come_in_order(n: nat, has_java_deps: bool, has_code: bool)
    ensures
        ({
            let first = seq![
                Stage::Ndk,
                Stage::CrateName,
                Stage::Compile,
                Stage::SaveRecord,
                Stage::Tools,
                Stage::ScanJni,
            ];
            let java = if has_java_deps {
                seq![Stage::ResolveJava, Stage::WriteSources, Stage::Javac]
            } else if has_code {
                seq![Stage::WriteSources, Stage::Javac]
            } else {
                seq![]
            };
            let order = first + java + seq![Stage::Signing, Stage::Package, Stage::Summary];
            stage_at(n, has_java_deps, has_code) == if n < order.len() {
                order[n as int]
            } else {
                Stage::Done
            }
        }),
    decreases n,
{
    if n > 0 {
        stages_come_in_order((n - 1) as nat, has_java_deps, has_code);
    }
}

/// What cargo compiles with is told under both spellings of the target, with hyphens and
/// with underscores: the compilers of C and C++ for the target's level, of which the
/// first is the linker too, and the archiver beside them.
pub proof fn compilers_are_told(
    host: HostOs,
    ndk_root: Seq<char>,
    target: AbiTargetView,
    api_level: u32,
    name: Seq<char>,
)
    requires
        name == target.rust_triple || name == replaced(target.rust_triple, '-', seq!['_']),
    ensures
        ({
            let env = cargo_env(host, ndk_root, target, api_level);
            let c = clang_path(host, ndk_root, target.clang_target, api_level, "clang"@);
            let cxx = clang_path(host, ndk_root, target.clang_target, api_level, "clang++"@);
            let loud = replaced(uppered(target.rust_triple), '-', seq!['_']);
            &&& env.contains(("CC_"@ + name, c))
            &&& env.contains(("CXX_"@ + name, cxx))
            &&& exists|ar: Seq<char>|
                #[trigger] env.contains(("AR_"@ + name, ar)) && ar == joined_path(
                    host,
                    toolchain_dir(host, ndk_root),
                    if host == HostOs::Windows {
                        "llvm-ar"@ + ".exe"@
                    } else {
                        "llvm-ar"@
                    },
                )
            &&& env.contains(("CARGO_TARGET_"@ + loud + "_LINKER"@, c))
            &&& env.contains(
                (
                    "CARGO_TARGET_"@ + loud + "_RUSTFLAGS"@,
                    rustflags(host, target.clang_target, api_level),
                ),
            )
            &&& env.contains(("ANDROID_NDK_HOME"@, ndk_root))
        }),
{
    reveal_strlit("_");
    assert("_"@ =~= seq!['_']);
    reveal_strlit("");
    let env = cargo_env(host, ndk_root, target, api_level);
    let loud = replaced(uppered(target.rust_triple), '-', seq!['_']);
    let c = clang_path(host, ndk_root, target.clang_target, api_level, "clang"@);
    let cxx = clang_path(host, ndk_root, target.clang_target, api_level, "clang++"@);
    assert("llvm-ar"@ + ""@ =~= "llvm-ar"@);
    let ar = joined_path(host, toolchain_dir(host, ndk_root), "llvm-ar"@ + exe_suffix(host));
    assert(env[0] == ("CARGO_TARGET_"@ + loud + "_LINKER"@, c));
    assert(env[7] == ("ANDROID_NDK_HOME"@, ndk_root));
    assert(env[8] == (
        "CARGO_TARGET_"@ + loud + "_RUSTFLAGS"@,
        rustflags(host, target.clang_target, api_level),
    ));
    if name == target.rust_triple {
        assert(env[1] == ("CC_"@ + name, c));
        assert(env[2] == ("CXX_"@ + name, cxx));
        assert(env[3] == ("AR_"@ + name, ar));
    } else {
        assert(env[4] == ("CC_"@ + name, c));
        assert(env[5] == ("CXX_"@ + name, cxx));
        assert(env[6] == ("AR_"@ + name, ar));
    }
    assert(env.contains(("AR_"@ + name, ar)));
}

/// Every library is linked with Android's own and with its log. On Windows, where the
/// compiler's name does not tell them, the target and its level come before that.
pub proof fn libraries_are_linked(host: HostOs, clang_target: Seq<char>, api_level: u32)
    ensures
        "-C link-arg=-landroid -C link-arg=-llog"@.is_suffix_of(
            rustflags(host, clang_target, api_level),
        ),
        host != HostOs::Windows ==> rustflags(host, clang_target, api_level).len()
            == "-C link-arg=-landroid -C link-arg=-llog"@.len(),
        host == HostOs::Windows ==> ("-C link-arg=--target="@ + clang_target + decimal(
            api_level as nat,
        ) + seq![' ']).is_prefix_of(rustflags(host, clang_target, api_level)),
{
    let flags = rustflags(host, clang_target, api_level);
    let all = "-C link-arg=-landroid -C link-arg=-llog"@;
    assert(flags.subrange(flags.len() - all.len(), flags.len() as int) =~= all);
    if host == HostOs::Windows {
        reveal_strlit(" ");
        let p = "-C link-arg=--target="@ + clang_target + decimal(api_level as nat) + seq![' '];
        assert(flags.subrange(0, p.len() as int) =~= p);
    }
}

/// Every class of bound functions has a file of its name with its own functions.
pub proof fn every_class_has_a_source(
    host: HostOs,
    pkg_dir: Seq<char>,
    package: Seq<char>,
    lib_name: Seq<char>,
    functions: Seq<JniFunctionView>,
    classes: Seq<Seq<char>>,
    n: nat,
    i: int,
)
    requires
        0 <= i < n <= classes.len(),
    ensures
        ({
            let sources = class_sources(
                host,
                pkg_dir,
                package,
                lib_name,
                functions,
                classes,
                n,
            );
            &&& sources.len() == n
            &&& sources[i].0 == joined_path(host, pkg_dir, classes[i] + ".java"@)
            &&& sources[i].1 == bindings_class(
                package,
                classes[i],
                lib_name,
                functions.filter(|f: JniFunctionView| f.class_name == classes[i]),
            )
        }),
    decreases n,
{
    if i < n - 1 {
        every_class_has_a_source(
            host,
            pkg_dir,
            package,
            lib_name,
            functions,
            classes,
            (n - 1) as nat,
            i,
        );
    } else {
        class_has_its_functions(functions, classes[i], functions.len());
        assert(functions.take(functions.len() as int) =~= functions);
        if n > 1 {
            every_class_has_a_source(
                host,
                pkg_dir,
                package,
                lib_name,
                functions,
                classes,
                (n - 1) as nat,
                0,
            );
        }
    }
}

/// A project with Java dependencies gets the class that hosts it, in a file of the
/// class's name; one without gets none.
pub proof fn host_class_is_written(host: HostOs, pkg_dir: Seq<char>, m: ManifestView)
    ensures
        m.java.len() == 0 <==> shim_source(host, pkg_dir, m).len() == 0,
        m.java.len() > 0 ==> shim_source(host, pkg_dir, m) == seq![
            (
                joined_path(host, pkg_dir, "RuskShimActivity.java"@),
                shim_class(m.package.id, m.package.name),
            ),
        ],
{
    reveal_strlit("RuskShimActivity.java");
    reveal_strlit("RuskShimActivity");
    reveal_strlit(".java");
    assert("RuskShimActivity"@ + ".java"@ =~= "RuskShimActivity.java"@);
}

/// The message of an error tells what it is about, and how a program ended.
#[verifier::rlimit(40)]
pub proof fn message_tells_all(e: BuildError)
    ensures
        match e {
            BuildError::Io { path, source } => contains_text(e.text(), "at "@ + path@) && contains_text(e.text(), ": "@ + source@),
            BuildError::CargoTomlMissing(path) => contains_text(e.text(), path@),
            BuildError::CargoBuildFailed { triple, status } => contains_text(e.text(), "target "@ + triple@) && contains_text(e.text(), "exit "@ + signed_decimal(status as int)),
            BuildError::MissingBuiltLib(path) => contains_text(e.text(), path@),
            BuildError::JavacFailed(status) => contains_text(e.text(), signed_decimal(status as int)),
            BuildError::RustupTargetFailed { triple, status } => contains_text(e.text(), "target \""@ + triple@) && contains_text(e.text(), "exit "@ + signed_decimal(status as int)),
            BuildError::RustupMissing(triple) => contains_text(e.text(), triple@),
        },
{
    match e {
        BuildError::Io { path, source } => {
            assert("io error at "@ =~= "io error "@ + "at "@) by {
                reveal_strlit("io error at ");
                reveal_strlit("io error ");
                reveal_strlit("at ");
            }
            tells("io error "@, "at "@ + path@);
            behind_three("io error "@, "at "@, path@, seq![]);
            tells_more("io error at "@ + path@, ": "@, "at "@ + path@);
            tells_more("io error at "@ + path@ + ": "@, source@, "at "@ + path@);
            assert(seq![] + ": "@ =~= ": "@);
            tells_behind("io error at "@ + path@, seq![], ": "@, source@);
        },
        BuildError::CargoTomlMissing(path) => {
            tells("failed to read the project's Cargo.toml at "@, path@);
        },
        BuildError::CargoBuildFailed { triple, status } => {
            assert("`cargo build` failed for target "@ =~= "`cargo build` failed for "@ + "target "@) by {
                reveal_strlit("`cargo build` failed for target ");
                reveal_strlit("`cargo build` failed for ");
                reveal_strlit("target ");
            }
            tells("`cargo build` failed for "@, "target "@ + triple@);
            behind_three("`cargo build` failed for "@, "target "@, triple@, seq![]);
            tells_more("`cargo build` failed for target "@ + triple@, " (exit "@, "target "@ + triple@);
            tells_more("`cargo build` failed for target "@ + triple@ + " (exit "@, signed_decimal(status as int), "target "@ + triple@);
            tells_more("`cargo build` failed for target "@ + triple@ + " (exit "@ + signed_decimal(status as int), ")"@, "target "@ + triple@);
            assert(" (exit "@ =~= " ("@ + "exit "@) by {
                reveal_strlit(" (exit ");
                reveal_strlit(" (");
                reveal_strlit("exit ");
            }
            tells_behind("`cargo build` failed for target "@ + triple@, " ("@, "exit "@, signed_decimal(status as int));
            tells_more("`cargo build` failed for target "@ + triple@ + " (exit "@ + signed_decimal(status as int), ")"@, "exit "@ + signed_decimal(status as int));
        },
        BuildError::MissingBuiltLib(path) => {
            tells("built library not found at "@, path@);
            tells_more("built library not found at "@ + path@, "; check that Cargo.toml declares `crate-type = [\"cdylib\"]`"@, path@);
        },
        BuildError::JavacFailed(status) => {
            tells("`javac` failed compiling the generated activity shim (exit "@, signed_decimal(status as int));
            tells_more("`javac` failed compiling the generated activity shim (exit "@ + signed_decimal(status as int), ")"@, signed_decimal(status as int));
        },
        BuildError::RustupTargetFailed { triple, status } => {
            assert("rustup could not install target \""@ =~= "rustup could not install "@ + "target \""@) by {
                reveal_strlit("rustup could not install target \"");
                reveal_strlit("rustup could not install ");
                reveal_strlit("target \"");
            }
            tells("rustup could not install "@, "target \""@ + triple@);
            behind_three("rustup could not install "@, "target \""@, triple@, seq![]);
            tells_more("rustup could not install target \""@ + triple@, "\" (exit "@, "target \""@ + triple@);
            tells_more("rustup could not install target \""@ + triple@ + "\" (exit "@, signed_decimal(status as int), "target \""@ + triple@);
            tells_more("rustup could not install target \""@ + triple@ + "\" (exit "@ + signed_decimal(status as int), "); if you're not using rustup, add the target's prebuilt std another way, then re-run rusk build"@, "target \""@ + triple@);
            assert("\" (exit "@ =~= "\" ("@ + "exit "@) by {
                reveal_strlit("\" (exit ");
                reveal_strlit("\" (");
                reveal_strlit("exit ");
            }
            tells_behind("rustup could not install target \""@ + triple@, "\" ("@, "exit "@, signed_decimal(status as int));
            tells_more("rustup could not install target \""@ + triple@ + "\" (exit "@ + signed_decimal(status as int), "); if you're not using rustup, add the target's prebuilt std another way, then re-run rusk build"@, "exit "@ + signed_decimal(status as int));
        },
        BuildError::RustupMissing(triple) => {
            tells("`rustup` was not found on PATH, and target \""@, triple@);
            tells_more("`rustup` was not found on PATH, and target \""@ + triple@, "\" is not installed; either install rustup or add this Android target's std some other way"@, triple@);
        },
    }
}

/// The Java compiler is told where its classes go, the library it compiles against, and
/// every source, in their order.
pub proof fn every_source_is_compiled(
    class_dir: Seq<char>,
    android_jar: Seq<char>,
    sources: Seq<(Seq<char>, Seq<char>)>,
)
    ensures
        ({
            let args = javac_arguments(class_dir, android_jar, sources);
            &&& args.len() == sources.len() + 4
            &&& option_is(args, "-d"@, class_dir)
            &&& option_is(args, "-classpath"@, android_jar)
            &&& forall|i: int| 0 <= i < sources.len() ==> #[trigger] args[i + 4] == sources[i].0
        }),
{
    let args = javac_arguments(class_dir, android_jar, sources);
    assert(args[0] == "-d"@ && args[1] == class_dir);
    assert(args[2] == "-classpath"@ && args[3] == android_jar);
}

/// A package is signed with the project's key exactly where it has one: with the
/// keystore below the project's root, under its alias, and with the password given.
pub proof fn package_is_signed_with_its_key(
    host: HostOs,
    project_root: Seq<char>,
    signing: Option<SigningView>,
    password: Option<Seq<char>>,
)
    ensures
        signing is None <==> signing_key_of(host, project_root, signing, password) is None,
        signing matches Some(s) ==> {
            let (path, alias, word) = signing_key_of(host, project_root, signing, password)->0;
            &&& steady(host, project_root) && one_name(s.keystore) ==> components(host, path)
                == components(host, project_root).push(s.keystore)
            &&& alias == s.alias
            &&& password matches Some(p) ==> word == p
            &&& password is None ==> word.len() == 0
        },
{
    reveal_strlit("");
    if let Some(s) = signing {
        if steady(host, project_root) && one_name(s.keystore) {
            joined_components(host, project_root, s.keystore);
        }
    }
}

} // verus!
