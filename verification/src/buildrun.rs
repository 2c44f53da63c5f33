//! A build from its first stage to its last: what is known at each stage, what
//! is done next, and what goes into the APK.
use crate::androidgen::{
    android_manifest, attribute_in, generate_manifest, generate_strings_xml, manifest_read_back,
    manifest_says_what_project_is, quoted_parts, strings_xml, xml_escaped,
};
use crate::digest::sha256_hex;
use crate::incremental::{
    ArtifactFile, BuildFingerprint, CachedView, DecisionView, IncrementalRecord, MissReason,
    ToolchainContext, ToolchainView, decision, digest_of,
};
use crate::javadeps::ResolvedJar;
use crate::jnigen::{JniFunction, JniFunctionView, function_views};
use crate::manifest::{
    AbiTarget, AbiTargetView, ManifestView, PackageView, RuskManifest, abi_table, flavor_from,
    target_views, targets_of,
};
use crate::ndk::{NdkHome, clang_path};
use crate::num::number_of;
use crate::ordmap::{in_key_order, with_entry};
use crate::path::{
    HostOs, components, join_path, joined_components, joined_path, joined_two,
    long_name_is_one_name, one_name, steady,
};
use crate::pipeline::{
    BuildError, BuildOptions, BuildOutcome, BuildPaths, CommandLine, CompileRun, KeystoreConfig,
    Profile, Stage, TargetAction, add_brought_libs, apk_file, brought_libs, build_paths,
    built_library, cargo_args, cargo_command, cargo_env, class_names, class_sources,
    code_or_minus_one, compile_outcome, compilers_are_told, crate_like, has_code, java_sources,
    javac_outcome, key_view, library_lies_in_its_profile, library_name, library_path, next_stage,
    shim_source, signing_key, signing_key_of, stage_after,
};
use crate::text::{
    clone_pairs, clone_strings, opt_view, pair_views, replaced, replaced_one_for_one,
    strictly_in_order, views,
};
use vstd::prelude::*;

verus! {

/// A build that has come to a stage. What later stages provide is empty before.
#[derive(Debug)]
pub struct BuildRun {
    host: HostOs,
    project_root: String,
    profile: Profile,
    flavor: Option<String>,
    /// The manifest with the flavor laid over it.
    manifest: RuskManifest,
    features: Vec<String>,
    stage: Stage,
    ndk: NdkHome,
    crate_name: String,
    compile: CompileRun,
    android_jar: String,
    functions: Vec<JniFunction>,
    jars: Vec<ResolvedJar>,
}

/// What is known of a build.
pub struct BuildView {
    pub host: HostOs,
    pub project_root: Seq<char>,
    pub profile: Profile,
    pub flavor: Option<Seq<char>>,
    /// The manifest with the flavor laid over it.
    pub manifest: ManifestView,
    pub features: Seq<Seq<char>>,
    pub stage: Stage,
    pub ndk_root: Seq<char>,
    pub ndk_version: Seq<char>,
    pub crate_name: Seq<char>,
    pub targets: Seq<AbiTargetView>,
    /// How many of the targets have their library.
    pub done: nat,
    /// The directory in the APK and the path of each library compiled or taken over.
    pub compiled: Seq<(Seq<char>, Seq<char>)>,
    pub record: Seq<(Seq<char>, CachedView)>,
    pub android_jar: Seq<char>,
    pub functions: Seq<JniFunctionView>,
    pub jars: Seq<ResolvedJar>,
}

impl View for BuildRun {
    type V = BuildView;

    closed spec fn view(&self) -> BuildView {
        BuildView {
            host: self.host,
            project_root: self.project_root@,
            profile: self.profile,
            flavor: opt_view(self.flavor),
            manifest: self.manifest@,
            features: views(self.features@),
            stage: self.stage,
            ndk_root: self.ndk.root@,
            ndk_version: self.ndk.version@,
            crate_name: self.crate_name@,
            targets: target_views(self.compile.targets@),
            done: self.compile.done as nat,
            compiled: pair_views(self.compile.native_libs@),
            record: self.compile.record@,
            android_jar: self.android_jar@,
            functions: function_views(self.functions@),
            jars: self.jars@,
        }
    }
}

impl BuildView {
    /// Whether the application has Java code.
    pub open spec fn coded(self) -> bool {
        self.manifest.java.len() > 0 || self.functions.len() > 0
    }

    /// Whether the project has Java dependencies.
    pub open spec fn has_java_deps(self) -> bool {
        self.manifest.java.len() > 0
    }

    /// Whether every target of the project has its library.
    pub open spec fn all_compiled(self) -> bool {
        self.targets == targets_of(self.manifest.targets) && self.done == self.targets.len()
    }

    /// What holds at every stage: the targets that are done each have their
    /// library; once compiling is over all are done; Java is resolved only for a
    /// project with dependencies, and compiled only for one with code.
    pub open spec fn wf(self) -> bool {
        &&& self.done <= self.targets.len()
        &&& self.compiled.len() == self.done
        &&& forall|i: int|
            0 <= i < self.done ==> (#[trigger] self.compiled[i]).0 == self.targets[i].jni_libs_dir
        &&& in_key_order(self.record)
        &&& match self.stage {
            Stage::Ndk | Stage::CrateName => true,
            Stage::Compile => self.targets == targets_of(self.manifest.targets) && self.done
                < self.targets.len(),
            Stage::ResolveJava => self.all_compiled() && self.has_java_deps(),
            Stage::WriteSources | Stage::Javac => self.all_compiled() && self.coded(),
            _ => self.all_compiled(),
        }
        &&& self.jars.len() > 0 ==> self.has_java_deps()
    }

    /// The target that is compiled next.
    pub open spec fn target(self) -> AbiTargetView {
        self.targets[self.done as int]
    }

    /// The stage once one more target is done.
    pub open spec fn stage_after_target(self) -> Stage {
        if self.done + 1 == self.targets.len() {
            Stage::SaveRecord
        } else {
            Stage::Compile
        }
    }

    /// The build with the next target's library at a path.
    pub open spec fn with_library(self, path: Seq<char>) -> BuildView {
        BuildView {
            done: self.done + 1,
            compiled: self.compiled.push((self.target().jni_libs_dir, path)),
            stage: self.stage_after_target(),
            ..self
        }
    }

    /// Where cargo puts the library of a target.
    pub open spec fn library_of(self, target: AbiTargetView) -> Seq<char> {
        library_path(
            self.host,
            self.project_root,
            target.rust_triple,
            self.profile,
            self.crate_name,
        )
    }

    /// What a target is compiled with, for its fingerprint.
    pub open spec fn toolchain_of(self, target: AbiTargetView) -> ToolchainView {
        ToolchainView {
            ndk_version: self.ndk_version,
            build_tools_version: self.manifest.build_tools_version,
            rust_triple: target.rust_triple,
            release: self.profile == Profile::Release,
            features: self.features,
        }
    }

    /// The arguments of cargo for a target.
    pub open spec fn args_of(self, target: AbiTargetView) -> Seq<Seq<char>> {
        cargo_args(target.rust_triple, self.profile, self.features)
    }

    /// The environment of cargo for a target: it compiles for the lowest level that the
    /// project runs on.
    pub open spec fn env_of(self, target: AbiTargetView) -> Seq<(Seq<char>, Seq<char>)> {
        cargo_env(self.host, self.ndk_root, target, self.manifest.package.sdk_min)
    }

    /// The manifest of the package.
    pub open spec fn manifest_text(self) -> Seq<char> {
        android_manifest(self.manifest, replaced(self.crate_name, '-', "_"@), self.coded())
    }

    /// The directory that the build works in.
    pub open spec fn staging(self) -> Seq<char> {
        joined_path(self.host, self.project_root, "target/rusk-staging"@)
    }

    /// The directory of the generated Java sources.
    pub open spec fn pkg_dir(self) -> Seq<char> {
        joined_path(
            self.host,
            joined_path(self.host, self.staging(), "java-src"@),
            replaced(self.manifest.package.id, '.', "/"@),
        )
    }

    /// Where the APK goes.
    pub open spec fn signed_apk(self) -> Seq<char> {
        joined_path(
            self.host,
            joined_path(self.host, self.project_root, "target/rusk-out"@),
            apk_file(self.manifest.package.name, self.flavor),
        )
    }

    /// All native libraries: those compiled, one for each target in order, then
    /// those that Java dependencies bring.
    pub open spec fn all_libs(self) -> Seq<(Seq<char>, Seq<char>)> {
        self.compiled + brought_libs(self.jars, self.jars.len())
    }
}

/// The project's icon, and the resource that it is copied to. A resource without a
/// density of its own is used for all of them.
#[derive(Debug)]
pub struct IconFile {
    pub from: String,
    pub to: String,
}

/// What goes into an APK, and where it is made.
#[derive(Debug)]
pub struct PackageInputs {
    pub staging_dir: String,
    pub manifest_xml: String,
    pub strings_xml: String,
    /// The icon, where the project has one.
    pub icon: Option<IconFile>,
    /// The directory in the APK and the path of each library.
    pub native_libs: Vec<(String, String)>,
    /// Where the compiled Java classes are, if there are any.
    pub java_class_dir: Option<String>,
    pub java_dep_jars: Vec<String>,
    pub sdk_compile: u32,
    pub android_jar: String,
    pub unsigned_apk: String,
    pub signed_apk: String,
}

/// The paths of fetched artifacts on the class path.
pub open spec fn jar_paths(jars: Seq<ResolvedJar>) -> Seq<Seq<char>> {
    jars.map_values(|j: ResolvedJar| j.jar_path@)
}

/// Where the SDK's tools come from.
#[derive(Debug, Clone, Copy, PartialEq, Eq, Structural)]
pub enum ToolSource {
    /// The SDK that the user has installed.
    Installed,
    /// The SDK that Rusk manages.
    Managed,
}

/// Where the SDK's tools come from: the user's own SDK where there is one and it
/// has the platform, else the managed one.
pub fn tool_source(has_android_home: bool, has_platform: bool) -> (r: ToolSource)
    ensures
        r == ToolSource::Installed <==> has_android_home && has_platform,
{
    if has_android_home && has_platform {
        ToolSource::Installed
    } else {
        ToolSource::Managed
    }
}

impl BuildRun {
    /// The invariant of the targets being compiled.
    proof fn compile_is_wf(&self)
        requires
            self@.wf(),
        ensures
            self.compile.wf(),
            self@.targets.len() == self.compile.targets.len(),
    {
        let c = self.compile;
        assert forall|i: int| 0 <= i < c.done implies (#[trigger] c.native_libs@[i]).0@
            == c.targets@[i]@.jni_libs_dir by {
            assert(self@.compiled[i].0 == c.native_libs@[i].0@);
            assert(self@.targets[i] == c.targets@[i]@);
        }
        assert(self@.compiled.len() == c.native_libs@.len());
    }

    /// The targets being compiled keep the invariant of the build.
    proof fn compile_keeps_wf(&self)
        requires
            self.compile.wf(),
        ensures
            self@.done <= self@.targets.len(),
            self@.compiled.len() == self@.done,
            forall|i: int|
                0 <= i < self@.done ==> (#[trigger] self@.compiled[i]).0
                    == self@.targets[i].jni_libs_dir,
            in_key_order(self@.record),
            self@.targets.len() == self.compile.targets.len(),
    {
        let c = self.compile;
        assert forall|i: int| 0 <= i < self@.done implies (#[trigger] self@.compiled[i]).0
            == self@.targets[i].jni_libs_dir by {
            assert(self@.compiled[i].0 == c.native_libs@[i].0@);
            assert(self@.targets[i] == c.targets@[i]@);
        }
    }

    /// The stage that the build has come to.
    pub fn stage(&self) -> (r: Stage)
        ensures
            r == self@.stage,
    {
        self.stage
    }

    /// The project's root.
    pub fn project_root(&self) -> (r: &str)
        ensures
            r@ == self@.project_root,
    {
        self.project_root.as_str()
    }

    /// The manifest with the flavor laid over it.
    pub fn manifest(&self) -> (r: &RuskManifest)
        ensures
            r@ == self@.manifest,
    {
        &self.manifest
    }

    /// The flavor that is built.
    pub fn flavor(&self) -> (r: &Option<String>)
        ensures
            opt_view(*r) == self@.flavor,
    {
        &self.flavor
    }

    /// The NDK.
    pub fn ndk(&self) -> (r: &NdkHome)
        ensures
            r.root@ == self@.ndk_root,
            r.version@ == self@.ndk_version,
    {
        &self.ndk
    }

    /// The targets of the build.
    pub fn targets(&self) -> (r: &Vec<AbiTarget>)
        ensures
            target_views(r@) == self@.targets,
    {
        &self.compile.targets
    }

    /// The target to compile next, if one is left.
    pub fn current(&self) -> (r: Option<AbiTarget>)
        requires
            self@.wf(),
        ensures
            match r {
                Some(t) => self@.done < self@.targets.len() && t@ == self@.target(),
                None => self@.done == self@.targets.len(),
            },
    {
        proof {
            self.compile_is_wf();
        }
        self.compile.current()
    }

    /// The record of compiled targets.
    pub fn record(&self) -> (r: &IncrementalRecord)
        ensures
            r@ == self@.record,
    {
        &self.compile.record
    }

    /// The platform that Java is compiled against.
    pub fn android_jar(&self) -> (r: &str)
        ensures
            r@ == self@.android_jar,
    {
        self.android_jar.as_str()
    }

    /// The fetched Java dependencies.
    pub fn jars(&self) -> (r: &Vec<ResolvedJar>)
        ensures
            r@ == self@.jars,
    {
        &self.jars
    }

    /// Begins a build: lays the flavor over the manifest. One that the manifest does
    /// not have is reported at the project's root.
    pub fn start(host: HostOs, manifest: &RuskManifest, opts: BuildOptions) -> (r: Result<
        BuildRun,
        BuildError,
    >)
        ensures
            match r {
                Ok(run) => {
                    &&& run@.wf()
                    &&& match opt_view(opts.flavor) {
                        None => run@.manifest == manifest@ && run@.features.len() == 0,
                        Some(name) => {
                            let flavor = flavor_from(manifest@.flavor, name, 0);
                            &&& flavor is Some
                            &&& run@.manifest == manifest@.with_flavor(flavor->0)
                            &&& run@.features == flavor->0.cargo_features
                        },
                    }
                    &&& run@ == (BuildView {
                        host,
                        project_root: opts.project_root@,
                        profile: opts.profile,
                        flavor: opt_view(opts.flavor),
                        manifest: run@.manifest,
                        features: run@.features,
                        stage: Stage::Ndk,
                        ndk_root: seq![],
                        ndk_version: seq![],
                        crate_name: seq![],
                        targets: seq![],
                        done: 0,
                        compiled: seq![],
                        record: seq![],
                        android_jar: seq![],
                        functions: seq![],
                        jars: seq![],
                    })
                },
                Err(BuildError::Io { path, source }) => match opt_view(opts.flavor) {
                    Some(name) => {
                        &&& flavor_from(manifest@.flavor, name, 0) is None
                        &&& path@ == opts.project_root@
                        &&& source@ == "no [[flavor]] named \""@ + name + "\" in Rusk.toml"@
                    },
                    None => false,
                },
                Err(_) => false,
            },
    {
        let name: Option<&str> = match &opts.flavor {
            Some(f) => Some(f.as_str()),
            None => None,
        };
        match manifest.apply_flavor(name) {
            Ok((effective, features)) => {
                let run = BuildRun {
                    host,
                    project_root: opts.project_root,
                    profile: opts.profile,
                    flavor: opts.flavor,
                    manifest: effective,
                    features,
                    stage: Stage::Ndk,
                    ndk: NdkHome { root: String::new(), version: String::new() },
                    crate_name: String::new(),
                    compile: CompileRun::new(Vec::new(), IncrementalRecord::default()),
                    android_jar: String::new(),
                    functions: Vec::new(),
                    jars: Vec::new(),
                };
                proof {
                    run.compile_keeps_wf();
                    assert(run.ndk.root@ =~= seq![]);
                    assert(run.ndk.version@ =~= seq![]);
                    assert(run.crate_name@ =~= seq![]);
                    assert(run.android_jar@ =~= seq![]);
                    assert(run@.targets =~= seq![]);
                    assert(run@.compiled =~= seq![]);
                    assert(run@.record =~= seq![]);
                    assert(run@.functions =~= seq![]);
                    assert(run@.jars =~= seq![]);
                }
                Ok(run)
            },
            Err(e) => Err(BuildError::Io { path: opts.project_root, source: e.message() }),
        }
    }

    /// Takes the NDK.
    pub fn ndk_ready(&mut self, ndk: NdkHome)
        requires
            old(self)@.wf(),
            old(self)@.stage == Stage::Ndk,
        ensures
            final(self)@.wf(),
            final(self)@ == (BuildView {
                ndk_root: ndk.root@,
                ndk_version: ndk.version@,
                stage: Stage::CrateName,
                ..old(self)@
            }),
    {
        self.ndk = ndk;
        self.stage = next_stage(self.stage, false, false);
    }

    /// Where the crate's manifest is.
    pub fn cargo_toml(&self) -> (r: String)
        ensures
            r@ == joined_path(self@.host, self@.project_root, "Cargo.toml"@),
    {
        join_path(self.host, &self.project_root, "Cargo.toml")
    }

    /// Takes the crate's name, where its manifest could be read, and the record of
    /// earlier builds.
    pub fn crate_named(&mut self, name: Option<String>, record: IncrementalRecord) -> (r: Result<
        (),
        BuildError,
    >)
        requires
            old(self)@.wf(),
            old(self)@.stage == Stage::CrateName,
        ensures
            final(self)@.wf(),
            match (r, name) {
                (Ok(()), Some(n)) => {
                    let targets = targets_of(old(self)@.manifest.targets);
                    final(self)@ == (BuildView {
                        stage: if targets.len() == 0 {
                            Stage::SaveRecord
                        } else {
                            Stage::Compile
                        },
                        crate_name: n@,
                        targets,
                        done: 0,
                        compiled: seq![],
                        record: record@,
                        ..old(self)@
                    })
                },
                (Err(BuildError::CargoTomlMissing(path)), None) => {
                    &&& path@ == joined_path(
                        old(self)@.host,
                        old(self)@.project_root,
                        "Cargo.toml"@,
                    )
                    &&& final(self)@ == old(self)@
                },
                _ => false,
            },
    {
        match name {
            Some(n) => {
                let targets = self.manifest.resolved_targets();
                assert(target_views(targets@).len() == targets.len());
                self.stage = if targets.len() == 0 {
                    Stage::SaveRecord
                } else {
                    Stage::Compile
                };
                self.crate_name = n;
                self.compile = CompileRun::new(targets, record);
                proof {
                    self.compile_keeps_wf();
                    assert(self@.compiled =~= seq![]);
                }
                Ok(())
            },
            None => Err(BuildError::CargoTomlMissing(self.cargo_toml())),
        }
    }

    /// Goes on to the next stage once every target is done.
    fn leave_compile(&mut self)
        requires
            old(self).compile.wf(),
            old(self)@.stage == Stage::Compile,
            old(self)@.targets == targets_of(old(self)@.manifest.targets),
            old(self)@.jars.len() > 0 ==> old(self)@.has_java_deps(),
        ensures
            final(self)@.wf(),
            final(self)@ == (BuildView {
                stage: if old(self)@.done == old(self)@.targets.len() {
                    Stage::SaveRecord
                } else {
                    Stage::Compile
                },
                ..old(self)@
            }),
    {
        proof {
            self.compile_keeps_wf();
        }
        if self.compile.done == self.compile.targets.len() {
            self.stage = next_stage(self.stage, false, false);
        }
    }

    /// The toolchain that a target is compiled with.
    pub fn toolchain(&self, target: &AbiTarget) -> (r: ToolchainContext)
        ensures
            r@ == self@.toolchain_of(target@),
    {
        ToolchainContext {
            ndk_version: self.ndk.version.clone(),
            build_tools_version: self.manifest.sdk.build_tools_version.clone(),
            rust_triple: target.rust_triple.to_owned(),
            release: self.profile == Profile::Release,
            features: clone_strings(&self.features),
        }
    }

    /// Decides on the next target: its library is taken over where it is still
    /// what an earlier build made of the same inputs.
    pub fn decide(&mut self, fingerprint: &Option<BuildFingerprint>, found: &ArtifactFile) -> (r:
        TargetAction)
        requires
            old(self)@.wf(),
            old(self)@.stage == Stage::Compile,
        ensures
            final(self)@.wf(),
            ({
                let hit = match fingerprint {
                    Some(fp) => decision(
                        old(self)@.record,
                        old(self)@.target().rust_triple,
                        fp@,
                        digest_of(*found),
                    ),
                    None => DecisionView::Miss(MissReason::NoPriorBuild),
                };
                match r {
                    TargetAction::Reused(path) => hit == DecisionView::Hit(path@) && final(self)@
                        == old(self)@.with_library(path@),
                    TargetAction::Compile => hit is Miss && final(self)@ == old(self)@,
                }
            }),
    {
        proof {
            self.compile_is_wf();
            assert(self@.target() == self.compile.targets@[self.compile.done as int]@);
        }
        let action = self.compile.decide(fingerprint, found);
        if let TargetAction::Reused(_) = &action {
            self.leave_compile();
        }
        action
    }

    /// The command that compiles a target.
    pub fn command(&self, target: &AbiTarget) -> (r: CommandLine)
        requires
            abi_table().contains(target@),
        ensures
            r.program@ == "cargo"@,
            views(r.args@) == self@.args_of(target@),
            pair_views(r.env@) == self@.env_of(target@),
    {
        cargo_command(
            self.host,
            &self.ndk,
            target,
            self.manifest.package.sdk_min,
            self.profile,
            &self.features,
        )
    }

    /// Where cargo puts the library of a target.
    pub fn library(&self, target: &AbiTarget) -> (r: String)
        ensures
            r@ == self@.library_of(target@),
    {
        built_library(
            self.host,
            &self.project_root,
            target.rust_triple,
            self.profile,
            &self.crate_name,
        )
    }

    /// Takes the outcome of compiling the next target: its library, whose contents
    /// are given where they could be read. A failure ends the build.
    pub fn compiled(
        &mut self,
        success: bool,
        code: Option<i32>,
        library_exists: bool,
        fingerprint: Option<BuildFingerprint>,
        contents: Option<&[u8]>,
    ) -> (r: Result<(), BuildError>)
        requires
            old(self)@.wf(),
            old(self)@.stage == Stage::Compile,
        ensures
            final(self)@.wf(),
            ({
                let target = old(self)@.target();
                let library = old(self)@.library_of(target);
                match r {
                    Ok(()) => {
                        &&& success
                        &&& library_exists
                        &&& final(self)@ == (BuildView {
                            record: match (fingerprint, contents) {
                                (Some(fp), Some(bytes)) => with_entry(
                                    old(self)@.record,
                                    target.rust_triple,
                                    CachedView {
                                        fingerprint: fp@,
                                        artifact_path: library,
                                        artifact_sha256: sha256_hex(bytes@),
                                    },
                                ),
                                _ => old(self)@.record,
                            },
                            ..old(self)@.with_library(library)
                        })
                    },
                    Err(BuildError::CargoBuildFailed { triple, status }) => {
                        &&& !success
                        &&& triple@ == target.rust_triple
                        &&& status == code_or_minus_one(code)
                        &&& final(self)@ == old(self)@
                    },
                    Err(BuildError::MissingBuiltLib(path)) => {
                        &&& success
                        &&& !library_exists
                        &&& path@ == library
                        &&& final(self)@ == old(self)@
                    },
                    Err(_) => false,
                }
            }),
    {
        proof {
            self.compile_is_wf();
            assert(self@.target() == self.compile.targets@[self.compile.done as int]@);
        }
        let target = self.compile.targets[self.compile.done];
        let library = self.library(&target);
        match compile_outcome(target.rust_triple, success, code, library, library_exists) {
            Ok(path) => {
                self.compile.compiled(fingerprint, path, contents);
                self.leave_compile();
                Ok(())
            },
            Err(e) => Err(e),
        }
    }

    /// Notes that the record of compiled targets has been written.
    pub fn record_saved(&mut self)
        requires
            old(self)@.wf(),
            old(self)@.stage == Stage::SaveRecord,
        ensures
            final(self)@.wf(),
            final(self)@ == (BuildView { stage: Stage::Tools, ..old(self)@ }),
    {
        self.stage = next_stage(self.stage, false, false);
    }

    /// Takes the platform that Java is compiled and resources are linked against.
    pub fn tools_found(&mut self, android_jar: String)
        requires
            old(self)@.wf(),
            old(self)@.stage == Stage::Tools,
        ensures
            final(self)@.wf(),
            final(self)@ == (BuildView {
                android_jar: android_jar@,
                stage: Stage::ScanJni,
                ..old(self)@
            }),
    {
        self.android_jar = android_jar;
        self.stage = next_stage(self.stage, false, false);
    }

    /// Takes the exported functions. What follows depends on whether the project
    /// has Java dependencies, and on whether it has Java code at all.
    pub fn scanned(&mut self, functions: Vec<JniFunction>)
        requires
            old(self)@.wf(),
            old(self)@.stage == Stage::ScanJni,
        ensures
            final(self)@.wf(),
            final(self)@ == (BuildView {
                functions: function_views(functions@),
                stage: stage_after(
                    Stage::ScanJni,
                    old(self)@.has_java_deps(),
                    old(self)@.has_java_deps() || functions@.len() > 0,
                ),
                ..old(self)@
            }),
    {
        self.functions = functions;
        let coded = has_code(&self.manifest, &self.functions);
        assert(self.manifest@.java.len() == self.manifest.dependencies.java.entries@.len());
        let deps = self.manifest.dependencies.java.entries.len() > 0;
        self.stage = next_stage(self.stage, deps, coded);
    }

    /// Takes the fetched Java dependencies.
    pub fn java_resolved(&mut self, jars: Vec<ResolvedJar>)
        requires
            old(self)@.wf(),
            old(self)@.stage == Stage::ResolveJava,
        ensures
            final(self)@.wf(),
            final(self)@ == (BuildView {
                jars: jars@,
                stage: Stage::WriteSources,
                ..old(self)@
            }),
    {
        self.jars = jars;
        self.stage = next_stage(self.stage, true, true);
    }

    /// The directories and files of the build.
    pub fn paths(&self) -> (r: BuildPaths)
        ensures
            r.staging@ == self@.staging(),
            r.pkg_dir@ == self@.pkg_dir(),
            r.class_dir@ == joined_path(self@.host, r.staging@, "java-classes"@),
            r.unsigned_apk@ == joined_path(self@.host, r.staging@, "unsigned.apk"@),
            r.out_dir@ == joined_path(self@.host, self@.project_root, "target/rusk-out"@),
            r.signed_apk@ == self@.signed_apk(),
    {
        build_paths(self.host, &self.project_root, &self.manifest, &self.flavor)
    }

    /// The Java sources to write.
    pub fn sources(&self) -> (r: Vec<(String, String)>)
        ensures
            exists|classes: Seq<Seq<char>>|
                {
                    &&& strictly_in_order(classes)
                    &&& forall|c: Seq<char>|
                        #[trigger] classes.contains(c) <==> class_names(self@.functions).contains(c)
                    &&& pair_views(r@) == shim_source(self@.host, self@.pkg_dir(), self@.manifest)
                        + #[trigger] class_sources(
                        self@.host,
                        self@.pkg_dir(),
                        self@.manifest.package.id,
                        replaced(self@.crate_name, '-', "_"@),
                        self@.functions,
                        classes,
                        classes.len(),
                    )
                },
    {
        let paths = self.paths();
        let lib = library_name(&self.crate_name);
        let sources = java_sources(
            self.host,
            &self.manifest,
            &lib,
            &paths.pkg_dir,
            &self.functions,
        );
        assert(lib@ == replaced(self@.crate_name, '-', "_"@));
        assert(paths.pkg_dir@ == self@.pkg_dir());
        assert(self@.functions == function_views(self.functions@));
        sources
    }

    /// Notes that the Java sources have been written.
    pub fn sources_written(&mut self)
        requires
            old(self)@.wf(),
            old(self)@.stage == Stage::WriteSources,
        ensures
            final(self)@.wf(),
            final(self)@ == (BuildView { stage: Stage::Javac, ..old(self)@ }),
    {
        self.stage = next_stage(self.stage, false, true);
    }

    /// Takes the outcome of compiling Java. A failure ends the build.
    pub fn java_compiled(&mut self, success: bool, code: Option<i32>) -> (r: Result<(), BuildError>)
        requires
            old(self)@.wf(),
            old(self)@.stage == Stage::Javac,
        ensures
            final(self)@.wf(),
            match r {
                Ok(()) => success && final(self)@ == (BuildView {
                    stage: Stage::Signing,
                    ..old(self)@
                }),
                Err(BuildError::JavacFailed(status)) => {
                    &&& !success
                    &&& status == code_or_minus_one(code)
                    &&& final(self)@ == old(self)@
                },
                Err(_) => false,
            },
    {
        match javac_outcome(success, code) {
            Ok(()) => {
                self.stage = next_stage(self.stage, false, true);
                Ok(())
            },
            Err(e) => Err(e),
        }
    }

    /// The project's own key, where it names one; its password comes from the
    /// environment.
    pub fn key(&self, password: Option<String>) -> (r: Option<KeystoreConfig>)
        ensures
            key_view(r) == signing_key_of(
                self@.host,
                self@.project_root,
                self@.manifest.signing,
                opt_view(password),
            ),
    {
        signing_key(self.host, &self.project_root, &self.manifest, password)
    }

    /// Notes that there is a key to sign with.
    pub fn key_found(&mut self)
        requires
            old(self)@.wf(),
            old(self)@.stage == Stage::Signing,
        ensures
            final(self)@.wf(),
            final(self)@ == (BuildView { stage: Stage::Package, ..old(self)@ }),
    {
        self.stage = next_stage(self.stage, false, false);
    }

    /// All native libraries.
    pub fn native_libs(&self) -> (r: Vec<(String, String)>)
        ensures
            pair_views(r@) == self@.all_libs(),
    {
        let mut libs = clone_pairs(&self.compile.native_libs);
        add_brought_libs(&mut libs, &self.jars);
        libs
    }

    /// What goes into the APK.
    pub fn package(&self) -> (r: PackageInputs)
        requires
            self@.wf(),
            self@.stage == Stage::Package,
        ensures
            r.staging_dir@ == self@.staging(),
            r.manifest_xml@ == self@.manifest_text(),
            r.strings_xml@ == strings_xml(self@.manifest.label()),
            match (r.icon, self@.manifest.app.icon) {
                (Some(file), Some(icon)) => {
                    &&& file.from@ == joined_path(self@.host, self@.project_root, icon)
                    &&& file.to@ == joined_path(
                        self@.host,
                        self@.staging(),
                        "res/drawable-nodpi/ic_launcher.png"@,
                    )
                },
                (None, None) => true,
                _ => false,
            },
            pair_views(r.native_libs@) == self@.all_libs(),
            opt_view(r.java_class_dir) == (if self@.coded() {
                Some(joined_path(self@.host, self@.staging(), "java-classes"@))
            } else {
                None
            }),
            views(r.java_dep_jars@) == jar_paths(self@.jars),
            r.sdk_compile == self@.manifest.package.sdk_compile,
            r.android_jar@ == self@.android_jar,
            r.unsigned_apk@ == joined_path(self@.host, self@.staging(), "unsigned.apk"@),
            r.signed_apk@ == self@.signed_apk(),
    {
        let paths = self.paths();
        let coded = has_code(&self.manifest, &self.functions);
        let lib = library_name(&self.crate_name);
        let mut java_dep_jars: Vec<String> = Vec::new();
        for i in 0..self.jars.len()
            invariant
                java_dep_jars@.len() == i,
                forall|j: int| 0 <= j < i ==> (#[trigger] java_dep_jars@[j])@ == self.jars@[j].jar_path@,
        {
            java_dep_jars.push(self.jars[i].jar_path.clone());
        }
        assert(views(java_dep_jars@) =~= jar_paths(self.jars@));
        let icon = match &self.manifest.app.icon {
            Some(icon) => Some(
                IconFile {
                    from: join_path(self.host, &self.project_root, icon),
                    to: join_path(self.host, &paths.staging, "res/drawable-nodpi/ic_launcher.png"),
                },
            ),
            None => None,
        };
        PackageInputs {
            manifest_xml: generate_manifest(&self.manifest, &lib, coded),
            strings_xml: generate_strings_xml(&self.manifest),
            icon,
            native_libs: self.native_libs(),
            java_class_dir: if coded {
                Some(paths.class_dir)
            } else {
                None
            },
            java_dep_jars,
            sdk_compile: self.manifest.package.sdk_compile,
            android_jar: self.android_jar.clone(),
            staging_dir: paths.staging,
            unsigned_apk: paths.unsigned_apk,
            signed_apk: paths.signed_apk,
        }
    }

    /// Notes that the APK has been packaged and signed.
    pub fn packaged(&mut self)
        requires
            old(self)@.wf(),
            old(self)@.stage == Stage::Package,
        ensures
            final(self)@.wf(),
            final(self)@ == (BuildView { stage: Stage::Summary, ..old(self)@ }),
    {
        self.stage = next_stage(self.stage, false, false);
    }

    /// What the build produced.
    pub fn finish(&mut self) -> (r: BuildOutcome)
        requires
            old(self)@.wf(),
            old(self)@.stage == Stage::Summary,
        ensures
            final(self)@.wf(),
            final(self)@ == (BuildView { stage: Stage::Done, ..old(self)@ }),
            r.apk_path@ == old(self)@.signed_apk(),
    {
        let paths = self.paths();
        self.stage = next_stage(self.stage, false, false);
        BuildOutcome { apk_path: paths.signed_apk }
    }
}

/// What is packaged holds a library for every target of the project, in the order
/// of the targets, each in the directory of its target.
pub proof fn package_has_every_target(run: BuildView, i: int)
    requires
        run.wf(),
        run.stage == Stage::Package,
        0 <= i < targets_of(run.manifest.targets).len(),
    ensures
        i < run.all_libs().len(),
        run.all_libs()[i].0 == targets_of(run.manifest.targets)[i].jni_libs_dir,
{
    assert(run.compiled[i].0 == run.targets[i].jni_libs_dir);
}

/// What a build stages and what it puts out lie below the project's root in `target`;
/// the package is named after the project, and its flavor where it has one.
#[verifier::rlimit(60)]
pub proof fn output_lies_in_target(b: BuildView)
    requires
        steady(b.host, b.project_root),
        one_name(apk_file(b.manifest.package.name, b.flavor)),
    ensures
        components(b.host, b.staging()) == components(b.host, b.project_root) + seq![
            "target"@,
            "rusk-staging"@,
        ],
        components(b.host, b.signed_apk()) == components(b.host, b.project_root) + seq![
            "target"@,
            "rusk-out"@,
            match b.flavor {
                Some(f) => b.manifest.package.name + "-"@ + f + ".apk"@,
                None => b.manifest.package.name + ".apk"@,
            },
        ],
{
    assert(one_name("target"@)) by {
        reveal_strlit("target");
        long_name_is_one_name("target"@);
    }
    assert(one_name("rusk-staging"@)) by {
        reveal_strlit("rusk-staging");
        long_name_is_one_name("rusk-staging"@);
    }
    assert(one_name("rusk-out"@)) by {
        reveal_strlit("rusk-out");
        long_name_is_one_name("rusk-out"@);
    }
    assert("target/rusk-staging"@ =~= "target"@.push('/') + "rusk-staging"@) by {
        reveal_strlit("target/rusk-staging");
        reveal_strlit("target");
        reveal_strlit("rusk-staging");
    }
    assert("target/rusk-out"@ =~= "target"@.push('/') + "rusk-out"@) by {
        reveal_strlit("target/rusk-out");
        reveal_strlit("target");
        reveal_strlit("rusk-out");
    }
    let base = components(b.host, b.project_root);
    joined_two(b.host, b.project_root, "target"@, "rusk-staging"@);
    assert(base.push("target"@).push("rusk-staging"@) =~= base + seq!["target"@, "rusk-staging"@]);
    joined_two(b.host, b.project_root, "target"@, "rusk-out"@);
    let file = apk_file(b.manifest.package.name, b.flavor);
    joined_components(b.host, joined_path(b.host, b.project_root, "target/rusk-out"@), file);
    assert(base.push("target"@).push("rusk-out"@).push(file) =~= base + seq![
        "target"@,
        "rusk-out"@,
        file,
    ]);
}

/// A build has code exactly where it has Java dependencies or exported functions.
pub proof fn code_comes_from_java_or_exports(b: BuildView)
    ensures
        !b.coded() <==> b.manifest.java.len() == 0 && b.functions.len() == 0,
        b.has_java_deps() ==> b.coded(),
{
}

/// A compiled library is added for its target, behind those before, and the build goes
/// on with the next target, or with what follows behind the last.
pub proof fn library_is_added(b: BuildView, path: Seq<char>)
    requires
        b.wf(),
        b.done < b.targets.len(),
    ensures
        b.with_library(path).done == b.done + 1,
        b.with_library(path).compiled.drop_last() == b.compiled,
        b.with_library(path).compiled.last() == (b.targets[b.done as int].jni_libs_dir, path),
        b.with_library(path).stage == (if b.done + 1 < b.targets.len() {
            Stage::Compile
        } else {
            Stage::SaveRecord
        }),
        b.with_library(path).targets == b.targets,
        b.with_library(path).record == b.record,
{
    assert(b.with_library(path).compiled.drop_last() =~= b.compiled);
}

/// A target is compiled for the lowest level that the project runs on: whatever level
/// it is built for or compiled against, the compilers are the same.
pub proof fn compilers_are_for_lowest_level(
    b: BuildView,
    target: AbiTargetView,
    sdk_target: u32,
    sdk_compile: u32,
)
    ensures
        b.env_of(target).contains(
            (
                "CC_"@ + target.rust_triple,
                clang_path(
                    b.host,
                    b.ndk_root,
                    target.clang_target,
                    b.manifest.package.sdk_min,
                    "clang"@,
                ),
            ),
        ),
        ({
            let package = PackageView { sdk_target, sdk_compile, ..b.manifest.package };
            let other = BuildView { manifest: ManifestView { package, ..b.manifest }, ..b };
            other.env_of(target) == b.env_of(target)
        }),
{
    compilers_are_told(
        b.host,
        b.ndk_root,
        target,
        b.manifest.package.sdk_min,
        target.rust_triple,
    );
}

/// A debug and a release build of a target differ in what cargo is told, in what is
/// fingerprinted, and in where the library is.
pub proof fn profiles_stay_apart(b: BuildView, target: AbiTargetView)
    requires
        b.profile == Profile::Debug,
        steady(b.host, b.project_root),
        one_name(target.rust_triple),
        crate_like(b.crate_name),
    ensures
        ({
            let r = BuildView { profile: Profile::Release, ..b };
            &&& r.args_of(target) != b.args_of(target)
            &&& r.toolchain_of(target).release && !b.toolchain_of(target).release
            &&& r.library_of(target) != b.library_of(target)
            &&& r.env_of(target) == b.env_of(target)
        }),
{
    let r = BuildView { profile: Profile::Release, ..b };
    assert(r.args_of(target).len() == b.args_of(target).len() + 1);
    library_lies_in_its_profile(b.host, b.project_root, target.rust_triple, b.crate_name);
}

/// What a target is fingerprinted with is what it is compiled with: the versions of the
/// tools, the target, the profile and the features.
pub proof fn toolchain_is_what_compiles(b: BuildView, target: AbiTargetView)
    ensures
        b.toolchain_of(target).ndk_version == b.ndk_version,
        b.toolchain_of(target).build_tools_version == b.manifest.build_tools_version,
        b.args_of(target)[2] == b.toolchain_of(target).rust_triple,
        b.toolchain_of(target).features == b.features,
        b.toolchain_of(target).release <==> b.args_of(target) == cargo_args(
            target.rust_triple,
            Profile::Release,
            b.features,
        ),
{
    let d = cargo_args(target.rust_triple, Profile::Debug, b.features);
    let r = cargo_args(target.rust_triple, Profile::Release, b.features);
    assert(r.len() == d.len() + 1);
}

/// The manifest of a package is that of the project as the flavor makes it: its levels
/// and its id read back, and it says whether there is code to run.
pub proof fn package_has_projects_manifest(b: BuildView)
    requires
        !b.crate_name.contains('"'),
    ensures
        attribute_in(b.manifest_text(), "package"@) == Some(xml_escaped(b.manifest.package.id)),
        attribute_in(b.manifest_text(), "android:minSdkVersion"@) matches Some(lowest)
            && number_of(lowest, u32::MAX as nat) == Some(b.manifest.package.sdk_min as nat),
        attribute_in(b.manifest_text(), "android:targetSdkVersion"@) matches Some(target)
            && number_of(target, u32::MAX as nat) == Some(b.manifest.package.sdk_target as nat),
        quoted_parts(b.manifest_text())[(14 + 2 * b.manifest.permissions.len() + 3) as int] == (
        if b.manifest.java.len() > 0 || b.functions.len() > 0 {
            "true"@
        } else {
            "false"@
        }),
{
    let lib = replaced(b.crate_name, '-', "_"@);
    reveal_strlit("_");
    assert("_"@ =~= seq!['_']);
    replaced_one_for_one(b.crate_name, '-', '_');
    if lib.contains('"') {
        let i = choose|i: int| 0 <= i < lib.len() && lib[i] == '"';
        assert(b.crate_name[i] == '"');
    }
    manifest_read_back(b.manifest, lib, b.coded());
    manifest_says_what_project_is(b.manifest, lib, b.coded());
}

} // verus!
