//! Whether a compile step can be skipped because nothing that affects its
//! output has changed since the last build.
//!
//! A fingerprint digests the sources, the project files and the toolchain; a
//! record keeps, for each target, the fingerprint of the last build and the
//! digest of what it produced.
use crate::digest::{sha256_digest, sha256_hex};
use crate::num::{decimal, decimal_text};
use crate::ordmap::{
    OrdMap, in_key_order, lookup, lookup_after_with_entry, map_items, map_items_keeps_order,
    slot_from_by_keys, slot_from_props, with_entry, with_entry_map,
};
use crate::path::{
    HostOs, components, join_path, joined_2, joined_components, joined_path, key_of,
    long_name_is_one_name, one_name, path_key, steady,
};
use crate::text::{
    behind_three, clone_strings, contains_in_middle, contains_in_part, contains_text, is_before,
    precedes, precedes_from_asymmetric, precedes_from_transitive, precedes_total, same_strings,
    sort_dedup_strings, strictly_in_order, strictly_in_order_unique, views,
};
use vstd::prelude::*;
use vstd::utf8::encode_utf8;
use vstd::utf8::encode_utf8_decode_utf8;

verus! {

// ---------------------------------------------------------------------------
// Toolchains

/// What affects a compile's output besides the source tree.
#[derive(Debug)]
pub struct ToolchainContext {
    pub ndk_version: String,
    pub build_tools_version: String,
    pub rust_triple: String,
    pub release: bool,
    /// Cargo features; their order does not matter.
    pub features: Vec<String>,
}

/// The texts of a toolchain.
pub struct ToolchainView {
    pub ndk_version: Seq<char>,
    pub build_tools_version: Seq<char>,
    pub rust_triple: Seq<char>,
    pub release: bool,
    pub features: Seq<Seq<char>>,
}

impl View for ToolchainContext {
    type V = ToolchainView;

    open spec fn view(&self) -> ToolchainView {
        ToolchainView {
            ndk_version: self.ndk_version@,
            build_tools_version: self.build_tools_version@,
            rust_triple: self.rust_triple@,
            release: self.release,
            features: views(self.features@),
        }
    }
}

impl Clone for ToolchainContext {
    fn clone(&self) -> (r: Self)
        ensures
            r@ == self@,
    {
        ToolchainContext {
            ndk_version: self.ndk_version.clone(),
            build_tools_version: self.build_tools_version.clone(),
            rust_triple: self.rust_triple.clone(),
            release: self.release,
            features: clone_strings(&self.features),
        }
    }
}

/// Whether `t` is `s` with its features sorted, each once.
pub open spec fn normal_form(s: ToolchainView, t: ToolchainView) -> bool {
    &&& strictly_in_order(t.features)
    &&& forall|f: Seq<char>| #[trigger] t.features.contains(f) <==> s.features.contains(f)
    &&& t == ToolchainView { features: t.features, ..s }
}

/// Toolchains that differ only in the order or repetition of their features
/// have the same normal form.
pub proof fn normal_form_unique(
    s1: ToolchainView,
    s2: ToolchainView,
    t1: ToolchainView,
    t2: ToolchainView,
)
    requires
        normal_form(s1, t1),
        normal_form(s2, t2),
        s1 == (ToolchainView { features: s1.features, ..s2 }),
        forall|f: Seq<char>| #[trigger] s1.features.contains(f) <==> s2.features.contains(f),
    ensures
        t1 == t2,
{
    assert forall|f: Seq<char>| #[trigger] t1.features.contains(f) <==> t2.features.contains(f) by {
        assert(t1.features.contains(f) <==> s1.features.contains(f));
        assert(t2.features.contains(f) <==> s2.features.contains(f));
    }
    strictly_in_order_unique(t1.features, t2.features);
}

impl ToolchainContext {
    /// The toolchain with its features sorted, each once.
    pub fn normalized(&self) -> (r: Self)
        ensures
            normal_form(self@, r@),
    {
        ToolchainContext {
            ndk_version: self.ndk_version.clone(),
            build_tools_version: self.build_tools_version.clone(),
            rust_triple: self.rust_triple.clone(),
            release: self.release,
            features: sort_dedup_strings(&self.features),
        }
    }

    /// Whether two toolchains agree in everything.
    pub fn same_as(&self, other: &ToolchainContext) -> (r: bool)
        ensures
            r == (self@ == other@),
    {
        self.ndk_version == other.ndk_version && self.build_tools_version
            == other.build_tools_version && self.rust_triple == other.rust_triple && self.release
            == other.release && same_strings(&self.features, &other.features)
    }
}

// ---------------------------------------------------------------------------
// Fingerprints

/// A file that goes into a fingerprint.
#[derive(Debug)]
pub struct InputFile {
    pub path: String,
    pub bytes: Vec<u8>,
}

/// The path and the contents of a file.
pub struct InputView {
    pub path: Seq<char>,
    pub bytes: Seq<u8>,
}

impl View for InputFile {
    type V = InputView;

    open spec fn view(&self) -> InputView {
        InputView { path: self.path@, bytes: self.bytes@ }
    }
}

/// The paths and contents of a list of files.
pub open spec fn input_views(v: Seq<InputFile>) -> Seq<InputView> {
    v.map_values(|f: InputFile| f@)
}

/// A sorted list of files with one more put in its place, behind those that
/// do not come after it.
pub open spec fn with_file(host: HostOs, s: Seq<InputView>, f: InputView) -> Seq<InputView>
    decreases s.len(),
{
    if s.len() > 0 && precedes(path_key(host, f.path), path_key(host, s.last().path)) {
        with_file(host, s.drop_last(), f).push(s.last())
    } else {
        s.push(f)
    }
}

/// The files sorted by path, component by component.
pub open spec fn sorted_files(host: HostOs, files: Seq<InputView>) -> Seq<InputView>
    decreases files.len(),
{
    if files.len() == 0 {
        seq![]
    } else {
        with_file(host, sorted_files(host, files.drop_last()), files.last())
    }
}

/// What the files contribute to a fingerprint: of each its path and its contents.
pub open spec fn file_bytes(files: Seq<InputView>) -> Seq<u8>
    decreases files.len(),
{
    if files.len() == 0 {
        seq![]
    } else {
        file_bytes(files.drop_last()) + encode_utf8(files.last().path) + files.last().bytes
    }
}

/// What texts contribute to a fingerprint.
pub open spec fn text_bytes(texts: Seq<Seq<char>>) -> Seq<u8>
    decreases texts.len(),
{
    if texts.len() == 0 {
        seq![]
    } else {
        text_bytes(texts.drop_last()) + encode_utf8(texts.last())
    }
}

/// What a toolchain contributes to a fingerprint.
pub open spec fn toolchain_bytes(t: ToolchainView) -> Seq<u8> {
    encode_utf8(t.ndk_version) + encode_utf8(t.build_tools_version) + encode_utf8(t.rust_triple)
        + seq![
        if t.release {
            1u8
        } else {
            0u8
        },
    ] + text_bytes(t.features)
}

/// Everything that a fingerprint digests: the sources sorted by path, the
/// project files, and the toolchain.
pub open spec fn fingerprint_input(
    host: HostOs,
    sources: Seq<InputView>,
    extras: Seq<InputView>,
    toolchain: ToolchainView,
) -> Seq<u8> {
    file_bytes(sorted_files(host, sources)) + file_bytes(extras) + toolchain_bytes(toolchain)
}

/// The identity of a build.
#[derive(Debug)]
pub struct BuildFingerprint {
    /// SHA-256 of everything that goes into the build.
    pub hash: String,
    pub toolchain: ToolchainContext,
    /// How many files were digested; not compared.
    pub file_count: usize,
    /// Seconds since the epoch; not compared.
    pub computed_at: u64,
}

/// The texts of a fingerprint.
pub struct FingerprintView {
    pub hash: Seq<char>,
    pub toolchain: ToolchainView,
    pub file_count: usize,
    pub computed_at: u64,
}

impl View for BuildFingerprint {
    type V = FingerprintView;

    open spec fn view(&self) -> FingerprintView {
        FingerprintView {
            hash: self.hash@,
            toolchain: self.toolchain@,
            file_count: self.file_count,
            computed_at: self.computed_at,
        }
    }
}

impl Clone for BuildFingerprint {
    fn clone(&self) -> (r: Self)
        ensures
            r@ == self@,
    {
        BuildFingerprint {
            hash: self.hash.clone(),
            toolchain: self.toolchain.clone(),
            file_count: self.file_count,
            computed_at: self.computed_at,
        }
    }
}

/// The files of a project beside its sources that its libraries depend on.
pub open spec fn project_files(host: HostOs, project_root: Seq<char>) -> Seq<Seq<char>> {
    seq![
        joined_path(host, project_root, "Cargo.toml"@),
        joined_path(host, project_root, "Rusk.toml"@),
        joined_path(host, project_root, "build.rs"@),
    ]
}

/// The project files that go into a fingerprint besides the sources, in order;
/// those that do not exist are left out.
pub fn extra_inputs(host: HostOs, project_root: &str) -> (r: Vec<String>)
    ensures
        views(r@) == project_files(host, project_root@),
{
    let r = vec![
        join_path(host, project_root, "Cargo.toml"),
        join_path(host, project_root, "Rusk.toml"),
        join_path(host, project_root, "build.rs"),
    ];
    assert(views(r@) =~= seq![
        joined_path(host, project_root@, "Cargo.toml"@),
        joined_path(host, project_root@, "Rusk.toml"@),
        joined_path(host, project_root@, "build.rs"@),
    ]);
    r
}

fn push_bytes(out: &mut Vec<u8>, bytes: &[u8])
    ensures
        final(out)@ == old(out)@ + bytes@,
{
    let ghost start = out@;
    out.extend_from_slice(bytes);
    assert(out@ =~= start + bytes@);
}

fn push_text(out: &mut Vec<u8>, s: &str)
    ensures
        final(out)@ == old(out)@ + encode_utf8(s@),
{
    push_bytes(out, s.as_bytes());
}

fn push_file(out: &mut Vec<u8>, f: &InputFile)
    ensures
        final(out)@ == old(out)@ + encode_utf8(f@.path) + f@.bytes,
{
    push_text(out, &f.path);
    push_bytes(out, f.bytes.as_slice());
}

/// The files that the indices name, in order.
spec fn chosen(files: Seq<InputFile>, order: Seq<usize>) -> Seq<InputView> {
    order.map_values(|k: usize| files[k as int]@)
}

/// Where a file goes among sorted ones: everything from there on comes after it.
proof fn with_file_at(host: HostOs, s: Seq<InputView>, f: InputView, p: int)
    requires
        0 <= p <= s.len(),
        forall|j: int|
            p <= j < s.len() ==> precedes(
                path_key(host, f.path),
                path_key(host, (#[trigger] s[j]).path),
            ),
        p > 0 ==> !precedes(path_key(host, f.path), path_key(host, s[p - 1].path)),
    ensures
        with_file(host, s, f) == s.insert(p, f),
    decreases s.len(),
{
    if p == s.len() {
        assert(s.insert(p, f) =~= s.push(f));
    } else {
        assert(precedes(path_key(host, f.path), path_key(host, s[s.len() - 1].path)));
        let t = s.drop_last();
        assert forall|j: int| p <= j < t.len() implies precedes(
            path_key(host, f.path),
            path_key(host, (#[trigger] t[j]).path),
        ) by {
            assert(t[j] == s[j]);
        }
        with_file_at(host, t, f, p);
        assert(t.insert(p, f).push(s.last()) =~= s.insert(p, f));
    }
}

/// The positions of the files in the order of their paths.
fn sort_order(host: HostOs, files: &Vec<InputFile>) -> (r: Vec<usize>)
    ensures
        r.len() == files.len(),
        forall|i: int| 0 <= i < r.len() ==> (#[trigger] r@[i]) < files.len(),
        chosen(files@, r@) == sorted_files(host, input_views(files@)),
{
    let mut order: Vec<usize> = Vec::new();
    let ghost all = input_views(files@);
    assert(chosen(files@, order@) =~= seq![]);
    for i in 0..files.len()
        invariant
            all == input_views(files@),
            order.len() == i,
            forall|j: int| 0 <= j < order.len() ==> (#[trigger] order@[j]) < files.len(),
            chosen(files@, order@) == sorted_files(host, all.take(i as int)),
    {
        let key = key_of(host, &files[i].path);
        let ghost s = chosen(files@, order@);
        let ghost f = all[i as int];
        assert(f == files@[i as int]@);
        let mut p: usize = order.len();
        while p > 0 && is_before(&key, &key_of(host, &files[order[p - 1]].path))
            invariant
                p <= order.len(),
                key@ == path_key(host, f.path),
                s == chosen(files@, order@),
                forall|j: int| 0 <= j < order.len() ==> (#[trigger] order@[j]) < files.len(),
                forall|j: int|
                    p <= j < s.len() ==> precedes(key@, path_key(host, (#[trigger] s[j]).path)),
            decreases p,
        {
            p -= 1;
            assert(s[p as int] == files@[order@[p as int] as int]@);
        }
        proof {
            if p > 0 {
                assert(s[p - 1] == files@[order@[p - 1] as int]@);
            }
            with_file_at(host, s, f, p as int);
            assert(all.take(i + 1).drop_last() =~= all.take(i as int));
        }
        let ghost o = order@;
        order.insert(p, i);
        proof {
            assert(order@ == o.insert(p as int, i));
            assert(chosen(files@, order@) =~= s.insert(p as int, f));
            assert forall|j: int| 0 <= j < order.len() implies (#[trigger] order@[j])
                < files.len() by {
                if j < p {
                    assert(order@[j] == o[j]);
                } else if j > p {
                    assert(order@[j] == o[j - 1]);
                }
            }
        }
    }
    assert(all.take(all.len() as int) =~= all);
    order
}

/// Everything that a fingerprint digests, for a toolchain in its normal form.
pub fn fingerprint_bytes(
    host: HostOs,
    sources: &Vec<InputFile>,
    extras: &Vec<InputFile>,
    toolchain: &ToolchainContext,
) -> (r: Vec<u8>)
    ensures
        r@ == fingerprint_input(host, input_views(sources@), input_views(extras@), toolchain@),
{
    let order = sort_order(host, sources);
    let mut input: Vec<u8> = Vec::new();
    let ghost sorted = sorted_files(host, input_views(sources@));
    for i in 0..order.len()
        invariant
            forall|j: int| 0 <= j < order.len() ==> (#[trigger] order@[j]) < sources.len(),
            sorted == chosen(sources@, order@),
            input@ == file_bytes(sorted.take(i as int)),
    {
        push_file(&mut input, &sources[order[i]]);
        proof {
            assert(sorted.take(i + 1).drop_last() =~= sorted.take(i as int));
            assert(sorted[i as int] == sources@[order@[i as int] as int]@);
        }
    }
    assert(sorted.take(sorted.len() as int) =~= sorted);
    let ghost base = input@;
    let ghost more = input_views(extras@);
    assert(base =~= base + file_bytes(more.take(0)));
    for i in 0..extras.len()
        invariant
            more == input_views(extras@),
            input@ == base + file_bytes(more.take(i as int)),
    {
        push_file(&mut input, &extras[i]);
        proof {
            assert(more.take(i + 1).drop_last() =~= more.take(i as int));
            assert(more[i as int] == extras@[i as int]@);
            assert(input@ =~= base + file_bytes(more.take(i + 1)));
        }
    }
    assert(more.take(more.len() as int) =~= more);
    push_toolchain(&mut input, toolchain);
    input
}

fn push_toolchain(input: &mut Vec<u8>, toolchain: &ToolchainContext)
    ensures
        final(input)@ == old(input)@ + toolchain_bytes(toolchain@),
{
    let ghost base = input@;
    push_text(input, &toolchain.ndk_version);
    push_text(input, &toolchain.build_tools_version);
    push_text(input, &toolchain.rust_triple);
    let flag: u8 = if toolchain.release {
        1
    } else {
        0
    };
    let ghost before_flag = input@;
    input.push(flag);
    assert(input@ =~= before_flag + seq![flag]);
    let ghost before_features = input@;
    let ghost features = toolchain@.features;
    assert(input@ =~= before_features + text_bytes(features.take(0)));
    for i in 0..toolchain.features.len()
        invariant
            features == views(toolchain.features@),
            input@ == before_features + text_bytes(features.take(i as int)),
    {
        push_text(input, &toolchain.features[i]);
        proof {
            assert(features.take(i + 1).drop_last() =~= features.take(i as int));
            assert(features[i as int] == toolchain.features@[i as int]@);
            assert(input@ =~= before_features + text_bytes(features.take(i + 1)));
        }
    }
    proof {
        assert(features.take(features.len() as int) =~= features);
        assert(input@ =~= base + toolchain_bytes(toolchain@));
    }
}

/// Whether `r` is the fingerprint of the files and the toolchain, whenever it was
/// computed.
pub open spec fn is_fingerprint_of(
    r: FingerprintView,
    host: HostOs,
    sources: Seq<InputView>,
    extras: Seq<InputView>,
    toolchain: ToolchainView,
) -> bool {
    &&& normal_form(toolchain, r.toolchain)
    &&& r.hash == sha256_hex(fingerprint_input(host, sources, extras, r.toolchain))
    &&& r.file_count == sources.len() + extras.len()
}

/// The fingerprint of a build: of the sources, in whatever order they are
/// listed, of the project files, in the order of [`extra_inputs`], and of the
/// toolchain in its normal form.
pub fn compute(
    host: HostOs,
    sources: &Vec<InputFile>,
    extras: &Vec<InputFile>,
    toolchain: &ToolchainContext,
    computed_at: u64,
) -> (r: BuildFingerprint)
    requires
        sources.len() + extras.len() <= usize::MAX,
    ensures
        is_fingerprint_of(
            r@,
            host,
            input_views(sources@),
            input_views(extras@),
            toolchain@,
        ),
        r.computed_at == computed_at,
{
    let toolchain = toolchain.normalized();
    let input = fingerprint_bytes(host, sources, extras, &toolchain);
    let hash = sha256_digest(input.as_slice());
    BuildFingerprint { hash, toolchain, file_count: sources.len() + extras.len(), computed_at }
}

// ---------------------------------------------------------------------------
// What holds of every fingerprint

/// Whether each file's key comes before that of the next.
pub open spec fn sorted_strictly(host: HostOs, s: Seq<InputView>) -> bool {
    forall|i: int, j: int|
        0 <= i < j < s.len() ==> precedes(
            path_key(host, (#[trigger] s[i]).path),
            path_key(host, (#[trigger] s[j]).path),
        )
}

/// Whether no two files have the same path.
pub open spec fn distinct_paths(host: HostOs, s: Seq<InputView>) -> bool {
    forall|i: int, j: int|
        0 <= i < j < s.len() ==> path_key(host, (#[trigger] s[i]).path) != path_key(
            host,
            (#[trigger] s[j]).path,
        )
}

proof fn with_file_props(host: HostOs, s: Seq<InputView>, f: InputView)
    requires
        sorted_strictly(host, s),
        forall|i: int|
            0 <= i < s.len() ==> path_key(host, (#[trigger] s[i]).path) != path_key(host, f.path),
    ensures
        sorted_strictly(host, with_file(host, s, f)),
        forall|x: InputView| #[trigger] with_file(host, s, f).contains(x) <==> s.contains(x) || x == f,
    decreases s.len(),
{
    let t = with_file(host, s, f);
    let kf = path_key(host, f.path);
    if s.len() > 0 && precedes(kf, path_key(host, s.last().path)) {
        let s0 = s.drop_last();
        let t0 = with_file(host, s0, f);
        let l = s.last();
        assert(s[s.len() - 1] == l);
        assert forall|i: int, j: int| 0 <= i < j < s0.len() implies precedes(
            path_key(host, (#[trigger] s0[i]).path),
            path_key(host, (#[trigger] s0[j]).path),
        ) by {
            assert(s0[i] == s[i] && s0[j] == s[j]);
        }
        assert forall|i: int| 0 <= i < s0.len() implies path_key(host, (#[trigger] s0[i]).path)
            != kf by {
            assert(s0[i] == s[i]);
        }
        with_file_props(host, s0, f);
        assert(t =~= t0.push(l));
        assert forall|x: InputView| #[trigger] t.contains(x) <==> s.contains(x) || x == f by {
            if t.contains(x) {
                let k = choose|k: int| 0 <= k < t.len() && t[k] == x;
                if k < t0.len() {
                    assert(t0[k] == x);
                    assert(t0.contains(x));
                    if s0.contains(x) {
                        let m = choose|m: int| 0 <= m < s0.len() && s0[m] == x;
                        assert(s[m] == x);
                    }
                } else {
                    assert(s[s.len() - 1] == x);
                }
            }
            if s.contains(x) || x == f {
                if s.contains(x) {
                    let m = choose|m: int| 0 <= m < s.len() && s[m] == x;
                    if m < s0.len() {
                        assert(s0[m] == x);
                        assert(s0.contains(x));
                    } else {
                        assert(t[t.len() - 1] == x);
                    }
                }
                if s0.contains(x) || x == f {
                    assert(t0.contains(x));
                    let k = choose|k: int| 0 <= k < t0.len() && t0[k] == x;
                    assert(t[k] == x);
                }
            }
        }
        assert forall|i: int, j: int| 0 <= i < j < t.len() implies precedes(
            path_key(host, (#[trigger] t[i]).path),
            path_key(host, (#[trigger] t[j]).path),
        ) by {
            assert(t[i] == t0[i]);
            if j < t0.len() {
                assert(t[j] == t0[j]);
            } else {
                assert(t0.contains(t0[i]));
                if t0[i] != f {
                    let m = choose|m: int| 0 <= m < s0.len() && s0[m] == t0[i];
                    assert(s[m] == t0[i]);
                }
            }
        }
    } else {
        assert(t =~= s.push(f));
        assert forall|x: InputView| #[trigger] t.contains(x) <==> s.contains(x) || x == f by {
            if t.contains(x) {
                let k = choose|k: int| 0 <= k < t.len() && t[k] == x;
                if k < s.len() {
                    assert(s[k] == x);
                }
            }
            if s.contains(x) {
                let k = choose|k: int| 0 <= k < s.len() && s[k] == x;
                assert(t[k] == x);
            }
            assert(t[s.len() as int] == f);
        }
        assert forall|i: int, j: int| 0 <= i < j < t.len() implies precedes(
            path_key(host, (#[trigger] t[i]).path),
            path_key(host, (#[trigger] t[j]).path),
        ) by {
            assert(t[i] == s[i]);
            if j < s.len() {
                assert(t[j] == s[j]);
            } else {
                let l = s.last();
                assert(s[s.len() - 1] == l);
                precedes_total(path_key(host, l.path), kf);
                if i < s.len() - 1 {
                    precedes_from_transitive(
                        path_key(host, s[i].path),
                        path_key(host, l.path),
                        kf,
                        0,
                    );
                }
            }
        }
    }
}

proof fn sorted_files_props(host: HostOs, files: Seq<InputView>)
    requires
        distinct_paths(host, files),
    ensures
        sorted_strictly(host, sorted_files(host, files)),
        forall|x: InputView| #[trigger] sorted_files(host, files).contains(x) <==> files.contains(x),
    decreases files.len(),
{
    if files.len() > 0 {
        let rest = files.drop_last();
        let f = files.last();
        assert(files[files.len() - 1] == f);
        assert forall|i: int, j: int| 0 <= i < j < rest.len() implies path_key(
            host,
            (#[trigger] rest[i]).path,
        ) != path_key(host, (#[trigger] rest[j]).path) by {
            assert(rest[i] == files[i] && rest[j] == files[j]);
        }
        sorted_files_props(host, rest);
        let s = sorted_files(host, rest);
        assert forall|i: int| 0 <= i < s.len() implies path_key(host, (#[trigger] s[i]).path)
            != path_key(host, f.path) by {
            assert(s.contains(s[i]));
            assert(rest.contains(s[i]));
            let k = choose|k: int| 0 <= k < rest.len() && rest[k] == s[i];
            assert(files[k] == s[i]);
        }
        with_file_props(host, s, f);
        assert forall|x: InputView| #[trigger] sorted_files(host, files).contains(x)
            <==> files.contains(x) by {
            assert(with_file(host, s, f).contains(x) <==> s.contains(x) || x == f);
            assert(s.contains(x) <==> rest.contains(x));
            if rest.contains(x) {
                let k = choose|k: int| 0 <= k < rest.len() && rest[k] == x;
                assert(files[k] == x);
            }
            if files.contains(x) {
                let k = choose|k: int| 0 <= k < files.len() && files[k] == x;
                if k < rest.len() {
                    assert(rest[k] == x);
                }
            }
        }
    }
}

proof fn sorted_strictly_unique(host: HostOs, a: Seq<InputView>, b: Seq<InputView>)
    requires
        sorted_strictly(host, a),
        sorted_strictly(host, b),
        forall|x: InputView| #[trigger] a.contains(x) <==> b.contains(x),
    ensures
        a == b,
    decreases a.len(),
{
    if a.len() == 0 {
        if b.len() > 0 {
            assert(b.contains(b[0]));
            assert(a.contains(b[0]));
        }
        assert(a =~= b);
    } else {
        let x = a.last();
        assert(a[a.len() - 1] == x);
        assert(a.contains(x));
        assert(b.contains(x));
        let y = b.last();
        assert(b[b.len() - 1] == y);
        assert(b.contains(y));
        assert(a.contains(y));
        let i = choose|i: int| 0 <= i < b.len() && b[i] == x;
        let j = choose|j: int| 0 <= j < a.len() && a[j] == y;
        if i != b.len() - 1 && j != a.len() - 1 {
            assert(precedes(path_key(host, b[i].path), path_key(host, b[b.len() - 1].path)));
            assert(precedes(path_key(host, a[j].path), path_key(host, a[a.len() - 1].path)));
            precedes_from_asymmetric(path_key(host, x.path), path_key(host, y.path), 0);
        }
        assert(x == y);
        let c = a.drop_last();
        let d = b.drop_last();
        assert forall|z: InputView| #[trigger] c.contains(z) <==> d.contains(z) by {
            if c.contains(z) {
                let k = choose|k: int| 0 <= k < c.len() && c[k] == z;
                assert(a[k] == z);
                assert(a.contains(z));
                assert(b.contains(z));
                let l = choose|l: int| 0 <= l < b.len() && b[l] == z;
                if l == b.len() - 1 {
                    assert(precedes(path_key(host, a[k].path), path_key(host, a[a.len() - 1].path)));
                    precedes_from_asymmetric(path_key(host, x.path), path_key(host, x.path), 0);
                } else {
                    assert(d[l] == z);
                }
            }
            if d.contains(z) {
                let k = choose|k: int| 0 <= k < d.len() && d[k] == z;
                assert(b[k] == z);
                assert(b.contains(z));
                assert(a.contains(z));
                let l = choose|l: int| 0 <= l < a.len() && a[l] == z;
                if l == a.len() - 1 {
                    assert(precedes(path_key(host, b[k].path), path_key(host, b[b.len() - 1].path)));
                    precedes_from_asymmetric(path_key(host, x.path), path_key(host, x.path), 0);
                } else {
                    assert(c[l] == z);
                }
            }
        }
        assert forall|p: int, q: int| 0 <= p < q < c.len() implies precedes(
            path_key(host, (#[trigger] c[p]).path),
            path_key(host, (#[trigger] c[q]).path),
        ) by {
            assert(c[p] == a[p] && c[q] == a[q]);
        }
        assert forall|p: int, q: int| 0 <= p < q < d.len() implies precedes(
            path_key(host, (#[trigger] d[p]).path),
            path_key(host, (#[trigger] d[q]).path),
        ) by {
            assert(d[p] == b[p] && d[q] == b[q]);
        }
        sorted_strictly_unique(host, c, d);
        assert(a =~= c.push(x));
        assert(b =~= d.push(y));
    }
}

/// The order in which a file system lists the sources does not matter: two
/// listings of the same files give the same fingerprint.
pub proof fn listing_order_does_not_matter(
    host: HostOs,
    a: Seq<InputView>,
    b: Seq<InputView>,
    extras: Seq<InputView>,
    toolchain: ToolchainView,
)
    requires
        distinct_paths(host, a),
        distinct_paths(host, b),
        forall|x: InputView| #[trigger] a.contains(x) <==> b.contains(x),
    ensures
        fingerprint_input(host, a, extras, toolchain) == fingerprint_input(
            host,
            b,
            extras,
            toolchain,
        ),
{
    sorted_files_props(host, a);
    sorted_files_props(host, b);
    assert forall|x: InputView| #[trigger] sorted_files(host, a).contains(x) <==> sorted_files(
        host,
        b,
    ).contains(x) by {
        assert(sorted_files(host, a).contains(x) <==> a.contains(x));
        assert(sorted_files(host, b).contains(x) <==> b.contains(x));
    }
    sorted_strictly_unique(host, sorted_files(host, a), sorted_files(host, b));
}

proof fn sorting_keeps_the_number(host: HostOs, files: Seq<InputView>)
    ensures
        sorted_files(host, files).len() == files.len(),
    decreases files.len(),
{
    if files.len() > 0 {
        sorting_keeps_the_number(host, files.drop_last());
        one_more_file(host, sorted_files(host, files.drop_last()), files.last());
    }
}

proof fn one_more_file(host: HostOs, s: Seq<InputView>, f: InputView)
    ensures
        with_file(host, s, f).len() == s.len() + 1,
    decreases s.len(),
{
    if s.len() > 0 && precedes(path_key(host, f.path), path_key(host, s.last().path)) {
        one_more_file(host, s.drop_last(), f);
    }
}

/// Neither the order in which the sources are listed nor the order or repetition of
/// features matters: the fingerprints of the same files with toolchains that differ
/// only in that agree in their hashes, their toolchains and their numbers of files,
/// and their features are the named ones, sorted, each once.
pub proof fn order_does_not_matter(
    host: HostOs,
    a: Seq<InputView>,
    b: Seq<InputView>,
    extras: Seq<InputView>,
    s: ToolchainView,
    t: ToolchainView,
    x: FingerprintView,
    y: FingerprintView,
)
    requires
        distinct_paths(host, a),
        distinct_paths(host, b),
        forall|f: InputView| #[trigger] a.contains(f) <==> b.contains(f),
        s == (ToolchainView { features: s.features, ..t }),
        forall|f: Seq<char>| #[trigger] s.features.contains(f) <==> t.features.contains(f),
        is_fingerprint_of(x, host, a, extras, s),
        is_fingerprint_of(y, host, b, extras, t),
    ensures
        x.hash == y.hash,
        x.toolchain == y.toolchain,
        x.file_count == y.file_count,
        strictly_in_order(x.toolchain.features),
        forall|f: Seq<char>| #[trigger]
            x.toolchain.features.contains(f) <==> s.features.contains(f),
{
    normal_form_unique(s, t, x.toolchain, y.toolchain);
    listing_order_does_not_matter(host, a, b, extras, x.toolchain);
    sorted_files_props(host, a);
    sorted_files_props(host, b);
    assert forall|f: InputView| #[trigger] sorted_files(host, a).contains(f) <==> sorted_files(
        host,
        b,
    ).contains(f) by {
        assert(sorted_files(host, a).contains(f) <==> a.contains(f));
        assert(sorted_files(host, b).contains(f) <==> b.contains(f));
    }
    sorted_strictly_unique(host, sorted_files(host, a), sorted_files(host, b));
    sorting_keeps_the_number(host, a);
    sorting_keeps_the_number(host, b);
}

/// Whether two lists of files differ in one file alone, in its path or in its
/// contents.
pub open spec fn one_file_changed(a: Seq<InputView>, b: Seq<InputView>, k: int) -> bool {
    &&& a.len() == b.len()
    &&& 0 <= k < a.len()
    &&& forall|i: int| 0 <= i < a.len() && i != k ==> #[trigger] a[i] == b[i]
    &&& (a[k].path == b[k].path) != (a[k].bytes == b[k].bytes)
}

proof fn changed_bytes_differ(a: Seq<InputView>, b: Seq<InputView>, k: int)
    requires
        one_file_changed(a, b, k),
    ensures
        file_bytes(a) != file_bytes(b),
    decreases a.len(),
{
    let x = file_bytes(a.drop_last());
    let y = file_bytes(b.drop_last());
    let f = a.last();
    let g = b.last();
    assert(a[a.len() - 1] == f && b[b.len() - 1] == g);
    let p = encode_utf8(f.path);
    let q = encode_utf8(g.path);
    if k == a.len() - 1 {
        assert(a.drop_last() =~= b.drop_last());
        if file_bytes(a) == file_bytes(b) {
            if f.path == g.path {
                assert(file_bytes(a).skip((x.len() + p.len()) as int) =~= f.bytes);
                assert(file_bytes(b).skip((x.len() + p.len()) as int) =~= g.bytes);
            } else {
                assert(file_bytes(a).len() == x.len() + p.len() + f.bytes.len());
                assert(file_bytes(b).len() == x.len() + q.len() + g.bytes.len());
                assert(file_bytes(a).subrange(x.len() as int, (x.len() + p.len()) as int) =~= p);
                assert(file_bytes(b).subrange(x.len() as int, (x.len() + p.len()) as int) =~= q);
                encode_utf8_decode_utf8(f.path);
                encode_utf8_decode_utf8(g.path);
            }
        }
    } else {
        let c = a.drop_last();
        let d = b.drop_last();
        assert(f == g);
        assert forall|i: int| 0 <= i < c.len() && i != k implies #[trigger] c[i] == d[i] by {
            assert(c[i] == a[i] && d[i] == b[i]);
        }
        changed_bytes_differ(c, d, k);
        if file_bytes(a) == file_bytes(b) {
            assert(file_bytes(a).len() == x.len() + p.len() + f.bytes.len());
            assert(file_bytes(b).len() == y.len() + q.len() + g.bytes.len());
            assert(file_bytes(a).take(x.len() as int) =~= x);
            assert(file_bytes(b).take(y.len() as int) =~= y);
        }
    }
}

proof fn sorting_keeps_the_size(host: HostOs, files: Seq<InputView>)
    ensures
        file_bytes(sorted_files(host, files)).len() == file_bytes(files).len(),
    decreases files.len(),
{
    if files.len() > 0 {
        sorting_keeps_the_size(host, files.drop_last());
        size_with_file(host, sorted_files(host, files.drop_last()), files.last());
    }
}

/// How many bytes a file contributes to a fingerprint.
pub open spec fn input_size(f: InputView) -> nat {
    encode_utf8(f.path).len() + f.bytes.len()
}

proof fn size_with_file(host: HostOs, s: Seq<InputView>, f: InputView)
    ensures
        file_bytes(with_file(host, s, f)).len() == file_bytes(s).len() + input_size(f),
    decreases s.len(),
{
    let t = with_file(host, s, f);
    if s.len() > 0 && precedes(path_key(host, f.path), path_key(host, s.last().path)) {
        size_with_file(host, s.drop_last(), f);
        assert(t.drop_last() =~= with_file(host, s.drop_last(), f));
    } else {
        assert(t.drop_last() =~= s);
    }
}

proof fn size_with_inserted(s: Seq<InputView>, k: int, f: InputView)
    requires
        0 <= k <= s.len(),
    ensures
        file_bytes(s.insert(k, f)).len() == file_bytes(s).len() + input_size(f),
    decreases s.len(),
{
    let t = s.insert(k, f);
    if k == s.len() {
        assert(t.drop_last() =~= s);
    } else {
        size_with_inserted(s.drop_last(), k, f);
        assert(t.drop_last() =~= s.drop_last().insert(k, f));
        assert(t.last() == s.last());
    }
}

/// Adding a source, wherever it is listed, changes what is digested; so does
/// removing one, which is the same read backwards.
pub proof fn added_source_is_noticed(
    host: HostOs,
    sources: Seq<InputView>,
    k: int,
    f: InputView,
    extras: Seq<InputView>,
    toolchain: ToolchainView,
)
    requires
        0 <= k <= sources.len(),
        f.path.len() > 0,
    ensures
        fingerprint_input(host, sources.insert(k, f), extras, toolchain) != fingerprint_input(
            host,
            sources,
            extras,
            toolchain,
        ),
{
    sorting_keeps_the_size(host, sources);
    sorting_keeps_the_size(host, sources.insert(k, f));
    size_with_inserted(sources, k, f);
    encode_utf8_decode_utf8(f.path);
    assert(encode_utf8(f.path).len() > 0);
    let rest = file_bytes(extras).len() + toolchain_bytes(toolchain).len();
    assert(fingerprint_input(host, sources, extras, toolchain).len() == file_bytes(sources).len()
        + rest);
    assert(fingerprint_input(host, sources.insert(k, f), extras, toolchain).len() == file_bytes(
        sources,
    ).len() + input_size(f) + rest);
}

/// Adding or removing one of the project files changes what is digested too.
pub proof fn added_project_file_is_noticed(
    host: HostOs,
    sources: Seq<InputView>,
    extras: Seq<InputView>,
    k: int,
    f: InputView,
    toolchain: ToolchainView,
)
    requires
        0 <= k <= extras.len(),
        f.path.len() > 0,
    ensures
        fingerprint_input(host, sources, extras.insert(k, f), toolchain) != fingerprint_input(
            host,
            sources,
            extras,
            toolchain,
        ),
{
    size_with_inserted(extras, k, f);
    encode_utf8_decode_utf8(f.path);
    assert(encode_utf8(f.path).len() > 0);
    let x = file_bytes(sorted_files(host, sources)).len();
    let y = toolchain_bytes(toolchain).len();
    assert(fingerprint_input(host, sources, extras, toolchain).len() == x + file_bytes(extras).len()
        + y);
    assert(fingerprint_input(host, sources, extras.insert(k, f), toolchain).len() == x
        + file_bytes(extras).len() + input_size(f) + y);
}

/// Changing the contents of one of the project files, or its path, changes what is
/// digested.
pub proof fn changed_project_file_is_noticed(
    host: HostOs,
    sources: Seq<InputView>,
    a: Seq<InputView>,
    b: Seq<InputView>,
    toolchain: ToolchainView,
    k: int,
)
    requires
        one_file_changed(a, b, k),
    ensures
        fingerprint_input(host, sources, a, toolchain) != fingerprint_input(
            host,
            sources,
            b,
            toolchain,
        ),
{
    changed_bytes_differ(a, b, k);
    let x = file_bytes(sorted_files(host, sources));
    let m = fingerprint_input(host, sources, a, toolchain);
    let n = fingerprint_input(host, sources, b, toolchain);
    if m == n {
        let y = toolchain_bytes(toolchain).len();
        let p = file_bytes(a);
        let q = file_bytes(b);
        assert(m.len() == x.len() + p.len() + y);
        assert(n.len() == x.len() + q.len() + y);
        assert(m.subrange(x.len() as int, (x.len() + p.len()) as int) =~= p);
        assert(n.subrange(x.len() as int, (x.len() + q.len()) as int) =~= q);
    }
}

/// Renaming one source, or changing its contents, changes what is digested, as long
/// as its place among the sorted sources stays the same.
pub proof fn changed_source_is_noticed(
    host: HostOs,
    a: Seq<InputView>,
    b: Seq<InputView>,
    extras: Seq<InputView>,
    toolchain: ToolchainView,
    k: int,
)
    requires
        one_file_changed(sorted_files(host, a), sorted_files(host, b), k),
    ensures
        fingerprint_input(host, a, extras, toolchain) != fingerprint_input(
            host,
            b,
            extras,
            toolchain,
        ),
{
    let x = file_bytes(sorted_files(host, a));
    let y = file_bytes(sorted_files(host, b));
    changed_bytes_differ(sorted_files(host, a), sorted_files(host, b), k);
    let m = fingerprint_input(host, a, extras, toolchain);
    let n = fingerprint_input(host, b, extras, toolchain);
    if m == n {
        let rest = file_bytes(extras).len() + toolchain_bytes(toolchain).len();
        assert(m.len() == x.len() + rest);
        assert(n.len() == y.len() + rest);
        assert(m.take(x.len() as int) =~= x);
        assert(n.take(y.len() as int) =~= y);
    }
}

/// Whether two lists of files differ in the contents of the file at `k` alone.
pub open spec fn contents_changed(a: Seq<InputView>, b: Seq<InputView>, k: int) -> bool {
    one_file_changed(a, b, k) && a[k].path == b[k].path
}

/// One more file has its place by the paths alone: lists that differ in the contents
/// of one file still do.
proof fn with_file_beside(host: HostOs, s: Seq<InputView>, t: Seq<InputView>, f: InputView, k: int) -> (
    r: int)
    requires
        contents_changed(s, t, k),
    ensures
        contents_changed(with_file(host, s, f), with_file(host, t, f), r),
    decreases s.len(),
{
    let x = with_file(host, s, f);
    let y = with_file(host, t, f);
    let l = s.len() - 1;
    assert(s.last().path == t.last().path) by {
        if k != l {
            assert(s[l] == t[l]);
        }
    }
    if precedes(path_key(host, f.path), path_key(host, s.last().path)) {
        let s0 = s.drop_last();
        let t0 = t.drop_last();
        assert forall|i: int| 0 <= i < s0.len() && i != k implies #[trigger] s0[i] == t0[i] by {
            assert(s0[i] == s[i] && t0[i] == t[i]);
        }
        if k == l {
            assert(s0 =~= t0);
            let n = with_file(host, s0, f).len() as int;
            assert forall|i: int| 0 <= i < x.len() && i != n implies #[trigger] x[i] == y[i] by {}
            n
        } else {
            let r = with_file_beside(host, s0, t0, f, k);
            assert(s[l] == t[l]);
            let u = with_file(host, s0, f);
            let v = with_file(host, t0, f);
            assert forall|i: int| 0 <= i < x.len() && i != r implies #[trigger] x[i] == y[i] by {
                if i < u.len() {
                    assert(u[i] == v[i]);
                }
            }
            r
        }
    } else {
        assert forall|i: int| 0 <= i < x.len() && i != k implies #[trigger] x[i] == y[i] by {
            if i < s.len() {
                assert(s[i] == t[i]);
            }
        }
        k
    }
}

/// Two files with the same path have the same place.
proof fn with_either_file(host: HostOs, s: Seq<InputView>, f: InputView, g: InputView) -> (r: int)
    requires
        f.path == g.path,
        f.bytes != g.bytes,
    ensures
        contents_changed(with_file(host, s, f), with_file(host, s, g), r),
    decreases s.len(),
{
    if s.len() > 0 && precedes(path_key(host, f.path), path_key(host, s.last().path)) {
        let r = with_either_file(host, s.drop_last(), f, g);
        let u = with_file(host, s.drop_last(), f);
        let v = with_file(host, s.drop_last(), g);
        let x = with_file(host, s, f);
        let y = with_file(host, s, g);
        assert forall|i: int| 0 <= i < x.len() && i != r implies #[trigger] x[i] == y[i] by {
            if i < u.len() {
                assert(u[i] == v[i]);
            }
        }
        r
    } else {
        s.len() as int
    }
}

proof fn sorted_beside(host: HostOs, a: Seq<InputView>, b: Seq<InputView>, k: int) -> (r: int)
    requires
        contents_changed(a, b, k),
    ensures
        contents_changed(sorted_files(host, a), sorted_files(host, b), r),
    decreases a.len(),
{
    let c = a.drop_last();
    let d = b.drop_last();
    if k == a.len() - 1 {
        assert(c =~= d);
        with_either_file(host, sorted_files(host, c), a.last(), b.last())
    } else {
        assert(a[a.len() - 1] == b[b.len() - 1]);
        assert forall|i: int| 0 <= i < c.len() && i != k implies #[trigger] c[i] == d[i] by {
            assert(c[i] == a[i] && d[i] == b[i]);
        }
        let m = sorted_beside(host, c, d, k);
        with_file_beside(host, sorted_files(host, c), sorted_files(host, d), a.last(), m)
    }
}

/// Changing the contents of one source changes what is digested.
pub proof fn changed_contents_are_noticed(
    host: HostOs,
    a: Seq<InputView>,
    b: Seq<InputView>,
    extras: Seq<InputView>,
    toolchain: ToolchainView,
    k: int,
)
    requires
        contents_changed(a, b, k),
    ensures
        fingerprint_input(host, a, extras, toolchain) != fingerprint_input(
            host,
            b,
            extras,
            toolchain,
        ),
{
    let r = sorted_beside(host, a, b, k);
    changed_source_is_noticed(host, a, b, extras, toolchain, r);
}

// ---------------------------------------------------------------------------
// The record of past builds

/// What the last build for a target produced, and from what.
#[derive(Debug)]
pub struct CachedArtifact {
    pub fingerprint: BuildFingerprint,
    pub artifact_path: String,
    /// SHA-256 of the artifact when it was recorded.
    pub artifact_sha256: String,
}

/// The texts of a cached artifact.
pub struct CachedView {
    pub fingerprint: FingerprintView,
    pub artifact_path: Seq<char>,
    pub artifact_sha256: Seq<char>,
}

impl View for CachedArtifact {
    type V = CachedView;

    open spec fn view(&self) -> CachedView {
        CachedView {
            fingerprint: self.fingerprint@,
            artifact_path: self.artifact_path@,
            artifact_sha256: self.artifact_sha256@,
        }
    }
}

/// The artifacts of past builds, by Rust target.
#[derive(Debug)]
pub struct IncrementalRecord {
    pub artifacts: OrdMap<CachedArtifact>,
}

impl View for IncrementalRecord {
    type V = Seq<(Seq<char>, CachedView)>;

    open spec fn view(&self) -> Seq<(Seq<char>, CachedView)> {
        map_items(self.artifacts@, |a: CachedArtifact| a@)
    }
}

/// Why an artifact cannot be reused.
#[derive(Debug, Clone, Copy, PartialEq, Eq, Structural)]
pub enum MissReason {
    NoPriorBuild,
    SourceChanged,
    ToolchainChanged,
    /// The recorded artifact is gone.
    ArtifactMissing,
    /// The recorded artifact is not what was recorded.
    ArtifactModifiedExternally,
}

impl MissReason {
    /// The reason in words.
    pub open spec fn text(self) -> Seq<char> {
        match self {
            MissReason::NoPriorBuild => "no cached build found for this target"@,
            MissReason::SourceChanged => "source files changed since the last build"@,
            MissReason::ToolchainChanged => "NDK/build-tools version or build profile changed"@,
            MissReason::ArtifactMissing =>
                "the previously cached artifact no longer exists on disk"@,
            MissReason::ArtifactModifiedExternally =>
                "the cached artifact's contents changed outside of rusk build"@,
        }
    }

    /// The reason in words.
    pub fn describe(&self) -> (r: &'static str)
        ensures
            r@ == self.text(),
    {
        match self {
            MissReason::NoPriorBuild => "no cached build found for this target",
            MissReason::SourceChanged => "source files changed since the last build",
            MissReason::ToolchainChanged => "NDK/build-tools version or build profile changed",
            MissReason::ArtifactMissing =>
                "the previously cached artifact no longer exists on disk",
            MissReason::ArtifactModifiedExternally =>
                "the cached artifact's contents changed outside of rusk build",
        }
    }
}

/// Whether a target has to be compiled.
#[derive(Debug)]
pub enum CacheDecision {
    /// The artifact at this path can be reused.
    Hit(String),
    Miss(MissReason),
}

/// The texts of a decision.
pub enum DecisionView {
    Hit(Seq<char>),
    Miss(MissReason),
}

impl View for CacheDecision {
    type V = DecisionView;

    open spec fn view(&self) -> DecisionView {
        match *self {
            CacheDecision::Hit(path) => DecisionView::Hit(path@),
            CacheDecision::Miss(reason) => DecisionView::Miss(reason),
        }
    }
}

/// What was found where the record says that an artifact is.
#[derive(Debug)]
pub enum ArtifactFile {
    Missing,
    Unreadable,
    Contents(Vec<u8>),
}

/// The digest of what was found there.
#[derive(Debug)]
pub enum ArtifactDigest {
    Missing,
    Unreadable,
    Sha256(String),
}

/// The text of a digest.
pub enum DigestView {
    Missing,
    Unreadable,
    Sha256(Seq<char>),
}

impl View for ArtifactDigest {
    type V = DigestView;

    open spec fn view(&self) -> DigestView {
        match *self {
            ArtifactDigest::Missing => DigestView::Missing,
            ArtifactDigest::Unreadable => DigestView::Unreadable,
            ArtifactDigest::Sha256(d) => DigestView::Sha256(d@),
        }
    }
}

/// The digest of what was found.
pub open spec fn digest_of(file: ArtifactFile) -> DigestView {
    match file {
        ArtifactFile::Missing => DigestView::Missing,
        ArtifactFile::Unreadable => DigestView::Unreadable,
        ArtifactFile::Contents(bytes) => DigestView::Sha256(sha256_hex(bytes@)),
    }
}

/// Whether a target has to be compiled: an artifact is reused only if the
/// toolchain and the digest of the sources are those of the recorded build,
/// and the artifact is still what was recorded.
pub open spec fn decision(
    record: Seq<(Seq<char>, CachedView)>,
    triple: Seq<char>,
    fingerprint: FingerprintView,
    found: DigestView,
) -> DecisionView {
    match lookup(record, triple) {
        None => DecisionView::Miss(MissReason::NoPriorBuild),
        Some(cached) => if cached.fingerprint.toolchain != fingerprint.toolchain {
            DecisionView::Miss(MissReason::ToolchainChanged)
        } else if cached.fingerprint.hash != fingerprint.hash {
            DecisionView::Miss(MissReason::SourceChanged)
        } else {
            match found {
                DigestView::Missing => DecisionView::Miss(MissReason::ArtifactMissing),
                DigestView::Unreadable => DecisionView::Miss(
                    MissReason::ArtifactModifiedExternally,
                ),
                DigestView::Sha256(digest) => if digest == cached.artifact_sha256 {
                    DecisionView::Hit(cached.artifact_path)
                } else {
                    DecisionView::Miss(MissReason::ArtifactModifiedExternally)
                },
            }
        },
    }
}

impl Default for IncrementalRecord {
    fn default() -> (r: Self)
        ensures
            r@.len() == 0,
            in_key_order(r@),
    {
        IncrementalRecord { artifacts: OrdMap::new() }
    }
}

impl IncrementalRecord {
    proof fn lookup_cached(&self, triple: Seq<char>)
        ensures
            lookup(self@, triple) == (match lookup(self.artifacts@, triple) {
                Some(a) => Some(a@),
                None => None,
            }),
    {
        let f = |a: CachedArtifact| a@;
        let s = self.artifacts@;
        let t = map_items(s, f);
        assert forall|j: int| 0 <= j < s.len() implies #[trigger] s[j].0 == t[j].0 by {}
        slot_from_by_keys(s, t, triple, 0);
        slot_from_props(s, triple, 0);
    }

    /// Where the artifact recorded for a target is, if any is.
    pub fn artifact_path(&self, triple: &str) -> (r: Option<String>)
        ensures
            match r {
                Some(p) => lookup(self@, triple@) matches Some(c) && c.artifact_path == p@,
                None => lookup(self@, triple@) is None,
            },
    {
        proof {
            self.lookup_cached(triple@);
        }
        match self.artifacts.get(triple) {
            Some(cached) => Some(cached.artifact_path.clone()),
            None => None,
        }
    }

    /// Whether a target has to be compiled, given the digest of what was found
    /// at [`IncrementalRecord::artifact_path`].
    pub fn check_digest(
        &self,
        triple: &str,
        fingerprint: &BuildFingerprint,
        found: &ArtifactDigest,
    ) -> (r: CacheDecision)
        ensures
            r@ == decision(self@, triple@, fingerprint@, found@),
    {
        proof {
            self.lookup_cached(triple@);
        }
        let cached = match self.artifacts.get(triple) {
            Some(c) => c,
            None => {
                return CacheDecision::Miss(MissReason::NoPriorBuild);
            },
        };
        if !cached.fingerprint.toolchain.same_as(&fingerprint.toolchain) {
            return CacheDecision::Miss(MissReason::ToolchainChanged);
        }
        if cached.fingerprint.hash != fingerprint.hash {
            return CacheDecision::Miss(MissReason::SourceChanged);
        }
        match found {
            ArtifactDigest::Missing => CacheDecision::Miss(MissReason::ArtifactMissing),
            ArtifactDigest::Unreadable => CacheDecision::Miss(
                MissReason::ArtifactModifiedExternally,
            ),
            ArtifactDigest::Sha256(digest) => if *digest == cached.artifact_sha256 {
                CacheDecision::Hit(cached.artifact_path.clone())
            } else {
                CacheDecision::Miss(MissReason::ArtifactModifiedExternally)
            },
        }
    }

    /// Whether a target has to be compiled, given what was found at
    /// [`IncrementalRecord::artifact_path`].
    pub fn check(&self, triple: &str, fingerprint: &BuildFingerprint, found: &ArtifactFile) -> (r:
        CacheDecision)
        ensures
            r@ == decision(self@, triple@, fingerprint@, digest_of(*found)),
    {
        let digest = match found {
            ArtifactFile::Missing => ArtifactDigest::Missing,
            ArtifactFile::Unreadable => ArtifactDigest::Unreadable,
            ArtifactFile::Contents(bytes) => ArtifactDigest::Sha256(
                sha256_digest(bytes.as_slice()),
            ),
        };
        self.check_digest(triple, fingerprint, &digest)
    }

    /// Records a fresh artifact by its digest, in place of an earlier one.
    pub fn record_digest(
        &mut self,
        triple: &str,
        fingerprint: BuildFingerprint,
        artifact_path: String,
        artifact_sha256: String,
    )
        ensures
            final(self)@ == with_entry(
                old(self)@,
                triple@,
                CachedView {
                    fingerprint: fingerprint@,
                    artifact_path: artifact_path@,
                    artifact_sha256: artifact_sha256@,
                },
            ),
            in_key_order(final(self)@),
    {
        let cached = CachedArtifact { fingerprint, artifact_path, artifact_sha256 };
        proof {
            with_entry_map(self.artifacts@, triple@, cached, |a: CachedArtifact| a@);
        }
        self.artifacts.insert(triple.to_owned(), cached);
        proof {
            map_items_keeps_order(self.artifacts@, |a: CachedArtifact| a@);
        }
    }

    /// Records a fresh artifact with its contents, in place of an earlier one.
    pub fn record(
        &mut self,
        triple: &str,
        fingerprint: BuildFingerprint,
        artifact_path: String,
        contents: &[u8],
    )
        ensures
            final(self)@ == with_entry(
                old(self)@,
                triple@,
                CachedView {
                    fingerprint: fingerprint@,
                    artifact_path: artifact_path@,
                    artifact_sha256: sha256_hex(contents@),
                },
            ),
            in_key_order(final(self)@),
    {
        let digest = sha256_digest(contents);
        self.record_digest(triple, fingerprint, artifact_path, digest);
    }

    /// Drops every entry.
    pub fn clear(&mut self)
        ensures
            final(self)@.len() == 0,
            in_key_order(final(self)@),
    {
        self.artifacts = OrdMap::new();
    }
}

/// What was just recorded is found again: with the same fingerprint and
/// unchanged contents its target need not be compiled.
pub proof fn recorded_artifact_is_reused(
    record: Seq<(Seq<char>, CachedView)>,
    triple: Seq<char>,
    cached: CachedView,
)
    requires
        in_key_order(record),
    ensures
        decision(
            with_entry(record, triple, cached),
            triple,
            cached.fingerprint,
            DigestView::Sha256(cached.artifact_sha256),
        ) == DecisionView::Hit(cached.artifact_path),
{
    lookup_after_with_entry(record, triple, cached, triple);
}

/// Recording an artifact changes nothing for other targets.
pub proof fn other_targets_are_unaffected(
    record: Seq<(Seq<char>, CachedView)>,
    triple: Seq<char>,
    cached: CachedView,
    other: Seq<char>,
    fingerprint: FingerprintView,
    found: DigestView,
)
    requires
        in_key_order(record),
        other != triple,
    ensures
        decision(with_entry(record, triple, cached), other, fingerprint, found) == decision(
            record,
            other,
            fingerprint,
            found,
        ),
{
    lookup_after_with_entry(record, triple, cached, other);
}

/// An artifact is reused only for the very toolchain that it was built with,
/// the same digest of the sources, and unchanged contents.
pub proof fn hit_means_unchanged(
    record: Seq<(Seq<char>, CachedView)>,
    triple: Seq<char>,
    fingerprint: FingerprintView,
    found: DigestView,
)
    ensures
        decision(record, triple, fingerprint, found) is Hit ==> {
            &&& lookup(record, triple) matches Some(cached)
                && cached.fingerprint.toolchain == fingerprint.toolchain
                && cached.fingerprint.hash == fingerprint.hash
                && found == DigestView::Sha256(cached.artifact_sha256)
                && decision(record, triple, fingerprint, found) == DecisionView::Hit(
                cached.artifact_path,
            )
        },
{
}

/// After clearing, every target has to be compiled.
pub proof fn cleared_record_never_hits(
    record: Seq<(Seq<char>, CachedView)>,
    triple: Seq<char>,
    fingerprint: FingerprintView,
    found: DigestView,
)
    requires
        record.len() == 0,
    ensures
        decision(record, triple, fingerprint, found) == DecisionView::Miss(
            MissReason::NoPriorBuild,
        ),
{
}

// ---------------------------------------------------------------------------
// Where it is kept, and how it is shown

/// Where the record of a project is.
pub open spec fn record_file(host: HostOs, project_root: Seq<char>) -> Seq<char> {
    joined_path(host, joined_path(host, project_root, "target"@), "rusk-incremental.toml"@)
}

/// Where a project keeps its record.
pub fn record_path(host: HostOs, project_root: &str) -> (r: String)
    ensures
        r@ == record_file(host, project_root@),
{
    join_path(host, &join_path(host, project_root, "target"), "rusk-incremental.toml")
}

/// The lines of the summary for the first `n` targets.
pub open spec fn summary_lines(record: Seq<(Seq<char>, CachedView)>, n: nat) -> Seq<char>
    decreases n,
{
    if n == 0 || n > record.len() {
        seq![]
    } else {
        let (triple, cached) = record[n - 1];
        summary_lines(record, (n - 1) as nat) + "\n  "@ + triple + ": "@ + cached.artifact_path
            + " ("@ + (if cached.fingerprint.toolchain.release {
            "release"@
        } else {
            "debug"@
        }) + ")"@
    }
}

/// What is shown of a record.
pub open spec fn summary(record: Seq<(Seq<char>, CachedView)>) -> Seq<char> {
    if record.len() == 0 {
        "no cached builds yet"@
    } else {
        decimal(record.len()) + " cached target(s):"@ + summary_lines(record, record.len())
    }
}

/// What is shown of a record.
pub fn format_summary(record: &IncrementalRecord) -> (r: String)
    ensures
        r@ == summary(record@),
{
    let entries = &record.artifacts.entries;
    let ghost all = record@;
    assert(all.len() == entries@.len());
    if entries.len() == 0 {
        return "no cached builds yet".to_owned();
    }
    let mut lines = String::new();
    for i in 0..entries.len()
        invariant
            all == record@,
            entries@ == record.artifacts.entries@,
            lines@ == summary_lines(all, i as nat),
    {
        assert(all[i as int] == (entries@[i as int].0@, entries@[i as int].1@));
        lines.append("\n  ");
        lines.append(&entries[i].0);
        lines.append(": ");
        lines.append(&entries[i].1.artifact_path);
        lines.append(" (");
        lines.append(
            if entries[i].1.fingerprint.toolchain.release {
                "release"
            } else {
                "debug"
            },
        );
        lines.append(")");
    }
    let mut out = decimal_text(entries.len() as u64);
    out.append(" cached target(s):");
    out.append(&lines);
    out
}

/// How a recorded target is shown.
spec fn shown_target(r: (Seq<char>, CachedView)) -> Seq<char> {
    r.0 + ": "@ + r.1.artifact_path + (if r.1.fingerprint.toolchain.release {
        " (release)"@
    } else {
        " (debug)"@
    })
}

/// The summary shows every target with its artifact and the profile that it was built
/// in, behind how many there are.
pub proof fn summary_shows_every_target(record: Seq<(Seq<char>, CachedView)>, i: int)
    requires
        0 <= i < record.len(),
    ensures
        decimal(record.len()).is_prefix_of(summary(record)),
        contains_text(
            summary(record),
            record[i].0 + ": "@ + record[i].1.artifact_path + (
            if record[i].1.fingerprint.toolchain.release {
                " (release)"@
            } else {
                " (debug)"@
            }),
        ),
{
    let n = record.len();
    let text = shown_target(record[i]);
    let lines = summary_lines(record, n);
    lines_show_target(record, n, i);
    summary_parts(decimal(n), " cached target(s):"@, lines, text);
}

proof fn summary_parts(a: Seq<char>, b: Seq<char>, lines: Seq<char>, text: Seq<char>)
    requires
        contains_text(lines, text),
    ensures
        contains_text(a + b + lines, text),
        a.is_prefix_of(a + b + lines),
{
    contains_in_part(a + b, lines, seq![], text);
    assert(a + b + lines + seq![] =~= a + b + lines);
    assert((a + b + lines).subrange(0, a.len() as int) =~= a);
}

proof fn modes_in_brackets()
    ensures
        " (release)"@ == " ("@ + "release"@ + ")"@,
        " (debug)"@ == " ("@ + "debug"@ + ")"@,
{
    reveal_strlit(" (");
    reveal_strlit(")");
    reveal_strlit(" (release)");
    reveal_strlit("release");
    assert(" (release)"@ =~= " ("@ + "release"@ + ")"@);
    reveal_strlit(" (debug)");
    reveal_strlit("debug");
    assert(" (debug)"@ =~= " ("@ + "debug"@ + ")"@);
}

proof fn lines_show_target(record: Seq<(Seq<char>, CachedView)>, n: nat, i: int)
    requires
        0 <= i < n <= record.len(),
    ensures
        contains_text(summary_lines(record, n), shown_target(record[i])),
    decreases n,
{
    let (triple, cached) = record[n - 1];
    let before = summary_lines(record, (n - 1) as nat);
    let all = summary_lines(record, n);
    let mode = if cached.fingerprint.toolchain.release {
        "release"@
    } else {
        "debug"@
    };
    modes_in_brackets();
    let m = " ("@ + mode + ")"@;
    let x = triple + ": "@ + cached.artifact_path;
    let p = before + "\n  "@;
    assert(shown_target(record[n - 1]) == x + m);
    behind_three(p, triple, ": "@, cached.artifact_path);
    behind_three(p, x, m, m);
    behind_three(p + x, " ("@, mode, ")"@);
    assert(all == p + (x + m));
    if i < n - 1 {
        lines_show_target(record, (n - 1) as nat, i);
        let rest = "\n  "@ + (x + m);
        contains_in_part(seq![], before, rest, shown_target(record[i]));
        behind_three(before, "\n  "@, x + m, m);
        assert(seq![] + before =~= before);
        assert(seq![] + before + rest == all);
    } else {
        contains_in_middle(p, x + m, seq![]);
        assert(p + (x + m) + seq![] =~= p + (x + m));
    }
}

/// The profile is part of what is fingerprinted: a debug and a release build never share
/// their input, and neither do builds of which one has a feature more.
pub proof fn profile_is_fingerprinted(t: ToolchainView, feature: Seq<char>)
    ensures
        toolchain_bytes(ToolchainView { release: true, ..t }) != toolchain_bytes(
            ToolchainView { release: false, ..t },
        ),
        feature.len() > 0 ==> toolchain_bytes(
            ToolchainView { features: t.features.push(feature), ..t },
        ) != toolchain_bytes(t),
{
    let a = toolchain_bytes(ToolchainView { release: true, ..t });
    let b = toolchain_bytes(ToolchainView { release: false, ..t });
    let n = (encode_utf8(t.ndk_version) + encode_utf8(t.build_tools_version) + encode_utf8(
        t.rust_triple,
    )).len() as int;
    assert(a[n] == 1 && b[n] == 0);
    if feature.len() > 0 {
        assert(t.features.push(feature).drop_last() =~= t.features);
        assert(text_bytes(t.features.push(feature)) == text_bytes(t.features) + encode_utf8(
            feature,
        ));
        assert(encode_utf8(feature).len() > 0);
        let c = toolchain_bytes(ToolchainView { features: t.features.push(feature), ..t });
        assert(c.len() == toolchain_bytes(t).len() + encode_utf8(feature).len());
    }
}

/// The files that a library depends on beside its sources lie in the project's root: the
/// manifests of cargo and of the project, and the build script. The record lies in its
/// `target`.
#[verifier::rlimit(40)]
pub proof fn project_files_lie_in_root(host: HostOs, project_root: Seq<char>)
    requires
        steady(host, project_root),
    ensures
        project_files(host, project_root).map_values(|p: Seq<char>| components(host, p)) == seq![
            "Cargo.toml"@,
            "Rusk.toml"@,
            "build.rs"@,
        ].map_values(|n: Seq<char>| components(host, project_root).push(n)),
        components(host, record_file(host, project_root)) == components(host, project_root)
            + seq!["target"@, "rusk-incremental.toml"@],
{
    assert(one_name("Cargo.toml"@)) by {
        reveal_strlit("Cargo.toml");
        long_name_is_one_name("Cargo.toml"@);
    }
    assert(one_name("Rusk.toml"@)) by {
        reveal_strlit("Rusk.toml");
        long_name_is_one_name("Rusk.toml"@);
    }
    assert(one_name("build.rs"@)) by {
        reveal_strlit("build.rs");
        long_name_is_one_name("build.rs"@);
    }
    assert(one_name("target"@)) by {
        reveal_strlit("target");
        long_name_is_one_name("target"@);
    }
    assert(one_name("rusk-incremental.toml"@)) by {
        reveal_strlit("rusk-incremental.toml");
        long_name_is_one_name("rusk-incremental.toml"@);
    }
    joined_components(host, project_root, "Cargo.toml"@);
    joined_components(host, project_root, "Rusk.toml"@);
    joined_components(host, project_root, "build.rs"@);
    joined_2(host, project_root, "target"@, "rusk-incremental.toml"@);
    assert(project_files(host, project_root).map_values(|p: Seq<char>| components(host, p)) =~= seq![
        "Cargo.toml"@,
        "Rusk.toml"@,
        "build.rs"@,
    ].map_values(|n: Seq<char>| components(host, project_root).push(n)));
}

/// The contents that are found of an artifact are told apart by their digest alone; a
/// file that cannot be read is not one that is missing.
pub proof fn digests_of_files(file: ArtifactFile)
    ensures
        file is Missing <==> digest_of(file) is Missing,
        file is Unreadable <==> digest_of(file) is Unreadable,
        file matches ArtifactFile::Contents(bytes) ==> digest_of(file) == DigestView::Sha256(
            sha256_hex(bytes@),
        ),
{
}

} // verus!
