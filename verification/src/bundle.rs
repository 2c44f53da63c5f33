//! Android App Bundles: which modules are packed, and what `bundletool` is told.
use crate::manifest::RuskManifest;
use crate::num::{
    decimal, decimal_digits, decimal_injective, push_decimal, push_signed, signed_decimal,
};
use crate::path::{
    HostOs, extensions_tell_apart, file_name, join_path, joined_path, plain_extension,
    replace_extension, with_extension,
};
use crate::text::{
    ascii_alnum, ascii_digit, chars_of, concat2, concat3, contains_text, is_alnum, join, joined,
    one_if, opt_view, option_is, pair_views, replace_char, replaced, replaced_one_for_one,
    split_all, split_all_of_list, split_first_of_joined, tells, tells_more, trim, trimmed, views,
};
use vstd::prelude::*;

verus! {

/// Why a bundle could not be built.
#[derive(Debug)]
pub enum BundleError {
    BadStatus(u16),
    NoCacheDir,
    ToolFailed(i32),
    NoKeystore,
    InvalidModule(String),
}

impl BundleError {
    /// The text of the message shown for the error.
    pub open spec fn text(&self) -> Seq<char> {
        match *self {
            BundleError::BadStatus(status) => "unexpected HTTP status "@ + decimal(status as nat)
                + " fetching bundletool"@,
            BundleError::NoCacheDir =>
                "could not determine a home directory to cache bundletool in"@,
            BundleError::ToolFailed(status) => "`java -jar bundletool.jar` exited with status "@
                + signed_decimal(status as int),
            BundleError::NoKeystore =>
                "bundletool build-apks needs a keystore; pass one explicitly or configure [signing] in Rusk.toml"@,
            BundleError::InvalidModule(what) => "invalid bundle module: "@ + what@,
        }
    }

    /// The message shown for the error.
    pub fn message(&self) -> (r: String)
        ensures
            r@ == self.text(),
    {
        match self {
            BundleError::BadStatus(status) => {
                let mut out = "unexpected HTTP status ".to_owned();
                push_decimal(&mut out, *status as u64);
                out.append(" fetching bundletool");
                out
            },
            BundleError::NoCacheDir =>
                "could not determine a home directory to cache bundletool in".to_owned(),
            BundleError::ToolFailed(status) => {
                let mut out = "`java -jar bundletool.jar` exited with status ".to_owned();
                push_signed(&mut out, *status);
                out
            },
            BundleError::NoKeystore =>
                "bundletool build-apks needs a keystore; pass one explicitly or configure [signing] in Rusk.toml".to_owned(),
            BundleError::InvalidModule(what) => concat2("invalid bundle module: ", what),
        }
    }
}

// ---------------------------------------------------------------------------
// bundletool itself

/// The release of bundletool that is used where the project names none.
pub const DEFAULT_BUNDLETOOL_VERSION: &'static str = "1.17.1";

/// The release of bundletool to use.
pub fn bundletool_version_for(manifest: &RuskManifest) -> (r: String)
    ensures
        r@ == (match manifest@.bundletool_version {
            Some(Some(v)) => v,
            _ => DEFAULT_BUNDLETOOL_VERSION@,
        }),
{
    match &manifest.bundle {
        Some(b) => match &b.bundletool_version {
            Some(v) => v.clone(),
            None => DEFAULT_BUNDLETOOL_VERSION.to_owned(),
        },
        None => DEFAULT_BUNDLETOOL_VERSION.to_owned(),
    }
}

/// Where a release of bundletool is kept and where it comes from.
#[derive(Debug)]
pub struct BundletoolPlan {
    pub dir: String,
    pub jar_path: String,
    pub url: String,
    /// Where it is downloaded to before it is complete.
    pub tmp_path: String,
    pub label: String,
}

/// Where a release of bundletool is kept and where it comes from. It is
/// downloaded only where there is no file at `jar_path`.
pub fn ensure_bundletool(host: HostOs, home: Option<&str>, version: &str) -> (r: Result<
    BundletoolPlan,
    BundleError,
>)
    ensures
        match (r, home) {
            (Ok(p), Some(h)) => {
                let file = "bundletool-all-"@ + version@ + ".jar"@;
                &&& p.dir@ == joined_path(host, joined_path(host, h@, ".rusk"@), "bundletool"@)
                &&& p.jar_path@ == joined_path(host, p.dir@, file)
                &&& p.url@ == "https://github.com/google/bundletool/releases/download/"@ + version@
                    + "/"@ + file
                &&& p.tmp_path@ == joined_path(
                    host,
                    p.dir@,
                    ".bundletool-"@ + version@ + ".tmp"@,
                )
                &&& p.label@ == "bundletool "@ + version@
            },
            (Err(BundleError::NoCacheDir), None) => true,
            _ => false,
        },
{
    let home = match home {
        Some(h) => h,
        None => {
            return Err(BundleError::NoCacheDir);
        },
    };
    let dir = join_path(host, &join_path(host, home, ".rusk"), "bundletool");
    let file = concat3("bundletool-all-", version, ".jar");
    let mut url = "https://github.com/google/bundletool/releases/download/".to_owned();
    url.append(version);
    url.append("/");
    url.append(&file);
    Ok(
        BundletoolPlan {
            jar_path: join_path(host, &dir, &file),
            url,
            tmp_path: join_path(host, &dir, &concat3(".bundletool-", version, ".tmp")),
            label: concat2("bundletool ", version),
            dir,
        },
    )
}

// ---------------------------------------------------------------------------
// Building a bundle

/// What a bundle is built from: the tool, the directory of the base module and
/// the file to write.
#[derive(Debug)]
pub struct BundleInputs {
    pub bundletool_jar: String,
    pub base_module_dir: String,
    pub out_aab: String,
}

/// A feature module: its name, its directory, and whether that directory exists.
#[derive(Debug)]
pub struct BundleModule {
    pub name: String,
    pub module_dir: String,
    pub is_dir: bool,
}

/// What is wrong with a module, if anything is.
pub open spec fn module_fault(m: BundleModule) -> Option<Seq<char>> {
    if trimmed(m.name@).len() == 0 {
        Some("feature module has an empty name"@)
    } else if !m.is_dir {
        Some(
            "feature module \""@ + m.name@ + "\" points at "@ + m.module_dir@
                + ", which is not a directory"@,
        )
    } else {
        None
    }
}

/// Checks every module before anything is packed.
pub fn validate_modules(modules: &Vec<BundleModule>) -> (r: Result<(), BundleError>)
    ensures
        match r {
            Ok(()) => forall|i: int|
                0 <= i < modules.len() ==> module_fault(#[trigger] modules@[i]) is None,
            Err(BundleError::InvalidModule(what)) => exists|i: int|
                {
                    &&& 0 <= i < modules.len()
                    &&& module_fault(#[trigger] modules@[i]) == Some(what@)
                    &&& forall|j: int|
                        0 <= j < i ==> module_fault(#[trigger] modules@[j]) is None
                },
            Err(_) => false,
        },
{
    for i in 0..modules.len()
        invariant
            forall|j: int| 0 <= j < i ==> module_fault(#[trigger] modules@[j]) is None,
    {
        let m = &modules[i];
        assert(*m == modules@[i as int]);
        if trim(&m.name).unicode_len() == 0 {
            return Err(BundleError::InvalidModule("feature module has an empty name".to_owned()));
        }
        if !m.is_dir {
            let mut what = "feature module \"".to_owned();
            what.append(&m.name);
            what.append("\" points at ");
            what.append(&m.module_dir);
            what.append(", which is not a directory");
            return Err(BundleError::InvalidModule(what));
        }
    }
    Ok(())
}

/// A module's name with everything but ASCII letters and digits replaced.
pub open spec fn sanitized(name: Seq<char>) -> Seq<char> {
    name.map_values(
        |c: char|
            if ascii_alnum(c) {
                c
            } else {
                '_'
            },
    )
}

/// A stand-in for a module's name that can be part of a file name.
pub fn sanitize_module_name(name: &str) -> (r: String)
    ensures
        r@ == sanitized(name@),
{
    let v = chars_of(name);
    let mut out = String::new();
    for i in 0..v.len()
        invariant
            out@ == sanitized(v@.take(i as int)),
    {
        out.push(
            if is_alnum(v[i]) {
                v[i]
            } else {
                '_'
            },
        );
        assert(out@ =~= sanitized(v@.take(i + 1)));
    }
    assert(v@.take(v@.len() as int) =~= v@);
    out
}

/// A sanitised name is as long as the name and holds only ASCII letters, digits
/// and underscores.
pub proof fn sanitized_is_plain(name: Seq<char>)
    ensures
        sanitized(name).len() == name.len(),
        forall|i: int|
            0 <= i < sanitized(name).len() ==> ascii_alnum(#[trigger] sanitized(name)[i])
                || sanitized(name)[i] == '_',
{
}

/// The file beside the bundle that the base module is packed into.
pub open spec fn base_zip(host: HostOs, out_aab: Seq<char>) -> Seq<char> {
    with_extension(host, out_aab, "basemodule.zip.tmp"@)
}

/// What takes the place of the bundle's extension in the name of the file that the
/// feature module at position `i` is packed into. The position tells apart modules
/// whose names are sanitised alike.
pub open spec fn module_extension(i: nat, name: Seq<char>) -> Seq<char> {
    "module-"@ + decimal(i) + "-"@ + sanitized(name) + ".zip.tmp"@
}

/// The file beside the bundle that the feature module at position `i` is packed into.
pub open spec fn module_zip(host: HostOs, out_aab: Seq<char>, i: nat, name: Seq<char>) -> Seq<
    char,
> {
    with_extension(host, out_aab, module_extension(i, name))
}

/// The file that the feature module at position `i` is packed into.
pub fn module_zip_path(host: HostOs, out_aab: &str, i: usize, name: &str) -> (r: String)
    ensures
        r@ == module_zip(host, out_aab@, i as nat, name@),
{
    let mut extension = "module-".to_owned();
    push_decimal(&mut extension, i as u64);
    extension.append("-");
    extension.append(&sanitize_module_name(name));
    extension.append(".zip.tmp");
    replace_extension(host, out_aab, &extension)
}

/// A bundle in the making: the directories to pack with the files to pack them
/// into, the base module first, of which the first `packed` are done.
#[derive(Debug)]
pub struct BundleRun {
    pub bundletool_jar: String,
    pub out_aab: String,
    pub modules: Vec<(String, String)>,
    pub packed: usize,
}

/// What to do next for a bundle.
#[derive(Debug)]
pub enum BundleAction {
    Pack { from: String, to: String },
    /// Run `java` with these arguments.
    Build(Vec<String>),
}

/// The arguments that make bundletool build a bundle.
pub open spec fn build_bundle_args(
    jar: Seq<char>,
    zips: Seq<Seq<char>>,
    out_aab: Seq<char>,
) -> Seq<Seq<char>> {
    seq![
        "-jar"@,
        jar,
        "build-bundle"@,
        "--modules="@ + joined(zips, ","@),
        "--output="@ + out_aab,
        "--overwrite"@,
    ]
}

/// The files that modules are packed into.
pub open spec fn zips_of(modules: Seq<(Seq<char>, Seq<char>)>) -> Seq<Seq<char>> {
    modules.map_values(|m: (Seq<char>, Seq<char>)| m.1)
}

/// The modules with the files that they are packed into, the base module first.
pub open spec fn packing_list(
    host: HostOs,
    base_dir: Seq<char>,
    out_aab: Seq<char>,
    modules: Seq<BundleModule>,
) -> Seq<(Seq<char>, Seq<char>)> {
    seq![(base_dir, base_zip(host, out_aab))] + Seq::new(
        modules.len(),
        |i: int| (modules[i].module_dir@, module_zip(host, out_aab, i as nat, modules[i].name@)),
    )
}

proof fn module_extensions_differ(i: nat, a: Seq<char>, j: nat, b: Seq<char>)
    requires
        i != j,
    ensures
        module_extension(i, a) != module_extension(j, b),
{
    reveal_strlit("module-");
    reveal_strlit("-");
    assert("-"@ =~= seq!['-']);
    let x = sanitized(a) + ".zip.tmp"@;
    let y = sanitized(b) + ".zip.tmp"@;
    assert(module_extension(i, a) =~= "module-"@ + (decimal(i).push('-') + x));
    assert(module_extension(j, b) =~= "module-"@ + (decimal(j).push('-') + y));
    decimal_without_dash(i);
    decimal_without_dash(j);
    split_first_of_joined(decimal(i), x, '-');
    split_first_of_joined(decimal(j), y, '-');
    if module_extension(i, a) == module_extension(j, b) {
        assert(module_extension(i, a).skip(7) =~= decimal(i).push('-') + x);
        assert(module_extension(j, b).skip(7) =~= decimal(j).push('-') + y);
        decimal_injective(i, j);
    }
}

proof fn decimal_without_dash(n: nat)
    ensures
        !decimal(n).contains('-'),
{
    decimal_digits(n);
    if decimal(n).contains('-') {
        let k = choose|k: int| 0 <= k < decimal(n).len() && decimal(n)[k] == '-';
        assert(ascii_digit(decimal(n)[k]));
    }
}

proof fn module_extension_shape(i: nat, name: Seq<char>)
    ensures
        module_extension(i, name) != "basemodule.zip.tmp"@,
        module_extension(i, name).contains('.'),
        plain_extension(module_extension(i, name)),
        "basemodule.zip.tmp"@.contains('.'),
        plain_extension("basemodule.zip.tmp"@),
{
    reveal_strlit("module-");
    reveal_strlit(".zip.tmp");
    reveal_strlit("basemodule.zip.tmp");
    let e = module_extension(i, name);
    assert(e[0] == 'm');
    assert("basemodule.zip.tmp"@[0] == 'b');
    let head = "module-"@ + decimal(i) + "-"@ + sanitized(name);
    assert(e == head + ".zip.tmp"@);
    assert(e[head.len() as int] == '.');
    assert("basemodule.zip.tmp"@[10] == '.');
    reveal_strlit("-");
    decimal_digits(i);
    let d = decimal(i).len() as int;
    let n = name.len() as int;
    assert forall|k: int| 0 <= k < e.len() implies (#[trigger] e[k]) != '/' && e[k] != '\\' by {
        if k < 7 {
            assert(e[k] == "module-"@[k]);
        } else if k < 7 + d {
            assert(e[k] == decimal(i)[k - 7]);
            assert(ascii_digit(decimal(i)[k - 7]));
        } else if k == 7 + d {
            assert(e[k] == '-');
        } else if k < 8 + d + n {
            assert(e[k] == sanitized(name)[k - 8 - d]);
        } else {
            assert(e[k] == ".zip.tmp"@[k - 8 - d - n]);
        }
    }
}

/// Each module of a bundle that is to be a file is packed into a file of its own,
/// whatever the modules are called, and none of these is the bundle.
pub proof fn modules_are_packed_apart(
    host: HostOs,
    base_dir: Seq<char>,
    out_aab: Seq<char>,
    modules: Seq<BundleModule>,
)
    requires
        file_name(host, out_aab) is Some,
    ensures
        zips_of(packing_list(host, base_dir, out_aab, modules)).no_duplicates(),
        !zips_of(packing_list(host, base_dir, out_aab, modules)).contains(out_aab),
{
    let zips = zips_of(packing_list(host, base_dir, out_aab, modules));
    assert forall|i: int, j: int| 0 <= i < j < zips.len() implies zips[i] != zips[j] by {
        let b = module_extension((j - 1) as nat, modules[j - 1].name@);
        assert(zips[j] == with_extension(host, out_aab, b));
        if i == 0 {
            module_extension_shape((j - 1) as nat, modules[j - 1].name@);
            extensions_tell_apart(host, out_aab, "basemodule.zip.tmp"@, b);
        } else {
            let a = module_extension((i - 1) as nat, modules[i - 1].name@);
            assert(zips[i] == with_extension(host, out_aab, a));
            module_extension_shape((i - 1) as nat, modules[i - 1].name@);
            module_extension_shape((j - 1) as nat, modules[j - 1].name@);
            module_extensions_differ(
                (i - 1) as nat,
                modules[i - 1].name@,
                (j - 1) as nat,
                modules[j - 1].name@,
            );
            extensions_tell_apart(host, out_aab, a, b);
        }
    }
    if zips.contains(out_aab) {
        let i = choose|i: int| 0 <= i < zips.len() && zips[i] == out_aab;
        if i == 0 {
            module_extension_shape(0, seq![]);
            extensions_tell_apart(
                host,
                out_aab,
                "basemodule.zip.tmp"@,
                "basemodule.zip.tmp"@,
            );
        } else {
            let a = module_extension((i - 1) as nat, modules[i - 1].name@);
            module_extension_shape((i - 1) as nat, modules[i - 1].name@);
            extensions_tell_apart(host, out_aab, a, a);
        }
    }
}

/// Starts a bundle of a base module and any number of feature modules, once all
/// of them have been found valid. Each is packed into a file of its own beside the
/// bundle, as long as the bundle's path leads to a file.
pub fn build_bundle_multi_module(
    host: HostOs,
    inputs: &BundleInputs,
    modules: &Vec<BundleModule>,
) -> (r: Result<BundleRun, BundleError>)
    requires
        modules.len() < usize::MAX,
    ensures
        match r {
            Ok(run) => {
                &&& forall|i: int|
                    0 <= i < modules.len() ==> module_fault(#[trigger] modules@[i]) is None
                &&& run.bundletool_jar@ == inputs.bundletool_jar@
                &&& run.out_aab@ == inputs.out_aab@
                &&& run.packed == 0
                &&& pair_views(run.modules@) == packing_list(
                    host,
                    inputs.base_module_dir@,
                    inputs.out_aab@,
                    modules@,
                )
                &&& file_name(host, inputs.out_aab@) is Some ==> zips_of(
                    pair_views(run.modules@),
                ).no_duplicates() && !zips_of(pair_views(run.modules@)).contains(inputs.out_aab@)
            },
            Err(BundleError::InvalidModule(what)) => exists|i: int|
                {
                    &&& 0 <= i < modules.len()
                    &&& module_fault(#[trigger] modules@[i]) == Some(what@)
                    &&& forall|j: int|
                        0 <= j < i ==> module_fault(#[trigger] modules@[j]) is None
                },
            Err(_) => false,
        },
{
    match validate_modules(modules) {
        Ok(()) => {},
        Err(e) => {
            return Err(e);
        },
    }
    let ghost expected = packing_list(
        host,
        inputs.base_module_dir@,
        inputs.out_aab@,
        modules@,
    );
    let mut list = vec![
        (
            inputs.base_module_dir.clone(),
            replace_extension(host, &inputs.out_aab, "basemodule.zip.tmp"),
        ),
    ];
    assert(pair_views(list@) =~= expected.take(1));
    for i in 0..modules.len()
        invariant
            modules.len() < usize::MAX,
            expected == packing_list(
                host,
                inputs.base_module_dir@,
                inputs.out_aab@,
                modules@,
            ),
            list.len() == i + 1,
            pair_views(list@) == expected.take(i + 1),
    {
        let ghost before = list@;
        let zip = module_zip_path(host, &inputs.out_aab, i, &modules[i].name);
        list.push((modules[i].module_dir.clone(), zip));
        proof {
            assert(pair_views(list@) =~= pair_views(before).push(expected[i + 1]));
            assert(expected.take(i + 2) =~= expected.take(i + 1).push(expected[i + 1]));
        }
    }
    proof {
        assert(expected.take(modules.len() + 1) =~= expected);
        if file_name(host, inputs.out_aab@) is Some {
            modules_are_packed_apart(host, inputs.base_module_dir@, inputs.out_aab@, modules@);
        }
    }
    Ok(
        BundleRun {
            bundletool_jar: inputs.bundletool_jar.clone(),
            out_aab: inputs.out_aab.clone(),
            modules: list,
            packed: 0,
        },
    )
}

/// Starts a bundle of a base module alone: the same as one without feature
/// modules.
pub fn build_bundle(host: HostOs, inputs: &BundleInputs) -> (r: BundleRun)
    ensures
        r.bundletool_jar@ == inputs.bundletool_jar@,
        r.out_aab@ == inputs.out_aab@,
        r.packed == 0,
        pair_views(r.modules@) == packing_list(
            host,
            inputs.base_module_dir@,
            inputs.out_aab@,
            seq![],
        ),
{
    let modules = vec![
        (
            inputs.base_module_dir.clone(),
            replace_extension(host, &inputs.out_aab, "basemodule.zip.tmp"),
        ),
    ];
    assert(pair_views(modules@) =~= packing_list(
        host,
        inputs.base_module_dir@,
        inputs.out_aab@,
        seq![],
    ));
    BundleRun {
        bundletool_jar: inputs.bundletool_jar.clone(),
        out_aab: inputs.out_aab.clone(),
        modules,
        packed: 0,
    }
}

impl BundleRun {
    /// What to do next: pack the next module, or build once all are packed.
    pub fn next(&self) -> (r: BundleAction)
        ensures
            match r {
                BundleAction::Pack { from, to } => self.packed < self.modules.len() && from@
                    == self.modules@[self.packed as int].0@ && to@
                    == self.modules@[self.packed as int].1@,
                BundleAction::Build(args) => self.packed >= self.modules.len() && views(args@)
                    == build_bundle_args(
                    self.bundletool_jar@,
                    zips_of(pair_views(self.modules@)),
                    self.out_aab@,
                ),
            },
    {
        if self.packed < self.modules.len() {
            return BundleAction::Pack {
                from: self.modules[self.packed].0.clone(),
                to: self.modules[self.packed].1.clone(),
            };
        }
        let zips = self.zips(self.modules.len());
        assert(zips_of(pair_views(self.modules@)).take(self.modules@.len() as int) =~= zips_of(
            pair_views(self.modules@),
        ));
        let args = vec![
            "-jar".to_owned(),
            self.bundletool_jar.clone(),
            "build-bundle".to_owned(),
            concat2("--modules=", &join(&zips, ",")),
            concat2("--output=", &self.out_aab),
            "--overwrite".to_owned(),
        ];
        assert(views(args@) =~= build_bundle_args(
            self.bundletool_jar@,
            zips_of(pair_views(self.modules@)),
            self.out_aab@,
        ));
        BundleAction::Build(args)
    }

    fn zips(&self, n: usize) -> (r: Vec<String>)
        requires
            n <= self.modules.len(),
        ensures
            views(r@) == zips_of(pair_views(self.modules@)).take(n as int),
    {
        let mut out: Vec<String> = Vec::new();
        for i in 0..n
            invariant
                n <= self.modules.len(),
                out@.len() == i,
                forall|j: int| 0 <= j < i ==> (#[trigger] out@[j])@ == self.modules@[j].1@,
        {
            out.push(self.modules[i].1.clone());
        }
        assert(views(out@) =~= zips_of(pair_views(self.modules@)).take(n as int));
        out
    }

    /// Notes that the module which [`BundleRun::next`] named has been packed.
    pub fn module_packed(&mut self)
        requires
            old(self).packed < old(self).modules.len(),
        ensures
            final(self).packed == old(self).packed + 1,
            final(self).modules == old(self).modules,
            final(self).bundletool_jar == old(self).bundletool_jar,
            final(self).out_aab == old(self).out_aab,
    {
        self.packed += 1;
    }

    /// The files to remove once the bundle is built or something has failed: those
    /// that modules have been packed into, and the one that is being written where
    /// packing is cut short.
    pub fn leftovers(&self) -> (r: Vec<String>)
        requires
            self.packed <= self.modules.len(),
        ensures
            views(r@) == zips_of(pair_views(self.modules@)).take(
                if self.packed < self.modules.len() {
                    self.packed + 1
                } else {
                    self.packed as int
                },
            ),
    {
        if self.packed < self.modules.len() {
            self.zips(self.packed + 1)
        } else {
            self.zips(self.packed)
        }
    }

    /// The lines that announce the packing and the building.
    pub fn labels(&self) -> (r: (String, String))
        ensures
            r.0@ == "Packaging "@ + decimal(self.modules@.len()) + plural(self.modules@.len()),
            r.1@ == "Building app bundle ("@ + decimal(self.modules@.len()) + plural(
                self.modules@.len(),
            ) + ", bundletool build-bundle)"@,
    {
        let n = self.modules.len();
        let noun = if n == 1 {
            " module"
        } else {
            " modules"
        };
        let mut packing = "Packaging ".to_owned();
        push_decimal(&mut packing, n as u64);
        packing.append(noun);
        let mut building = "Building app bundle (".to_owned();
        push_decimal(&mut building, n as u64);
        building.append(noun);
        building.append(", bundletool build-bundle)");
        (packing, building)
    }
}

/// The noun for a number of modules.
pub open spec fn plural(n: nat) -> Seq<char> {
    if n == 1 {
        " module"@
    } else {
        " modules"@
    }
}

/// The result of bundletool.
pub fn bundletool_outcome(success: bool, code: Option<i32>) -> (r: Result<(), BundleError>)
    ensures
        match r {
            Ok(()) => success,
            Err(BundleError::ToolFailed(status)) => !success && status == (match code {
                Some(c) => c,
                None => -1i32,
            }),
            Err(_) => false,
        },
{
    if success {
        Ok(())
    } else {
        Err(
            BundleError::ToolFailed(
                match code {
                    Some(c) => c,
                    None => -1,
                },
            ),
        )
    }
}

// ---------------------------------------------------------------------------
// Using a bundle

/// The key that testing APKs are signed with.
#[derive(Debug)]
pub struct BundleSigning {
    pub keystore_path: String,
    pub alias: String,
    pub store_password: String,
    pub key_password: String,
}

/// The arguments that make bundletool generate the APKs of a bundle.
pub fn build_apks_for_testing(
    bundletool_jar: &str,
    aab_path: &str,
    signing: &BundleSigning,
    out_apks: &str,
    connected_device_only: bool,
) -> (r: Vec<String>)
    ensures
        views(r@) == seq![
            "-jar"@,
            bundletool_jar@,
            "build-apks"@,
            "--bundle="@ + aab_path@,
            "--output="@ + out_apks@,
            "--overwrite"@,
            "--ks="@ + signing.keystore_path@,
            "--ks-key-alias="@ + signing.alias@,
            "--ks-pass=pass:"@ + signing.store_password@,
            "--key-pass=pass:"@ + signing.key_password@,
        ] + one_if(connected_device_only, "--connected-device"@),
{
    let mut args = vec![
        "-jar".to_owned(),
        bundletool_jar.to_owned(),
        "build-apks".to_owned(),
        concat2("--bundle=", aab_path),
        concat2("--output=", out_apks),
        "--overwrite".to_owned(),
        concat2("--ks=", &signing.keystore_path),
        concat2("--ks-key-alias=", &signing.alias),
        concat2("--ks-pass=pass:", &signing.store_password),
        concat2("--key-pass=pass:", &signing.key_password),
    ];
    if connected_device_only {
        args.push("--connected-device".to_owned());
    }
    assert(views(args@) =~= seq![
        "-jar"@,
        bundletool_jar@,
        "build-apks"@,
        "--bundle="@ + aab_path@,
        "--output="@ + out_apks@,
        "--overwrite"@,
        "--ks="@ + signing.keystore_path@,
        "--ks-key-alias="@ + signing.alias@,
        "--ks-pass=pass:"@ + signing.store_password@,
        "--key-pass=pass:"@ + signing.key_password@,
    ] + one_if(connected_device_only, "--connected-device"@));
    args
}

/// The arguments that make bundletool install APKs on a device.
pub fn install_apks(bundletool_jar: &str, apks_path: &str, device_serial: Option<&str>) -> (r: Vec<
    String,
>)
    ensures
        views(r@) == seq!["-jar"@, bundletool_jar@, "install-apks"@, "--apks="@ + apks_path@] + (
        match device_serial {
            Some(serial) => seq!["--device-id="@ + serial@],
            None => seq![],
        }),
{
    let mut args = vec![
        "-jar".to_owned(),
        bundletool_jar.to_owned(),
        "install-apks".to_owned(),
        concat2("--apks=", apks_path),
    ];
    let ghost start = args@;
    if let Some(serial) = device_serial {
        args.push(concat2("--device-id=", serial));
    }
    assert(views(args@) =~= seq![
        "-jar"@,
        bundletool_jar@,
        "install-apks"@,
        "--apks="@ + apks_path@,
    ] + (match device_serial {
        Some(serial) => seq!["--device-id="@ + serial@],
        None => seq![],
    }));
    args
}

/// The name of an entry in a packed module, from its path relative to the
/// module's directory: with forward slashes, and one at the end of a directory.
/// The module's directory itself has none.
pub open spec fn zip_entry_name(relative: Seq<char>, is_dir: bool) -> Option<Seq<char>> {
    if relative.len() == 0 {
        None
    } else if is_dir {
        Some(replaced(relative, '\\', "/"@) + "/"@)
    } else {
        Some(replaced(relative, '\\', "/"@))
    }
}

/// The name of an entry in a packed module.
pub fn entry_name(relative: &str, is_dir: bool) -> (r: Option<String>)
    ensures
        opt_view(r) == zip_entry_name(relative@, is_dir),
{
    if relative.unicode_len() == 0 {
        return None;
    }
    let mut name = replace_char(relative, '\\', "/");
    if is_dir {
        name.append("/");
    }
    Some(name)
}

/// The modules that a bundle is built from are those that were packed, in their order,
/// and what is built goes where it is asked for.
pub proof fn bundle_is_built_from_zips(jar: Seq<char>, zips: Seq<Seq<char>>, out_aab: Seq<char>)
    requires
        zips.len() > 0,
        forall|i: int| 0 <= i < zips.len() ==> !(#[trigger] zips[i]).contains(','),
    ensures
        ({
            let args = build_bundle_args(jar, zips, out_aab);
            &&& option_is(args, "-jar"@, jar)
            &&& args[2] == "build-bundle"@
            &&& exists|list: Seq<char>|
                args.contains("--modules="@ + list) && #[trigger] split_all(list, ',') == zips
            &&& args.contains("--output="@ + out_aab)
            &&& args.contains("--overwrite"@)
        }),
{
    let args = build_bundle_args(jar, zips, out_aab);
    assert(args[0] == "-jar"@ && args[1] == jar);
    reveal_strlit(",");
    assert(","@ =~= seq![',']);
    split_all_of_list(zips, ',');
    let list = joined(zips, ","@);
    assert(args[3] == "--modules="@ + list);
    assert(split_all(list, ',') == zips);
    assert(args[4] == "--output="@ + out_aab);
    assert(args[5] == "--overwrite"@);
}

/// The base comes first among the modules that are packed; then the features in their
/// order, each from its own directory.
pub proof fn modules_are_packed_in_order(
    host: HostOs,
    base_dir: Seq<char>,
    out_aab: Seq<char>,
    modules: Seq<BundleModule>,
)
    ensures
        packing_list(host, base_dir, out_aab, modules).len() == modules.len() + 1,
        packing_list(host, base_dir, out_aab, modules)[0].0 == base_dir,
        forall|i: int|
            0 <= i < modules.len() ==> (#[trigger] packing_list(host, base_dir, out_aab, modules)[i
                + 1]).0 == modules[i].module_dir@,
{
    let list = packing_list(host, base_dir, out_aab, modules);
    assert(list[0] == (base_dir, base_zip(host, out_aab)));
}

/// An entry of an archive is named with slashes, whatever the host writes; that of a
/// directory ends in one more, and the root has none.
pub proof fn entries_are_named_with_slashes(relative: Seq<char>)
    requires
        relative.len() > 0,
    ensures
        ({
            let file = zip_entry_name(relative, false)->0;
            &&& zip_entry_name(relative, false) is Some
            &&& zip_entry_name(relative, true) == Some(file.push('/'))
            &&& file.len() == relative.len()
            &&& !file.contains('\\')
            &&& forall|i: int|
                0 <= i < relative.len() ==> #[trigger] file[i] == (if relative[i] == '\\' {
                    '/'
                } else {
                    relative[i]
                })
        }),
        zip_entry_name(seq![], true) is None,
        zip_entry_name(seq![], false) is None,
{
    reveal_strlit("/");
    assert("/"@ =~= seq!['/']);
    replaced_one_for_one(relative, '\\', '/');
    let file = replaced(relative, '\\', "/"@);
    assert(file + "/"@ =~= file.push('/'));
}

/// The message of an error tells what it is about.
#[verifier::rlimit(40)]
pub proof fn message_tells_all(e: BundleError)
    ensures
        match e {
            BundleError::BadStatus(status) => contains_text(e.text(), decimal(status as nat)),
            BundleError::ToolFailed(status) => contains_text(e.text(), signed_decimal(status as int)),
            BundleError::InvalidModule(what) => contains_text(e.text(), what@),
            _ => e.text().len() > 0,
        },
{
    match e {
        BundleError::BadStatus(status) => {
            tells("unexpected HTTP status "@, decimal(status as nat));
            tells_more("unexpected HTTP status "@ + decimal(status as nat), " fetching bundletool"@, decimal(status as nat));
        },
        BundleError::ToolFailed(status) => {
            tells("`java -jar bundletool.jar` exited with status "@, signed_decimal(status as int));
        },
        BundleError::InvalidModule(what) => {
            tells("invalid bundle module: "@, what@);
        },
        _ => {
            reveal_lens();
        },
    }
}

proof fn reveal_lens()
    ensures
        "could not determine a home directory to cache bundletool in"@.len() > 0,
        "bundletool build-apks needs a keystore; pass one explicitly or configure [signing] in Rusk.toml"@.len() > 0,
{
    reveal_strlit("could not determine a home directory to cache bundletool in");
    reveal_strlit("bundletool build-apks needs a keystore; pass one explicitly or configure [signing] in Rusk.toml");
}

/// Several modules, or none, are spoken of in the plural.
pub proof fn plural_of_modules(n: nat)
    ensures
        n == 1 ==> plural(n) == " module"@,
        n != 1 ==> plural(n) == " module"@.push('s'),
{
    reveal_strlit(" module");
    reveal_strlit(" modules");
    assert(" modules"@ =~= " module"@.push('s'));
}

/// A feature module is refused exactly where its name is blank or it has no directory,
/// and the second is told with both.
pub proof fn modules_are_checked(m: BundleModule)
    ensures
        module_fault(m) is None <==> trimmed(m.name@).len() > 0 && m.is_dir,
        trimmed(m.name@).len() > 0 && !m.is_dir ==> contains_text(module_fault(m)->0, m.name@)
            && contains_text(module_fault(m)->0, m.module_dir@),
{
    let a = "feature module \""@;
    let b = "\" points at "@;
    let c = ", which is not a directory"@;
    tells(a, m.name@);
    tells_more(a + m.name@, b, m.name@);
    tells_more(a + m.name@ + b, m.module_dir@, m.name@);
    tells_more(a + m.name@ + b + m.module_dir@, c, m.name@);
    tells(a + m.name@ + b, m.module_dir@);
    tells_more(a + m.name@ + b + m.module_dir@, c, m.module_dir@);
}

} // verus!
