//! What the commands of the `rusk` program decide and say.
use crate::androidgen::{
    BUILD_RS, RenderCratePathsForCargoToml, bool_name, bool_text, fresh_cargo_toml,
    generate_build_rs, generate_cargo_toml, generate_cargo_toml_with_render, generate_lib_rs,
    generate_lib_rs_with_render, lib_rs, render_lib_rs, rendering_cargo_toml,
};
use crate::keystore::{
    DistinguishedName, EntryView, GenerateOptions, KeystoreEntry, KeystoreError, VerifyResult,
    default_validity_days,
};
use crate::lint::{Finding, FindingView, Severity, finding_views};
use crate::manifest::{
    AbiTargetView, RuskManifest, abi_fits_its_processor, abi_named, abi_table, known_abis,
    processor, target_views, valid_app_id, valid_segment,
};
use crate::num::{decimal, decimal_text, push_decimal};
use crate::path::{
    HostOs, components, exe_name, exe_suffix, join_path, joined_path, joined_two,
    long_name_is_one_name, one_name, steady,
};
use crate::pipeline::{apk_file, check_abi};
use crate::profile::{adb_args, device_args};
use crate::text::{
    ascii_alnum, ascii_digit, ascii_letter, behind_three, chars_of, concat2, concat3, contains,
    contains_text, ends_with, find_char, find_char_props, find_white, find_white_from,
    find_white_props, is_alnum, lines, lines_of, lower, no_white_space, one_if, opt_view,
    option_is, pair_views, same, split_all, split_from, tells, tells_more, text_of, to_lower, trim,
    trimmed, views, white_space,
};
use vstd::prelude::*;

verus! {

/// How loud a message is.
#[derive(Debug, Clone, Copy, PartialEq, Eq, Structural)]
pub enum Level {
    Info,
    Warn,
    Error,
}

/// A message to show.
#[derive(Debug)]
pub struct Note {
    pub level: Level,
    pub text: String,
}

/// The level and text of a message.
pub open spec fn note_view(n: Note) -> (Level, Seq<char>) {
    (n.level, n.text@)
}

/// The levels and texts of messages.
pub open spec fn note_views(v: Seq<Note>) -> Seq<(Level, Seq<char>)> {
    v.map_values(|n: Note| note_view(n))
}

fn push_note(out: &mut Vec<Note>, level: Level, text: String)
    ensures
        note_views(final(out)@) == note_views(old(out)@).push((level, text@)),
{
    let ghost start = out@;
    out.push(Note { level, text });
    assert(note_views(out@) =~= note_views(start).push((level, text@)));
}

// ---------------------------------------------------------------------------
// rusk new

/// A name as part of an identifier: ASCII letters in lower case, digits, and an
/// underscore for anything else.
pub open spec fn ident_of(name: Seq<char>) -> Seq<char> {
    name.map_values(
        |c: char|
            if ascii_alnum(c) {
                lower(c)
            } else {
                '_'
            },
    )
}

/// A name as part of an identifier.
pub fn sanitize_ident(name: &str) -> (r: String)
    ensures
        r@ == ident_of(name@),
{
    let v = chars_of(name);
    let mut out = String::new();
    for i in 0..v.len()
        invariant
            out@ == ident_of(v@.take(i as int)),
    {
        out.push(
            if is_alnum(v[i]) {
                to_lower(v[i])
            } else {
                '_'
            },
        );
        assert(out@ =~= ident_of(v@.take(i + 1)));
    }
    assert(v@.take(v@.len() as int) =~= v@);
    out
}

/// The application id of a fresh project: the one asked for, or one made of its
/// name.
pub fn new_app_id(name: &str, id: Option<String>) -> (r: String)
    ensures
        r@ == (match id {
            Some(x) => x@,
            None => "com.rusk."@ + ident_of(name@),
        }),
{
    match id {
        Some(x) => x,
        None => concat2("com.rusk.", &sanitize_ident(name)),
    }
}

/// The id made of a name that begins with an ASCII letter is valid.
pub proof fn made_app_id_is_valid(name: Seq<char>)
    requires
        name.len() > 0,
        ascii_letter(name[0]),
    ensures
        valid_app_id("com.rusk."@ + ident_of(name)),
{
    reveal_strlit("com.rusk.");
    let tail = ident_of(name);
    let id = "com.rusk."@ + tail;
    assert("com.rusk."@.len() == 9);
    assert(id[0] == 'c' && id[1] == 'o' && id[2] == 'm' && id[3] == '.');
    assert(id[4] == 'r' && id[5] == 'u' && id[6] == 's' && id[7] == 'k' && id[8] == '.');
    assert forall|i: int| 9 <= i < id.len() implies #[trigger] id[i] == tail[i - 9] by {}
    find_char_props(id, '.', 0);
    find_char_props(id, '.', 4);
    find_char_props(id, '.', 9);
    assert(find_char(id, '.', 0) == 3);
    assert(find_char(id, '.', 4) == 8);
    assert forall|i: int| 0 <= i < tail.len() implies tail[i] != '.' && (ascii_alnum(
        #[trigger] tail[i],
    ) || tail[i] == '_') by {
        assert(tail[i] == (if ascii_alnum(name[i]) {
            lower(name[i])
        } else {
            '_'
        }));
    }
    let e = find_char(id, '.', 9);
    assert(e == id.len()) by {
        if e < id.len() {
            assert(id[e] == tail[e - 9]);
        }
    }
    let parts = split_all(id, '.');
    assert(split_from(id, '.', 9) == seq![id.skip(9)]);
    assert(split_from(id, '.', 4) == seq![id.subrange(4, 8)] + split_from(id, '.', 9));
    assert(parts == seq![id.subrange(0, 3)] + split_from(id, '.', 4));
    assert(id.skip(9) =~= tail);
    assert(parts =~= seq![id.subrange(0, 3), id.subrange(4, 8), tail]);
    assert(ascii_letter(tail[0]));
    assert(valid_segment(parts[0]));
    assert(valid_segment(parts[1]));
    assert(valid_segment(parts[2]));
}

/// The host-side program of a fresh project.
pub const NEW_MAIN_RS: &'static str =
    "fn main() {\n    println!(\"Run `rusk build` to produce an Android APK.\");\n}\n";

/// What a fresh project keeps out of version control.
pub const NEW_GITIGNORE: &'static str = "/target\nRusk.downloadcache\n*.tmp-write\n";

/// The files of a fresh project besides its manifest, path and text of each, in
/// the order in which they are written. `manifest` is the fresh manifest.
pub fn new_project_files(
    name: &str,
    manifest: &RuskManifest,
    with_bindgen: bool,
    render_paths: &Option<RenderCratePathsForCargoToml>,
) -> (r: Vec<(String, String)>)
    ensures
        ({
            let n = r@.len();
            &&& n == (if with_bindgen {
                5int
            } else {
                4int
            })
            &&& r@[0].0@ == "Cargo.toml"@
            &&& match render_paths {
                Some(p) => r@[0].1@ == rendering_cargo_toml(
                    name@,
                    with_bindgen,
                    p.render@,
                    p.ndk_sys@,
                ),
                None => r@[0].1@ == fresh_cargo_toml(name@, with_bindgen),
            }
            &&& r@[1].0@ == "src/main.rs"@
            &&& r@[1].1@ == NEW_MAIN_RS@
            &&& r@[2].0@ == "src/lib.rs"@
            &&& match render_paths {
                Some(_) => r@[2].1@ == render_lib_rs(manifest@.package.name),
                None => r@[2].1@ == lib_rs(manifest@.package.name, with_bindgen),
            }
            &&& with_bindgen ==> r@[3].0@ == "build.rs"@ && r@[3].1@ == BUILD_RS@
            &&& r@[n - 1].0@ == ".gitignore"@
            &&& r@[n - 1].1@ == NEW_GITIGNORE@
        }),
{
    let mut files: Vec<(String, String)> = Vec::new();
    let cargo_toml = match render_paths {
        Some(paths) => generate_cargo_toml_with_render(name, with_bindgen, paths),
        None => generate_cargo_toml(name, with_bindgen),
    };
    files.push(("Cargo.toml".to_owned(), cargo_toml));
    files.push(("src/main.rs".to_owned(), NEW_MAIN_RS.to_owned()));
    let lib_rs = match render_paths {
        Some(_) => generate_lib_rs_with_render(manifest),
        None => generate_lib_rs(manifest, with_bindgen),
    };
    files.push(("src/lib.rs".to_owned(), lib_rs));
    if with_bindgen {
        files.push(("build.rs".to_owned(), generate_build_rs()));
    }
    files.push((".gitignore".to_owned(), NEW_GITIGNORE.to_owned()));
    files
}

/// Whether a `Cargo.toml` is that of the SDK's own workspace.
pub open spec fn sdk_workspace(text: Seq<char>) -> bool {
    contains_text(text, "rusk-render"@) && contains_text(text, "[workspace]"@)
}

/// A directory above the running program: the text of its `Cargo.toml`, where
/// that can be read, and whether both rendering crates are in it.
#[derive(Debug)]
pub struct SdkCandidate {
    pub cargo_toml: Option<String>,
    pub has_crates: bool,
}

/// Whether a directory is the SDK's source checkout.
pub open spec fn is_checkout(c: SdkCandidate) -> bool {
    c.has_crates && (match c.cargo_toml {
        Some(text) => sdk_workspace(text@),
        None => false,
    })
}

/// Which of the directories above the running program, nearest first, is the
/// SDK's source checkout; only the first six count.
pub fn locate_render_crates(dirs: &Vec<SdkCandidate>) -> (r: Option<usize>)
    ensures
        match r {
            Some(i) => {
                &&& i < dirs.len()
                &&& i < 6
                &&& is_checkout(dirs@[i as int])
                &&& forall|j: int| 0 <= j < i ==> !is_checkout(#[trigger] dirs@[j])
            },
            None => forall|j: int| 0 <= j < dirs.len() && j < 6 ==> !is_checkout(#[trigger] dirs@[j]),
        },
{
    let mut i: usize = 0;
    while i < dirs.len() && i < 6
        invariant
            i <= dirs.len(),
            i <= 6,
            forall|j: int| 0 <= j < i ==> !is_checkout(#[trigger] dirs@[j]),
        decreases dirs.len() - i,
    {
        if dirs[i].has_crates {
            if let Some(text) = &dirs[i].cargo_toml {
                if contains(text, "rusk-render") && contains(text, "[workspace]") {
                    return Some(i);
                }
            }
        }
        i += 1;
    }
    None
}

// ---------------------------------------------------------------------------
// Devices

/// Where `adb` is: in the SDK that Rusk manages, else in the user's own, else on
/// the search path. The first two count only where there is a file.
pub fn locate_adb(
    managed: Option<String>,
    managed_is_file: bool,
    own: Option<String>,
    own_is_file: bool,
    on_path: Option<String>,
) -> (r: Option<String>)
    ensures
        opt_view(r) == (if managed is Some && managed_is_file {
            opt_view(managed)
        } else if own is Some && own_is_file {
            opt_view(own)
        } else {
            opt_view(on_path)
        }),
{
    if managed_is_file {
        if let Some(path) = managed {
            return Some(path);
        }
    }
    if own_is_file {
        if let Some(path) = own {
            return Some(path);
        }
    }
    on_path
}

/// `adb` in an SDK.
pub fn adb_in_sdk(host: HostOs, sdk_root: &str) -> (r: String)
    ensures
        r@ == joined_path(
            host,
            joined_path(host, sdk_root@, "platform-tools"@),
            "adb"@ + exe_suffix(host),
        ),
{
    join_path(host, &join_path(host, sdk_root, "platform-tools"), &exe_name(host, "adb"))
}

/// How many of the lines name a device that is ready.
pub open spec fn ready_devices(lines: Seq<Seq<char>>) -> nat
    decreases lines.len(),
{
    if lines.len() == 0 {
        0
    } else {
        ready_devices(lines.drop_last()) + (if contains_text(lines.last(), "\tdevice"@) {
            1nat
        } else {
            0nat
        })
    }
}

/// The lines after the heading.
pub open spec fn after_heading(lines: Seq<Seq<char>>) -> Seq<Seq<char>> {
    if lines.len() == 0 {
        lines
    } else {
        lines.skip(1)
    }
}

/// The warning where `adb devices` lists more than one device that is ready.
pub fn multiple_devices_warning(stdout: &str) -> (r: Option<String>)
    ensures
        opt_view(r) == ({
            let n = ready_devices(after_heading(lines_of(stdout@)));
            if n > 1 {
                Some(
                    decimal(n)
                        + " devices/emulators attached — run `rusk devices` to see them, then pass --device <serial> if `adb install` fails with an ambiguity error"@,
                )
            } else {
                None
            }
        }),
{
    let all_lines = lines(stdout);
    let ghost all = lines_of(stdout@);
    let ghost rest = after_heading(all);
    let mut n: usize = 0;
    let mut i: usize = 1;
    assert(rest.take(0) =~= seq![]);
    while i < all_lines.len()
        invariant
            all == views(all_lines@),
            rest == after_heading(all),
            1 <= i,
            i <= all_lines.len() || i == 1,
            n < i,
            n == ready_devices(rest.take(i - 1)),
        decreases all_lines.len() - i,
    {
        proof {
            assert(rest[i - 1] == all_lines@[i as int]@);
            assert(rest.take(i as int).drop_last() =~= rest.take(i - 1));
            assert(rest.take(i as int).last() == rest[i - 1]);
        }
        if contains(&all_lines[i], "\tdevice") {
            n += 1;
        }
        i += 1;
    }
    proof {
        if all_lines.len() == 0 {
            assert(all.len() == 0);
            assert(rest =~= rest.take(0));
        } else {
            assert(rest.take(i - 1) =~= rest);
        }
    }
    if n > 1 {
        Some(
            concat2(
                &decimal_text(n as u64),
                " devices/emulators attached — run `rusk devices` to see them, then pass --device <serial> if `adb install` fails with an ambiguity error",
            ),
        )
    } else {
        None
    }
}

/// The device that a line of `adb devices -l` names, with what is said of it.
pub open spec fn device_in(line: Seq<char>) -> Option<(Seq<char>, Seq<char>)> {
    let e = find_white(line, true, 0);
    if trimmed(line).len() == 0 || e >= line.len() {
        None
    } else {
        Some((line.take(e), trimmed(line.skip(e + 1))))
    }
}

/// The devices that lines name.
pub open spec fn devices_in(lines: Seq<Seq<char>>) -> Seq<(Seq<char>, Seq<char>)>
    decreases lines.len(),
{
    if lines.len() == 0 {
        seq![]
    } else {
        match device_in(lines.last()) {
            Some(d) => devices_in(lines.drop_last()).push(d),
            None => devices_in(lines.drop_last()),
        }
    }
}

fn read_device(line: &str) -> (r: Option<(String, String)>)
    ensures
        match r {
            Some((a, b)) => device_in(line@) == Some((a@, b@)),
            None => device_in(line@) is None,
        },
{
    let v = chars_of(line);
    if trim(line).unicode_len() == 0 {
        return None;
    }
    let e = find_white_from(&v, true, 0);
    if e == v.len() {
        return None;
    }
    let serial = text_of(&v, 0, e);
    let rest = text_of(&v, e + 1, v.len());
    assert(rest@ =~= line@.skip(e + 1));
    assert(serial@ =~= line@.take(e as int));
    Some((serial, trim(&rest)))
}

/// The devices that `adb devices -l` lists: serial and details of each.
pub fn parse_devices(stdout: &str) -> (r: Vec<(String, String)>)
    ensures
        pair_views(r@) == devices_in(after_heading(lines_of(stdout@))),
{
    let all_lines = lines(stdout);
    let ghost all = lines_of(stdout@);
    let ghost rest = after_heading(all);
    let mut out: Vec<(String, String)> = Vec::new();
    let mut i: usize = 1;
    assert(rest.take(0) =~= seq![]);
    assert(pair_views(out@) =~= seq![]);
    while i < all_lines.len()
        invariant
            all == views(all_lines@),
            rest == after_heading(all),
            1 <= i,
            i <= all_lines.len() || i == 1,
            pair_views(out@) == devices_in(rest.take(i - 1)),
        decreases all_lines.len() - i,
    {
        proof {
            assert(rest[i - 1] == all_lines@[i as int]@);
            assert(rest.take(i as int).drop_last() =~= rest.take(i - 1));
            assert(rest.take(i as int).last() == rest[i - 1]);
        }
        if let Some(d) = read_device(&all_lines[i]) {
            let ghost so_far = out@;
            out.push(d);
            assert(pair_views(out@) =~= pair_views(so_far).push((d.0@, d.1@)));
        }
        i += 1;
    }
    proof {
        if all_lines.len() == 0 {
            assert(all.len() == 0);
            assert(rest =~= rest.take(0));
        } else {
            assert(rest.take(i - 1) =~= rest);
        }
    }
    out
}

/// The component that launches an application.
pub fn launch_component(package_id: &str) -> (r: String)
    ensures
        r@ == package_id@ + "/android.app.NativeActivity"@,
{
    concat2(package_id, "/android.app.NativeActivity")
}

/// The arguments of adb that install an application.
pub open spec fn install_command(device: Option<Seq<char>>, apk: Seq<char>) -> Seq<Seq<char>> {
    device_args(device) + seq!["install"@, "-r"@, apk]
}

/// The arguments of adb that start an application.
pub open spec fn launch_command(device: Option<Seq<char>>, package_id: Seq<char>) -> Seq<Seq<char>> {
    device_args(device) + seq![
        "shell"@,
        "am"@,
        "start"@,
        "-n"@,
        package_id + "/android.app.NativeActivity"@,
    ]
}

/// The arguments of adb that remove an application.
pub open spec fn uninstall_command(device: Option<Seq<char>>, package_id: Seq<char>) -> Seq<
    Seq<char>,
> {
    device_args(device) + seq!["uninstall"@, package_id]
}

/// The arguments of adb that show the log, of one process where there is one.
pub open spec fn logcat_command(device: Option<Seq<char>>, pid: Seq<char>) -> Seq<Seq<char>> {
    device_args(device) + (if pid.len() > 0 {
        seq!["logcat"@, "--pid"@, pid]
    } else {
        seq!["logcat"@]
    })
}

/// The arguments of `adb` that install an APK.
pub fn install_args(device: &Option<String>, apk: &str) -> (r: Vec<String>)
    ensures
        views(r@) == install_command(opt_view(*device), apk@),
{
    let args = vec!["install".to_owned(), "-r".to_owned(), apk.to_owned()];
    assert(views(args@) =~= seq!["install"@, "-r"@, apk@]);
    adb_args(device, &args)
}

/// The arguments of `adb` that launch an application.
pub fn launch_args(device: &Option<String>, package_id: &str) -> (r: Vec<String>)
    ensures
        views(r@) == launch_command(opt_view(*device), package_id@),
{
    let args = vec![
        "shell".to_owned(),
        "am".to_owned(),
        "start".to_owned(),
        "-n".to_owned(),
        launch_component(package_id),
    ];
    assert(views(args@) =~= seq![
        "shell"@,
        "am"@,
        "start"@,
        "-n"@,
        package_id@ + "/android.app.NativeActivity"@,
    ]);
    adb_args(device, &args)
}

/// The arguments of `adb` that uninstall an application.
pub fn uninstall_args(device: &Option<String>, package_id: &str) -> (r: Vec<String>)
    ensures
        views(r@) == uninstall_command(opt_view(*device), package_id@),
{
    let args = vec!["uninstall".to_owned(), package_id.to_owned()];
    assert(views(args@) =~= seq!["uninstall"@, package_id@]);
    adb_args(device, &args)
}

/// The arguments of `adb` that stream the log: of one process where `pidof` named
/// one, else of all. The second value says whether the user is to be warned that
/// the application does not seem to run. `pidof` is what that command printed,
/// where it succeeded.
pub fn logcat_args(device: &Option<String>, pidof: Option<&str>) -> (r: (Vec<String>, bool))
    ensures
        ({
            let pid = match pidof {
                Some(out) => trimmed(out@),
                None => seq![],
            };
            &&& views(r.0@) == logcat_command(opt_view(*device), pid)
            &&& r.1 == (pid.len() == 0)
        }),
{
    let mut args = vec!["logcat".to_owned()];
    let mut warn = true;
    if let Some(out) = pidof {
        let pid = trim(out);
        if pid.unicode_len() > 0 {
            warn = false;
            args.push("--pid".to_owned());
            args.push(pid);
            proof {
                assert(views(args@) =~= seq!["logcat"@, "--pid"@, trimmed(out@)]);
            }
        } else {
            assert(views(args@) =~= seq!["logcat"@]);
        }
    } else {
        assert(views(args@) =~= seq!["logcat"@]);
    }
    (adb_args(device, &args), warn)
}

// ---------------------------------------------------------------------------
// rusk doctor

/// What is said of a tool: whether it was found, and whether it answered.
pub fn tool_note(name: &str, path: Option<&str>, answered: bool) -> (r: Note)
    ensures
        note_view(r) == (match path {
            Some(p) => if answered {
                (Level::Info, name@ + ": found at "@ + p@)
            } else {
                (Level::Warn, name@ + ": found at "@ + p@ + " but did not respond as expected"@)
            },
            None => (Level::Warn, name@ + ": not found on PATH"@),
        }),
{
    match path {
        Some(p) => {
            let mut text = concat3(name, ": found at ", p);
            if answered {
                Note { level: Level::Info, text }
            } else {
                text.append(" but did not respond as expected");
                Note { level: Level::Warn, text }
            }
        },
        None => Note { level: Level::Warn, text: concat2(name, ": not found on PATH") },
    }
}

/// What is said of a Rust target, from what `rustup target list --installed`
/// printed.
pub open spec fn target_text(installed: Seq<char>, triple: Seq<char>) -> Seq<char> {
    if contains_text(installed, triple) {
        "rustup target "@ + triple + ": installed"@
    } else {
        "rustup target "@ + triple + ": not installed yet — `rusk build` adds it automatically"@
    }
}

fn write_target(installed: &str, triple: &str) -> (r: String)
    ensures
        r@ == target_text(installed@, triple@),
{
    concat3(
        "rustup target ",
        triple,
        if contains(installed, triple) {
            ": installed"
        } else {
            ": not installed yet — `rusk build` adds it automatically"
        },
    )
}

/// What is said of the Rust targets of all ABIs.
pub fn target_notes(installed: &str) -> (r: Vec<String>)
    ensures
        views(r@) == abi_table().map_values(
            |t: AbiTargetView| target_text(installed@, t.rust_triple),
        ),
{
    let table = known_abis();
    let ghost f = |t: AbiTargetView| target_text(installed@, t.rust_triple);
    let mut out: Vec<String> = Vec::new();
    for i in 0..table.len()
        invariant
            target_views(table@) == abi_table(),
            f == (|t: AbiTargetView| target_text(installed@, t.rust_triple)),
            views(out@) == abi_table().take(i as int).map_values(f),
    {
        let ghost so_far = out@;
        let text = write_target(installed, table[i].rust_triple);
        out.push(text);
        proof {
            assert(abi_table()[i as int] == table@[i as int]@);
            assert(views(out@) =~= views(so_far).push(text@));
            assert(abi_table().take(i + 1).map_values(f) =~= abi_table().take(
                i as int,
            ).map_values(f).push(f(abi_table()[i as int])));
        }
    }
    assert(abi_table().take(abi_table().len() as int) =~= abi_table());
    out
}

/// What is said of a project's ABI.
pub open spec fn abi_note(abi: Seq<char>) -> (Level, Seq<char>) {
    if abi_named(abi) is Some {
        (Level::Info, "  ABI "@ + abi + ": supported"@)
    } else {
        (Level::Warn, "  ABI "@ + abi + ": unknown"@)
    }
}

/// What is said of a project: its id, and each of its ABIs.
pub fn project_notes(manifest: &RuskManifest) -> (r: Vec<Note>)
    ensures
        note_views(r@) == seq![
            (Level::Info, "Rusk.toml OK — package id "@ + manifest@.package.id),
        ] + manifest@.targets.map_values(|abi: Seq<char>| abi_note(abi)),
{
    let mut out: Vec<Note> = Vec::new();
    push_note(
        &mut out,
        Level::Info,
        concat2("Rusk.toml OK — package id ", &manifest.package.id),
    );
    let ghost first = seq![(Level::Info, "Rusk.toml OK — package id "@ + manifest@.package.id)];
    let ghost all = manifest@.targets;
    let ghost f = |abi: Seq<char>| abi_note(abi);
    assert(note_views(out@) =~= first + all.take(0).map_values(f));
    for i in 0..manifest.abi.targets.len()
        invariant
            all == views(manifest.abi.targets@),
            f == (|abi: Seq<char>| abi_note(abi)),
            note_views(out@) == first + all.take(i as int).map_values(f),
    {
        let abi = &manifest.abi.targets[i];
        assert(all[i as int] == abi@);
        let ghost so_far = note_views(out@);
        if check_abi(abi) {
            push_note(&mut out, Level::Info, concat3("  ABI ", abi, ": supported"));
        } else {
            push_note(&mut out, Level::Warn, concat3("  ABI ", abi, ": unknown"));
        }
        proof {
            assert(all.take(i + 1).map_values(f) =~= all.take(i as int).map_values(f).push(
                f(all[i as int]),
            ));
            assert(note_views(out@) =~= first + all.take(i + 1).map_values(f));
        }
    }
    assert(all.take(all.len() as int) =~= all);
    out
}

// ---------------------------------------------------------------------------
// rusk emulator, clean and cache

/// The name of a fresh virtual device: the one asked for, or one made of the API
/// level.
pub fn new_avd_name(name: Option<String>, api: u32) -> (r: String)
    ensures
        r@ == (match name {
            Some(n) => n@,
            None => "rusk-"@ + decimal(api as nat),
        }),
{
    match name {
        Some(n) => n,
        None => {
            let mut out = "rusk-".to_owned();
            push_decimal(&mut out, api as u64);
            out
        },
    }
}

/// The directories that cleaning removes.
pub open spec fn cleaned(host: HostOs, project_root: Seq<char>) -> Seq<Seq<char>> {
    seq![
        joined_path(host, project_root, "target/rusk-staging"@),
        joined_path(host, project_root, "target/rusk-out"@),
    ]
}

/// The directories that cleaning removes.
pub fn clean_dirs(host: HostOs, project_root: &str) -> (r: Vec<String>)
    ensures
        views(r@) == cleaned(host, project_root@),
{
    let r = vec![
        join_path(host, project_root, "target/rusk-staging"),
        join_path(host, project_root, "target/rusk-out"),
    ];
    assert(views(r@) =~= seq![
        joined_path(host, project_root@, "target/rusk-staging"@),
        joined_path(host, project_root@, "target/rusk-out"@),
    ]);
    r
}

/// What is said of a tool's past runs.
pub fn tool_runs_note(tool: &str, succeeded: u64, failed: u64) -> (r: Note)
    ensures
        note_view(r) == (if failed == 0 {
            (Level::Info, "  "@ + tool@ + ": "@ + decimal(succeeded as nat) + " succeeded"@)
        } else {
            (
                Level::Warn,
                "  "@ + tool@ + ": "@ + decimal(succeeded as nat) + " succeeded"@ + ", "@ + decimal(
                    failed as nat,
                ) + " failed"@,
            )
        }),
{
    let mut text = concat3("  ", tool, ": ");
    push_decimal(&mut text, succeeded);
    text.append(" succeeded");
    if failed == 0 {
        Note { level: Level::Info, text }
    } else {
        text.append(", ");
        push_decimal(&mut text, failed);
        text.append(" failed");
        Note { level: Level::Warn, text }
    }
}

// ---------------------------------------------------------------------------
// rusk lint

/// The level that a finding is shown at.
pub open spec fn level_of(severity: Severity) -> Level {
    match severity {
        Severity::Error => Level::Error,
        Severity::Warning => Level::Warn,
        Severity::Info => Level::Info,
    }
}

/// How a finding is shown: its line, and a line for its hint.
pub open spec fn finding_notes(f: FindingView) -> Seq<(Level, Seq<char>)> {
    seq![(level_of(f.severity), "["@ + f.id + "] "@ + f.message)] + (match f.hint {
        Some(hint) => seq![(Level::Info, "  hint: "@ + hint)],
        None => seq![],
    })
}

/// How the first `n` findings are shown.
pub open spec fn all_finding_notes(findings: Seq<FindingView>, n: nat) -> Seq<(Level, Seq<char>)>
    decreases n,
{
    if n == 0 || n > findings.len() {
        seq![]
    } else {
        all_finding_notes(findings, (n - 1) as nat) + finding_notes(findings[n - 1])
    }
}

/// How many of the first `n` findings are errors.
pub open spec fn error_count(findings: Seq<FindingView>, n: nat) -> nat
    decreases n,
{
    if n == 0 || n > findings.len() {
        0
    } else {
        error_count(findings, (n - 1) as nat) + (if findings[n - 1].severity == Severity::Error {
            1nat
        } else {
            0nat
        })
    }
}

/// A lint report: its heading (none where there is nothing to report), its
/// messages, and why the command fails, if it does.
#[derive(Debug)]
pub struct LintReport {
    pub heading: Option<String>,
    pub notes: Vec<Note>,
    pub failure: Option<String>,
}

/// The report on findings. The command fails where it is strict and there is an
/// error among them.
pub fn lint_report(findings: &Vec<Finding>, strict: bool) -> (r: LintReport)
    ensures
        ({
            let all = finding_views(findings@);
            let n = findings@.len();
            let errors = error_count(all, n);
            if n == 0 {
                &&& r.heading is None
                &&& note_views(r.notes@) == seq![(Level::Info, "no issues found"@)]
                &&& r.failure is None
            } else {
                &&& opt_view(r.heading) == Some("rusk lint — "@ + decimal(n) + " finding(s)"@)
                &&& note_views(r.notes@) == all_finding_notes(all, n)
                &&& opt_view(r.failure) == (if strict && errors > 0 {
                    Some(
                        decimal(errors) + " error-severity finding(s) — failing due to --strict"@,
                    )
                } else {
                    None
                })
            }
        }),
{
    let ghost all = finding_views(findings@);
    let mut notes: Vec<Note> = Vec::new();
    if findings.len() == 0 {
        push_note(&mut notes, Level::Info, "no issues found".to_owned());
        assert(note_views(notes@) =~= seq![(Level::Info, "no issues found"@)]);
        return LintReport { heading: None, notes, failure: None };
    }
    let mut errors: u64 = 0;
    assert(note_views(notes@) =~= seq![]);
    for i in 0..findings.len()
        invariant
            all == finding_views(findings@),
            errors <= i,
            errors == error_count(all, i as nat),
            note_views(notes@) == all_finding_notes(all, i as nat),
    {
        let f = &findings[i];
        assert(all[i as int] == f@);
        let ghost so_far = note_views(notes@);
        let mut line = concat3("[", f.id, "] ");
        line.append(&f.message);
        let level = match f.severity {
            Severity::Error => {
                errors += 1;
                Level::Error
            },
            Severity::Warning => Level::Warn,
            Severity::Info => Level::Info,
        };
        push_note(&mut notes, level, line);
        if let Some(hint) = &f.hint {
            push_note(&mut notes, Level::Info, concat2("  hint: ", hint));
        }
        assert(note_views(notes@) =~= so_far + finding_notes(f@));
    }
    let mut heading = "rusk lint — ".to_owned();
    push_decimal(&mut heading, findings.len() as u64);
    heading.append(" finding(s)");
    let failure = if strict && errors > 0 {
        Some(
            concat2(
                &decimal_text(errors),
                " error-severity finding(s) — failing due to --strict",
            ),
        )
    } else {
        None
    };
    LintReport { heading: Some(heading), notes, failure }
}

// ---------------------------------------------------------------------------
// rusk keystore and bundle

/// What to generate, from what the user typed: the two passwords have to be the
/// same, and a name that was left out is unknown. The key gets the store's
/// password, 2048 bits and the default validity.
pub fn keystore_options(
    path: String,
    alias: String,
    password: String,
    confirmation: &str,
    common_name: String,
    force: bool,
) -> (r: Result<GenerateOptions, KeystoreError>)
    ensures
        match r {
            Ok(o) => {
                &&& password@ == confirmation@
                &&& o.keystore_path == path
                &&& o.alias == alias
                &&& o.store_password == password
                &&& o.key_password@.len() == 0
                &&& o.validity_days == 9125
                &&& o.key_size == 2048
                &&& o.force == force
                &&& o.dname.common_name@ == (if common_name@.len() == 0 {
                    "Unknown"@
                } else {
                    common_name@
                })
                &&& o.dname.organizational_unit@ == "Unknown"@
                &&& o.dname.organization@ == "Unknown"@
                &&& o.dname.locality@ == "Unknown"@
                &&& o.dname.state@ == "Unknown"@
                &&& o.dname.country_code@ == "US"@
            },
            Err(KeystoreError::PasswordMismatch) => password@ != confirmation@,
            Err(_) => false,
        },
{
    if !same(&password, confirmation) {
        return Err(KeystoreError::PasswordMismatch);
    }
    let mut dname = DistinguishedName::default();
    if common_name.unicode_len() > 0 {
        dname.common_name = common_name;
    }
    Ok(
        GenerateOptions {
            keystore_path: path,
            alias,
            store_password: password,
            key_password: String::new(),
            validity_days: default_validity_days(),
            key_size: 2048,
            dname,
            force,
        },
    )
}

/// How an entry of a keystore is shown.
pub open spec fn entry_lines(e: EntryView) -> Seq<Seq<char>> {
    seq!["alias: "@ + e.alias + "  ("@ + e.entry_type + ")"@] + (match e.sha256_fingerprint {
        Some(f) => seq!["  SHA256: "@ + f],
        None => seq![],
    }) + (match (e.valid_from, e.valid_until) {
        (Some(from), Some(until)) => seq!["  valid: "@ + from + " until "@ + until],
        _ => seq![],
    })
}

/// How an entry of a keystore is shown.
pub fn show_entry(e: &KeystoreEntry) -> (r: Vec<String>)
    ensures
        views(r@) == entry_lines(e@),
{
    let mut first = concat3("alias: ", &e.alias, "  (");
    first.append(&e.entry_type);
    first.append(")");
    let mut out = vec![first];
    if let Some(f) = &e.sha256_fingerprint {
        out.push(concat2("  SHA256: ", f));
    }
    if let Some(from) = &e.valid_from {
        if let Some(until) = &e.valid_until {
            let mut line = concat3("  valid: ", from, " until ");
            line.append(until);
            out.push(line);
        }
    }
    assert(views(out@) =~= entry_lines(e@));
    out
}

/// What is shown of an APK's signature.
pub fn verify_note(result: &VerifyResult) -> (r: Note)
    ensures
        note_view(r) == (if result.verified {
            (
                Level::Info,
                "verified — schemes: v1="@ + bool_text(result.v1_scheme) + " v2="@ + bool_text(
                    result.v2_scheme,
                ) + " v3="@ + bool_text(result.v3_scheme) + " v4="@ + bool_text(result.v4_scheme),
            )
        } else {
            (Level::Error, "signature did NOT verify"@)
        }),
{
    if result.verified {
        let mut text = "verified — schemes: v1=".to_owned();
        text.append(bool_name(result.v1_scheme));
        text.append(" v2=");
        text.append(bool_name(result.v2_scheme));
        text.append(" v3=");
        text.append(bool_name(result.v3_scheme));
        text.append(" v4=");
        text.append(bool_name(result.v4_scheme));
        Note { level: Level::Info, text }
    } else {
        Note { level: Level::Error, text: "signature did NOT verify".to_owned() }
    }
}

/// The position of the newest APK among the first `n` files of the output
/// directory, each with the time of its last change; of equally new ones the
/// first.
pub open spec fn newest_apk(files: Seq<(Seq<char>, u64)>, n: nat) -> Option<int>
    decreases n,
{
    if n == 0 || n > files.len() {
        None
    } else {
        let before = newest_apk(files, (n - 1) as nat);
        if ".apk"@.is_suffix_of(files[n - 1].0) && (match before {
            Some(i) => files[i].1 < files[n - 1].1,
            None => true,
        }) {
            Some(n - 1)
        } else {
            before
        }
    }
}

/// The texts of files with times.
pub open spec fn timed_views(v: Seq<(String, u64)>) -> Seq<(Seq<char>, u64)> {
    v.map_values(|p: (String, u64)| (p.0@, p.1))
}

/// The APK to verify: the one that is named, else the newest in the project's
/// output directory, whose files are given with the times of their last change.
/// Where there is none it is the one that a build without flavor writes.
pub fn apk_to_verify(
    host: HostOs,
    explicit: Option<String>,
    out_dir: &str,
    files: &Vec<(String, u64)>,
    project_name: &str,
) -> (r: String)
    ensures
        r@ == (match explicit {
            Some(p) => p@,
            None => joined_path(
                host,
                out_dir@,
                match newest_apk(timed_views(files@), files@.len()) {
                    Some(i) => files@[i].0@,
                    None => apk_file(project_name@, None),
                },
            ),
        }),
{
    if let Some(p) = explicit {
        return p;
    }
    let ghost all = timed_views(files@);
    let mut best: Option<usize> = None;
    for i in 0..files.len()
        invariant
            all == timed_views(files@),
            match best {
                Some(b) => b < i && newest_apk(all, i as nat) == Some(b as int),
                None => newest_apk(all, i as nat) is None,
            },
    {
        assert(all[i as int] == (files@[i as int].0@, files@[i as int].1));
        let newer = match best {
            Some(b) => {
                assert(all[b as int] == (files@[b as int].0@, files@[b as int].1));
                files[b].1 < files[i].1
            },
            None => true,
        };
        if ends_with(&files[i].0, ".apk") && newer {
            best = Some(i);
        }
    }
    match best {
        Some(b) => join_path(host, out_dir, &files[b].0),
        None => join_path(host, out_dir, &concat2(project_name, ".apk")),
    }
}

/// The file name of a bundle.
pub open spec fn aab_file(name: Seq<char>, flavor: Option<Seq<char>>) -> Seq<char> {
    match flavor {
        Some(f) => name + "-"@ + f + ".aab"@,
        None => name + ".aab"@,
    }
}

/// The name of a bundle: the project's, with the flavor.
pub fn aab_name(name: &str, flavor: &Option<String>) -> (r: String)
    ensures
        r@ == aab_file(name@, opt_view(*flavor)),
{
    match flavor {
        Some(f) => {
            let mut out = concat3(name, "-", f);
            out.append(".aab");
            out
        },
        None => concat2(name, ".aab"),
    }
}

/// What the user typed, without the line's end and other white space around it.
pub fn typed_line(line: &str) -> (r: String)
    ensures
        r@ == trimmed(line@),
{
    trim(line)
}

/// What is said of a fresh project.
pub open spec fn new_project_text(
    name: Seq<char>,
    with_bindgen: bool,
    with_render: bool,
) -> Seq<Seq<char>> {
    seq![
        "created "@ + name + "/"@,
        "  "@ + name + "/Rusk.toml   — project + Android descriptor"@,
        "  "@ + name + "/Cargo.toml  — normal cargo manifest"@,
        "  "@ + name + "/src/lib.rs  — android_main entry point"@,
    ] + one_if(
        with_bindgen,
        "  "@ + name
            + "/build.rs   — binds the real NDK headers with bindgen (needs libclang; `rusk new --no-bindgen` to skip)"@,
    ) + seq![
        if with_render {
            "  wired up with rusk-render — `rusk build && rusk run` should show an animated square, not a black screen"@
        } else {
            "  note: the default onCreate is intentionally empty (no render loop) — `rusk new --with-render` scaffolds one if you want to see something on screen immediately"@
        },
        "next: cd into the project and run `rusk build`"@,
    ]
}

/// What is said of a fresh project.
pub fn new_project_notes(name: &str, with_bindgen: bool, with_render: bool) -> (r: Vec<String>)
    ensures
        views(r@) == new_project_text(name@, with_bindgen, with_render),
{
    let mut out = vec![
        concat3("created ", name, "/"),
        concat3("  ", name, "/Rusk.toml   — project + Android descriptor"),
        concat3("  ", name, "/Cargo.toml  — normal cargo manifest"),
        concat3("  ", name, "/src/lib.rs  — android_main entry point"),
    ];
    if with_bindgen {
        out.push(
            concat3(
                "  ",
                name,
                "/build.rs   — binds the real NDK headers with bindgen (needs libclang; `rusk new --no-bindgen` to skip)",
            ),
        );
    }
    out.push(
        if with_render {
            "  wired up with rusk-render — `rusk build && rusk run` should show an animated square, not a black screen".to_owned()
        } else {
            "  note: the default onCreate is intentionally empty (no render loop) — `rusk new --with-render` scaffolds one if you want to see something on screen immediately".to_owned()
        },
    );
    out.push("next: cd into the project and run `rusk build`".to_owned());
    assert(views(out@) =~= new_project_text(name@, with_bindgen, with_render));
    out
}

/// What is said of a lock file.
pub fn lock_note(ndk_version: &str, build_tools_version: &str, platform_api: u32, java: usize) -> (r:
    String)
    ensures
        r@ == "Rusk.lock: NDK "@ + ndk_version@ + ", build-tools "@ + build_tools_version@
            + ", platform android-"@ + decimal(platform_api as nat) + ", "@ + decimal(java as nat)
            + " Java dep(s)"@,
{
    let mut out = concat3("Rusk.lock: NDK ", ndk_version, ", build-tools ");
    out.append(build_tools_version);
    out.append(", platform android-");
    push_decimal(&mut out, platform_api as u64);
    out.append(", ");
    push_decimal(&mut out, java as u64);
    out.append(" Java dep(s)");
    out
}

// ---------------------------------------------------------------------------
// What the commands do

/// On a chosen device a command is the same as on the only one, with the device named
/// before it.
pub proof fn device_is_named_first(serial: Seq<char>, what: Seq<char>)
    ensures
        install_command(Some(serial), what) == seq!["-s"@, serial] + install_command(None, what),
        launch_command(Some(serial), what) == seq!["-s"@, serial] + launch_command(None, what),
        uninstall_command(Some(serial), what) == seq!["-s"@, serial] + uninstall_command(
            None,
            what,
        ),
        logcat_command(Some(serial), what) == seq!["-s"@, serial] + logcat_command(None, what),
{
    let d = seq!["-s"@, serial];
    assert(install_command(Some(serial), what) =~= d + install_command(None, what));
    assert(launch_command(Some(serial), what) =~= d + launch_command(None, what));
    assert(uninstall_command(Some(serial), what) =~= d + uninstall_command(None, what));
    assert(logcat_command(Some(serial), what) =~= d + logcat_command(None, what));
}

/// What is installed is the package, over one that may be there; what is started is the
/// native activity of the application, what is removed the application, and the log is
/// that of the process where there is one.
pub proof fn commands_say_what_they_do(apk: Seq<char>, id: Seq<char>, pid: Seq<char>)
    ensures
        install_command(None, apk)[0] == "install"@,
        install_command(None, apk).contains("-r"@),
        install_command(None, apk).last() == apk,
        launch_command(None, id).take(3) == seq!["shell"@, "am"@, "start"@],
        option_is(launch_command(None, id), "-n"@, id + "/"@ + "android.app.NativeActivity"@),
        uninstall_command(None, id) == seq!["uninstall"@, id],
        logcat_command(None, pid)[0] == "logcat"@,
        pid.len() > 0 ==> option_is(logcat_command(None, pid), "--pid"@, pid),
        pid.len() == 0 ==> logcat_command(None, pid).len() == 1,
{
    assert(install_command(None, apk) =~= seq!["install"@, "-r"@, apk]);
    assert(install_command(None, apk)[1] == "-r"@);
    let l = launch_command(None, id);
    assert(l.take(3) =~= seq!["shell"@, "am"@, "start"@]);
    assert("/android.app.NativeActivity"@ =~= "/"@ + "android.app.NativeActivity"@) by {
        reveal_strlit("/android.app.NativeActivity");
        reveal_strlit("/");
        reveal_strlit("android.app.NativeActivity");
    }
    assert(id + "/android.app.NativeActivity"@ =~= id + "/"@ + "android.app.NativeActivity"@);
    assert(l[3] == "-n"@);
    assert(l[4] == id + "/"@ + "android.app.NativeActivity"@);
    assert(uninstall_command(None, id) =~= seq!["uninstall"@, id]);
    if pid.len() > 0 {
        assert(logcat_command(None, pid)[1] == "--pid"@);
        assert(logcat_command(None, pid)[2] == pid);
    }
}

/// An identifier keeps letters, in lower case, and digits; all else is an underscore.
pub proof fn ident_is_lower_case(name: Seq<char>)
    ensures
        ident_of(name).len() == name.len(),
        forall|i: int|
            0 <= i < name.len() ==> #[trigger] ident_of(name)[i] == (if ascii_digit(name[i]) || (
            'a' <= name[i] && name[i] <= 'z') {
                name[i]
            } else if 'A' <= name[i] && name[i] <= 'Z' {
                lower(name[i])
            } else {
                '_'
            }),
        ident_of(ident_of(name)) == ident_of(name),
{
    assert(ident_of(ident_of(name)) =~= ident_of(name));
}

/// A line of a serial, a blank and a state is the device of that serial in that state;
/// a line without a blank is none.
pub proof fn device_read_back(serial: Seq<char>, blank: char, state: Seq<char>)
    requires
        serial.len() > 0,
        state.len() > 0,
        no_white_space(serial),
        no_white_space(state),
        white_space(blank),
    ensures
        device_in(serial.push(blank) + state) == Some((serial, state)),
        device_in(serial) is None,
{
    let line = serial.push(blank) + state;
    assert(line[0] == serial[0] && line.last() == state.last());
    assert(trimmed(line) == line);
    find_white_props(line, true, 0);
    find_white_props(serial, true, 0);
    let e = find_white(line, true, 0);
    assert(line[serial.len() as int] == blank);
    if e < serial.len() {
        assert(line[e] == serial[e]);
    }
    assert(e == serial.len());
    assert(line.take(e) =~= serial);
    assert(line.skip(e + 1) =~= state);
    assert(!white_space(state[0]) && !white_space(state[state.len() - 1]));
    assert(trimmed(state) == state);
    let k = find_white(serial, true, 0);
    if k < serial.len() {
        assert(!white_space(serial[k]));
    }
}

/// Every line with a device is listed, in the order of the lines, and no other.
pub proof fn every_device_is_listed(lines: Seq<Seq<char>>)
    ensures
        devices_in(lines) == lines.filter(|l: Seq<char>| device_in(l) is Some).map_values(
            |l: Seq<char>| device_in(l)->0,
        ),
        ready_devices(lines) == lines.filter(
            |l: Seq<char>| contains_text(l, "\tdevice"@),
        ).len(),
    decreases lines.len(),
{
    reveal(Seq::filter);
    let p = |l: Seq<char>| device_in(l) is Some;
    let f = |l: Seq<char>| device_in(l)->0;
    if lines.len() > 0 {
        every_device_is_listed(lines.drop_last());
        assert(devices_in(lines) =~= lines.filter(p).map_values(f));
    } else {
        assert(devices_in(lines) =~= lines.filter(p).map_values(f));
    }
}

/// The package that is verified is one that no other is newer than; there is none only
/// where there is no package at all.
pub proof fn newest_is_newest(files: Seq<(Seq<char>, u64)>, n: nat)
    requires
        n <= files.len(),
    ensures
        match newest_apk(files, n) {
            Some(i) => 0 <= i < n && ".apk"@.is_suffix_of(files[i].0) && (forall|j: int|
                0 <= j < n && ".apk"@.is_suffix_of((#[trigger] files[j]).0) ==> files[j].1
                    <= files[i].1 && (j < i ==> files[j].1 < files[i].1)),
            None => forall|j: int|
                0 <= j < n ==> !".apk"@.is_suffix_of((#[trigger] files[j]).0),
        },
    decreases n,
{
    if n > 0 {
        newest_is_newest(files, (n - 1) as nat);
    }
}

/// The errors that are counted are the findings that are errors.
pub proof fn errors_are_counted(findings: Seq<FindingView>, n: nat)
    requires
        n <= findings.len(),
    ensures
        error_count(findings, n) == findings.take(n as int).filter(
            |f: FindingView| f.severity == Severity::Error,
        ).len(),
    decreases n,
{
    reveal(Seq::filter);
    if n > 0 {
        errors_are_counted(findings, (n - 1) as nat);
        assert(findings.take(n as int).drop_last() =~= findings.take(n - 1));
        assert(findings.take(n as int).last() == findings[n - 1]);
    }
}

/// Every finding is shown, at the level of its severity, with its check and its
/// message, and its hint behind it where it has one.
pub proof fn every_finding_is_shown(findings: Seq<FindingView>, n: nat, i: int)
    requires
        0 <= i < n <= findings.len(),
    ensures
        ({
            let f = findings[i];
            let level = if f.severity == Severity::Error {
                Level::Error
            } else if f.severity == Severity::Warning {
                Level::Warn
            } else {
                Level::Info
            };
            let note = (level, seq!['['] + f.id + seq![']', ' '] + f.message);
            let notes = all_finding_notes(findings, n);
            exists|k: int|
                0 <= k < notes.len() && #[trigger] notes[k] == note && (f.hint matches Some(hint)
                    ==> k + 1 < notes.len() && notes[k + 1] == (Level::Info, "  hint: "@ + hint))
        }),
    decreases n,
{
    reveal_strlit("[");
    reveal_strlit("] ");
    let f = findings[i];
    let level = level_of(f.severity);
    let note = (level, seq!['['] + f.id + seq![']', ' '] + f.message);
    let notes = all_finding_notes(findings, n);
    let before = all_finding_notes(findings, (n - 1) as nat);
    if i < n - 1 {
        every_finding_is_shown(findings, (n - 1) as nat, i);
        let k = choose|k: int|
            0 <= k < before.len() && #[trigger] before[k] == note && (f.hint matches Some(hint)
                ==> k + 1 < before.len() && before[k + 1] == (Level::Info, "  hint: "@ + hint));
        assert(notes[k] == note);
    } else {
        let k = before.len() as int;
        assert(finding_notes(f)[0] == notes[k]);
        assert("["@ + f.id + "] "@ + f.message =~= seq!['['] + f.id + seq![']', ' '] + f.message);
        assert(notes[k] == note);
        if f.hint is Some {
            assert(notes[k + 1] == finding_notes(f)[1]);
        }
    }
}

/// A bundle is named as the package is, with its own ending.
pub proof fn bundle_is_named_as_package(name: Seq<char>, flavor: Option<Seq<char>>)
    ensures
        ({
            let apk = apk_file(name, flavor);
            let aab = aab_file(name, flavor);
            &&& apk.len() == aab.len()
            &&& aab.take(aab.len() - 3) == apk.take(apk.len() - 3)
            &&& aab.skip(aab.len() - 3) == seq!['a', 'a', 'b']
            &&& apk.skip(apk.len() - 3) == seq!['a', 'p', 'k']
        }),
{
    reveal_strlit(".aab");
    reveal_strlit(".apk");
    let apk = apk_file(name, flavor);
    let aab = aab_file(name, flavor);
    assert(aab.take(aab.len() - 3) =~= apk.take(apk.len() - 3));
    assert(aab.skip(aab.len() - 3) =~= seq!['a', 'a', 'b']);
    assert(apk.skip(apk.len() - 3) =~= seq!['a', 'p', 'k']);
}

/// Cleaning removes what a build stages and what it puts out, in the project's `target`,
/// and nothing else.
#[verifier::rlimit(40)]
pub proof fn cleaning_removes_output(host: HostOs, project_root: Seq<char>)
    requires
        steady(host, project_root),
    ensures
        cleaned(host, project_root).len() == 2,
        components(host, cleaned(host, project_root)[0]) == components(host, project_root) + seq![
            "target"@,
            "rusk-staging"@,
        ],
        components(host, cleaned(host, project_root)[1]) == components(host, project_root) + seq![
            "target"@,
            "rusk-out"@,
        ],
{
    assert(one_name("target"@)) by {
        reveal_strlit("target");
        long_name_is_one_name("target"@);
    }
    assert(one_name("rusk-staging"@)) by {
        reveal_strlit("rusk-staging");
        long_name_is_one_name("rusk-staging"@);
    }
    assert(one_name("rusk-out"@)) by {
        reveal_strlit("rusk-out");
        long_name_is_one_name("rusk-out"@);
    }
    assert("target/rusk-staging"@ =~= "target"@.push('/') + "rusk-staging"@) by {
        reveal_strlit("target/rusk-staging");
        reveal_strlit("target");
        reveal_strlit("rusk-staging");
    }
    assert("target/rusk-out"@ =~= "target"@.push('/') + "rusk-out"@) by {
        reveal_strlit("target/rusk-out");
        reveal_strlit("target");
        reveal_strlit("rusk-out");
    }
    let base = components(host, project_root);
    joined_two(host, project_root, "target"@, "rusk-staging"@);
    joined_two(host, project_root, "target"@, "rusk-out"@);
    assert(base.push("target"@).push("rusk-staging"@) =~= base + seq!["target"@, "rusk-staging"@]);
    assert(base.push("target"@).push("rusk-out"@) =~= base + seq!["target"@, "rusk-out"@]);
}

/// A target is shown as installed exactly where it is listed, and an ABI as supported
/// exactly where it is known.
pub proof fn targets_are_shown(installed: Seq<char>, triple: Seq<char>, abi: Seq<char>)
    ensures
        contains_text(target_text(installed, triple), triple),
        ": installed"@.is_suffix_of(target_text(installed, triple)) <==> contains_text(
            installed,
            triple,
        ),
        contains_text(abi_note(abi).1, abi),
        abi_note(abi).0 == Level::Warn <==> processor(abi) is None,
        ": supported"@.is_suffix_of(abi_note(abi).1) <==> processor(abi) is Some,
{
    abi_fits_its_processor(abi);
    let t = target_text(installed, triple);
    let yes = ": installed"@;
    let no = ": not installed yet — `rusk build` adds it automatically"@;
    tells("rustup target "@, triple);
    tells_more("rustup target "@ + triple, yes, triple);
    tells_more("rustup target "@ + triple, no, triple);
    reveal_strlit(": installed");
    assert(no.len() > 20 && no.last() == 'y') by {
        reveal_strlit(": not installed yet — `rusk build` adds it automatically");
    }
    if contains_text(installed, triple) {
        assert(t.subrange(t.len() - yes.len(), t.len() as int) =~= yes);
    } else {
        assert(t.last() == no.last());
        if yes.is_suffix_of(t) {
            assert(t.subrange(t.len() - yes.len(), t.len() as int).last() == t.last());
        }
    }
    let n = abi_note(abi).1;
    let known = ": supported"@;
    let unknown = ": unknown"@;
    tells("  ABI "@, abi);
    tells_more("  ABI "@ + abi, known, abi);
    tells_more("  ABI "@ + abi, unknown, abi);
    reveal_strlit(": supported");
    reveal_strlit(": unknown");
    if processor(abi) is Some {
        assert(n.subrange(n.len() - known.len(), n.len() as int) =~= known);
    } else {
        assert(n.last() == 'n');
        if known.is_suffix_of(n) {
            assert(n.subrange(n.len() - known.len(), n.len() as int).last() == n.last());
        }
    }
}

/// An entry of a keystore is shown with its alias, and with its fingerprint and the time
/// that it is valid where they are known.
pub proof fn entry_is_shown(e: EntryView)
    ensures
        contains_text(entry_lines(e)[0], e.alias),
        contains_text(entry_lines(e)[0], e.entry_type),
        e.sha256_fingerprint matches Some(f) ==> f.is_suffix_of(entry_lines(e)[1]),
        e.valid_from is Some && e.valid_until is Some ==> e.valid_until->0.is_suffix_of(
            entry_lines(e).last(),
        ) && contains_text(entry_lines(e).last(), e.valid_from->0 + " until "@),
        entry_lines(e).len() == 1 + (if e.sha256_fingerprint is Some {
            1int
        } else {
            0int
        }) + (if e.valid_from is Some && e.valid_until is Some {
            1int
        } else {
            0int
        }),
{
    let l = entry_lines(e);
    tells("alias: "@, e.alias);
    tells_more("alias: "@ + e.alias, "  ("@, e.alias);
    tells_more("alias: "@ + e.alias + "  ("@, e.entry_type, e.alias);
    tells_more("alias: "@ + e.alias + "  ("@ + e.entry_type, ")"@, e.alias);
    tells("alias: "@ + e.alias + "  ("@, e.entry_type);
    tells_more("alias: "@ + e.alias + "  ("@ + e.entry_type, ")"@, e.entry_type);
    assert(l[0] == "alias: "@ + e.alias + "  ("@ + e.entry_type + ")"@);
    if let Some(f) = e.sha256_fingerprint {
        let t = "  SHA256: "@ + f;
        assert(l[1] == t);
        assert(t.subrange(t.len() - f.len(), t.len() as int) =~= f);
    }
    if e.valid_from is Some && e.valid_until is Some {
        let from = e.valid_from->0;
        let until = e.valid_until->0;
        let t = "  valid: "@ + from + " until "@ + until;
        assert(l.last() == t);
        assert(t.subrange(t.len() - until.len(), t.len() as int) =~= until);
        tells("  valid: "@, from + " until "@);
        behind_three("  valid: "@, from, " until "@, until);
        tells_more("  valid: "@ + from + " until "@, until, from + " until "@);
    }
}

} // verus!
