//! The Android NDK: which release to use, where to get it, and where its tools
//! are.
use crate::digest::{sha1_digest, sha1_hex};
use crate::num::{decimal, decimal_digits, decimal_injective, digits_value, push_decimal};
use crate::path::{
    HostOs, bat_name, bat_suffix, components, exe_name, exe_suffix, join_keeps_backslashes,
    join_path, joined_3, joined_5, joined_components, joined_path, long_name_is_one_name, one_name,
    steady,
};
use crate::sdkmgr::BuildTools;
use crate::text::{
    ascii_hex_digit, behind_three, chars_of, concat2, concat3, contains_text, find_char,
    find_char_props, has_string, is_before, is_hex_digit, opt_view, precedes,
    precedes_from_asymmetric, precedes_from_transitive, precedes_total, same, split_all,
    split_all_without, split_on, tells, tells_behind, tells_more, views,
};
use vstd::prelude::*;

verus! {

/// Why an NDK could not be provided.
#[derive(Debug)]
pub enum NdkError {
    /// The NDK is not published for this operating system.
    UnsupportedHost(String),
    UnknownVersion(String),
    /// The user has no home directory.
    NoCacheDir,
    ChecksumMismatch { path: String, expected: String, actual: String },
}

impl NdkError {
    /// The text of the message shown for the error.
    pub open spec fn text(&self) -> Seq<char> {
        match *self {
            NdkError::UnsupportedHost(os) => "unsupported host OS for NDK download: "@ + os@,
            NdkError::UnknownVersion(v) => "no known NDK release matches version \""@ + v@
                + "\"; pin a known version in Rusk.toml, e.g. \"27.0.12077973\""@,
            NdkError::NoCacheDir => "could not determine a home/cache directory for this user"@,
            NdkError::ChecksumMismatch { path, expected, actual } => "checksum mismatch for "@
                + path@ + ": expected "@ + expected@ + ", got "@ + actual@,
        }
    }

    /// The message shown for the error.
    pub fn message(&self) -> (r: String)
        ensures
            r@ == self.text(),
    {
        match self {
            NdkError::UnsupportedHost(os) => concat2("unsupported host OS for NDK download: ", os),
            NdkError::UnknownVersion(v) => concat3(
                "no known NDK release matches version \"",
                v,
                "\"; pin a known version in Rusk.toml, e.g. \"27.0.12077973\"",
            ),
            NdkError::NoCacheDir =>
                "could not determine a home/cache directory for this user".to_owned(),
            NdkError::ChecksumMismatch { path, expected, actual } => {
                let mut out = "checksum mismatch for ".to_owned();
                out.append(path);
                out.append(": expected ");
                out.append(expected);
                out.append(", got ");
                out.append(actual);
                out
            },
        }
    }
}

// ---------------------------------------------------------------------------
// Releases

/// A release: its version, the tag in its download address, and the SHA-1
/// digest that is published for the archive of each platform.
#[derive(Debug, Clone, Copy)]
pub struct KnownRelease {
    pub version: &'static str,
    pub tag: &'static str,
    pub sha1_windows: &'static str,
    pub sha1_linux: &'static str,
    pub sha1_darwin: &'static str,
}

pub struct ReleaseView {
    pub version: Seq<char>,
    pub tag: Seq<char>,
    pub sha1_windows: Seq<char>,
    pub sha1_linux: Seq<char>,
    pub sha1_darwin: Seq<char>,
}

impl View for KnownRelease {
    type V = ReleaseView;

    open spec fn view(&self) -> ReleaseView {
        ReleaseView {
            version: self.version@,
            tag: self.tag@,
            sha1_windows: self.sha1_windows@,
            sha1_linux: self.sha1_linux@,
            sha1_darwin: self.sha1_darwin@,
        }
    }
}

/// The texts of a list of releases.
pub open spec fn release_views(v: Seq<KnownRelease>) -> Seq<ReleaseView> {
    v.map_values(|x: KnownRelease| x@)
}

/// The releases that can be installed, the newest first.
pub open spec fn release_table() -> Seq<ReleaseView> {
    seq![
        ReleaseView {
            version: "27.0.12077973"@,
            tag: "r27c"@,
            sha1_windows: "ac5f7762764b1f15341094e148ad4f847d050c38"@,
            sha1_linux: "090e8083a715fdb1a3e402d0763c388abb03fb4e"@,
            sha1_darwin: "04d8c43eb4e884c4b16bbf7733ac9179a13b7b20"@,
        },
        ReleaseView {
            version: "26.3.11579264"@,
            tag: "r26d"@,
            sha1_windows: "c7ea35ffe916082876611da1a6d5618d15430c29"@,
            sha1_linux: "fcdad75a765a46a9cf6560353f480db251d14765"@,
            sha1_darwin: "703100c3d721b04e09f02f3fddc5f1f5ced28b10"@,
        },
    ]
}

/// The releases that can be installed, the newest first.
pub fn known_releases() -> (r: Vec<KnownRelease>)
    ensures
        release_views(r@) == release_table(),
{
    let r = vec![
        KnownRelease {
            version: "27.0.12077973",
            tag: "r27c",
            sha1_windows: "ac5f7762764b1f15341094e148ad4f847d050c38",
            sha1_linux: "090e8083a715fdb1a3e402d0763c388abb03fb4e",
            sha1_darwin: "04d8c43eb4e884c4b16bbf7733ac9179a13b7b20",
        },
        KnownRelease {
            version: "26.3.11579264",
            tag: "r26d",
            sha1_windows: "c7ea35ffe916082876611da1a6d5618d15430c29",
            sha1_linux: "fcdad75a765a46a9cf6560353f480db251d14765",
            sha1_darwin: "703100c3d721b04e09f02f3fddc5f1f5ced28b10",
        },
    ];
    assert(release_views(r@) =~= release_table());
    r
}

/// The first release at or after `i` with the given version.
pub open spec fn release_from(table: Seq<ReleaseView>, version: Seq<char>, i: int) -> Option<
    ReleaseView,
>
    decreases table.len() - i,
{
    if i < 0 || i >= table.len() {
        None
    } else if table[i].version == version {
        Some(table[i])
    } else {
        release_from(table, version, i + 1)
    }
}

/// The release to use: the one asked for, or the newest where none is.
pub open spec fn release_for(version: Option<Seq<char>>) -> Option<ReleaseView> {
    match version {
        Some(v) => release_from(release_table(), v, 0),
        None => Some(release_table()[0]),
    }
}

/// The version that is asked for.
pub open spec fn asked_version(version: Option<&str>) -> Option<Seq<char>> {
    match version {
        Some(v) => Some(v@),
        None => None,
    }
}

/// The release to use: the one asked for, or the newest where none is.
pub fn select_release(version: Option<&str>) -> (r: Result<KnownRelease, NdkError>)
    ensures
        match r {
            Ok(x) => release_for(asked_version(version)) == Some(x@),
            Err(NdkError::UnknownVersion(v)) => release_for(asked_version(version)) is None
                && asked_version(version) == Some(v@),
            Err(_) => false,
        },
{
    let table = known_releases();
    assert(release_table().len() == 2);
    assert(release_table()[0] == table@[0]@);
    match version {
        None => Ok(table[0]),
        Some(v) => {
            for i in 0..table.len()
                invariant
                    version == Some(v),
                    release_views(table@) == release_table(),
                    release_from(release_table(), v@, 0) == release_from(
                        release_table(),
                        v@,
                        i as int,
                    ),
            {
                assert(release_table()[i as int] == table@[i as int]@);
                if same(table[i].version, v) {
                    return Ok(table[i]);
                }
            }
            Err(NdkError::UnknownVersion(v.to_owned()))
        },
    }
}

/// The numbers of a version.
pub open spec fn version_numbers(version: Seq<char>) -> Seq<nat> {
    split_all(version, '.').map_values(|part: Seq<char>| digits_value(part))
}

/// Whether a version is newer than another: at the first number in which they
/// differ its own is the greater, or it has more numbers and the others agree.
pub open spec fn is_newer(a: Seq<char>, b: Seq<char>) -> bool {
    let x = version_numbers(a);
    let y = version_numbers(b);
    exists|k: int|
        {
            &&& 0 <= k < x.len()
            &&& k <= y.len()
            &&& forall|j: int| 0 <= j < k ==> #[trigger] x[j] == y[j]
            &&& k == y.len() || #[trigger] x[k] > y[k]
        }
}

proof fn first_number(version: Seq<char>)
    requires
        version.contains('.'),
    ensures
        version_numbers(version).len() > 0,
        version_numbers(version)[0] == digits_value(
            version.take(find_char(version, '.', 0)),
        ),
{
    find_char_props(version, '.', 0);
    let e = find_char(version, '.', 0);
    let i = choose|i: int| 0 <= i < version.len() && version[i] == '.';
    assert(e < version.len());
    assert(split_all(version, '.')[0] == version.subrange(0, e));
    assert(version.subrange(0, e) =~= version.take(e));
}

/// No known release is newer than the first of the table, which is the one
/// used where no version is asked for.
pub proof fn default_release_is_newest(i: int)
    requires
        0 <= i < release_table().len(),
    ensures
        !is_newer(release_table()[i].version, release_for(None)->0.version),
{
    reveal_strlit("27.0.12077973");
    reveal_strlit("26.3.11579264");
    let a = "27.0.12077973"@;
    let b = "26.3.11579264"@;
    reveal_with_fuel(find_char, 4);
    assert(find_char(a, '.', 0) == 2);
    assert(find_char(b, '.', 0) == 2);
    reveal_with_fuel(digits_value, 4);
    let x = a.take(2);
    let y = b.take(2);
    assert(x.drop_last().drop_last() =~= seq![]);
    assert(y.drop_last().drop_last() =~= seq![]);
    assert(x[0] == '2' && x[1] == '7' && y[0] == '2' && y[1] == '6');
    assert(digits_value(x) == 27);
    assert(digits_value(y) == 26);
    assert(a[2] == '.' && b[2] == '.');
    first_number(a);
    first_number(b);
    if i == 1 && is_newer(b, a) {
        let u = version_numbers(b);
        let v = version_numbers(a);
        assert(u[0] == 26 && v[0] == 27);
        let k = choose|k: int|
            {
                &&& 0 <= k < u.len()
                &&& k <= v.len()
                &&& forall|j: int| 0 <= j < k ==> #[trigger] u[j] == v[j]
                &&& k == v.len() || #[trigger] u[k] > v[k]
            };
        if k > 0 {
            assert(u[0] == v[0]);
        }
    }
}

// ---------------------------------------------------------------------------
// Tools

/// The directory of the tools that run on the host.
pub open spec fn prebuilt_tag(host: HostOs) -> Seq<char> {
    match host {
        HostOs::Windows => "windows-x86_64"@,
        HostOs::MacOs => "darwin-x86_64"@,
        _ => "linux-x86_64"@,
    }
}

/// The directory of the tools that run on the host.
pub fn host_prebuilt_tag(host: HostOs) -> (r: &'static str)
    ensures
        r@ == prebuilt_tag(host),
{
    match host {
        HostOs::Windows => "windows-x86_64",
        HostOs::MacOs => "darwin-x86_64",
        _ => "linux-x86_64",
    }
}

/// Where the clang drivers of an NDK are.
pub open spec fn toolchain_dir(host: HostOs, root: Seq<char>) -> Seq<char> {
    joined_path(
        host,
        joined_path(
            host,
            joined_path(
                host,
                joined_path(host, joined_path(host, root, "toolchains"@), "llvm"@),
                "prebuilt"@,
            ),
            prebuilt_tag(host),
        ),
        "bin"@,
    )
}

/// The clang driver to link with. On Windows it is the executable itself, since
/// the script beside it does not pass every argument on unchanged; elsewhere
/// the driver for the target and API level.
pub open spec fn clang_path(
    host: HostOs,
    root: Seq<char>,
    clang_target: Seq<char>,
    api_level: u32,
    driver: Seq<char>,
) -> Seq<char> {
    joined_path(
        host,
        toolchain_dir(host, root),
        if host == HostOs::Windows {
            driver + ".exe"@
        } else {
            clang_target + decimal(api_level as nat) + "-"@ + driver
        },
    )
}

/// An unpacked NDK.
#[derive(Debug)]
pub struct NdkHome {
    pub root: String,
    pub version: String,
}

impl NdkHome {
    /// Where the clang drivers are.
    pub fn toolchain_bin(&self, host: HostOs) -> (r: String)
        ensures
            r@ == toolchain_dir(host, self.root@),
    {
        let a = join_path(host, &self.root, "toolchains");
        let b = join_path(host, &a, "llvm");
        let c = join_path(host, &b, "prebuilt");
        let d = join_path(host, &c, host_prebuilt_tag(host));
        join_path(host, &d, "bin")
    }

    fn driver(&self, host: HostOs, clang_target: &str, api_level: u32, driver: &str) -> (r: String)
        ensures
            r@ == clang_path(host, self.root@, clang_target@, api_level, driver@),
    {
        let name = if host == HostOs::Windows {
            concat2(driver, ".exe")
        } else {
            let mut n = clang_target.to_owned();
            push_decimal(&mut n, api_level as u64);
            n.append("-");
            n.append(driver);
            n
        };
        join_path(host, &self.toolchain_bin(host), &name)
    }

    /// The C driver, which is also the linker.
    pub fn clang_driver(&self, host: HostOs, clang_target: &str, api_level: u32) -> (r: String)
        ensures
            r@ == clang_path(host, self.root@, clang_target@, api_level, "clang"@),
    {
        self.driver(host, clang_target, api_level, "clang")
    }

    /// The C++ driver.
    pub fn clang_cxx_driver(&self, host: HostOs, clang_target: &str, api_level: u32) -> (r: String)
        ensures
            r@ == clang_path(host, self.root@, clang_target@, api_level, "clang++"@),
    {
        self.driver(host, clang_target, api_level, "clang++")
    }
}

/// On Windows the path of the toolchain never mixes separators: where the
/// NDK's root holds no forward slash, neither does the toolchain's path.
pub proof fn toolchain_path_keeps_separators(root: Seq<char>)
    requires
        !root.contains('/'),
    ensures
        !toolchain_dir(HostOs::Windows, root).contains('/'),
{
    reveal_strlit("toolchains");
    reveal_strlit("llvm");
    reveal_strlit("prebuilt");
    reveal_strlit("windows-x86_64");
    reveal_strlit("bin");
    let h = HostOs::Windows;
    assert(!"toolchains"@.contains('/') && !"llvm"@.contains('/') && !"prebuilt"@.contains('/'));
    assert(!"windows-x86_64"@.contains('/') && !"bin"@.contains('/'));
    join_keeps_backslashes(root, "toolchains"@);
    let a = joined_path(h, root, "toolchains"@);
    join_keeps_backslashes(a, "llvm"@);
    let b = joined_path(h, a, "llvm"@);
    join_keeps_backslashes(b, "prebuilt"@);
    let c = joined_path(h, b, "prebuilt"@);
    join_keeps_backslashes(c, "windows-x86_64"@);
    let d = joined_path(h, c, "windows-x86_64"@);
    join_keeps_backslashes(d, "bin"@);
}

// ---------------------------------------------------------------------------
// Installing

/// The host's name in download addresses, where the NDK is published for it.
pub open spec fn download_tag(host: HostOs) -> Option<Seq<char>> {
    match host {
        HostOs::Windows => Some("windows"@),
        HostOs::MacOs => Some("darwin"@),
        HostOs::Linux => Some("linux"@),
        HostOs::Other => None,
    }
}

/// The digest of a release's archive for the host.
pub open spec fn archive_sha1(release: ReleaseView, host: HostOs) -> Seq<char> {
    match host {
        HostOs::Windows => release.sha1_windows,
        HostOs::MacOs => release.sha1_darwin,
        _ => release.sha1_linux,
    }
}

/// The host's name in download addresses; `os` is its name in the error.
pub fn host_download_tag(host: HostOs, os: &str) -> (r: Result<&'static str, NdkError>)
    ensures
        match r {
            Ok(tag) => download_tag(host) == Some(tag@),
            Err(NdkError::UnsupportedHost(name)) => download_tag(host) is None && name@ == os@,
            Err(_) => false,
        },
{
    match host {
        HostOs::Windows => Ok("windows"),
        HostOs::MacOs => Ok("darwin"),
        HostOs::Linux => Ok("linux"),
        HostOs::Other => Err(NdkError::UnsupportedHost(os.to_owned())),
    }
}

/// Where a release is unpacked.
pub open spec fn ndk_root(host: HostOs, home: Seq<char>, version: Seq<char>) -> Seq<char> {
    joined_path(host, joined_path(host, joined_path(host, home, ".rusk"@), "ndk"@), version)
}

/// What has to be downloaded for a release.
#[derive(Debug)]
pub struct NdkDownload {
    pub url: String,
    pub archive_path: String,
    pub label: String,
    pub sha1: String,
}

/// Where the release to use is, or is to be unpacked.
pub fn ndk_location(host: HostOs, home: Option<&str>, version: Option<&str>) -> (r: Result<
    NdkHome,
    NdkError,
>)
    ensures
        match r {
            Ok(ndk) => {
                &&& release_for(asked_version(version)) is Some
                &&& home is Some
                &&& ndk.version@ == release_for(asked_version(version))->0.version
                &&& ndk.root@ == ndk_root(host, home->0@, ndk.version@)
            },
            Err(NdkError::UnknownVersion(v)) => release_for(asked_version(version)) is None
                && asked_version(version) == Some(v@),
            Err(NdkError::NoCacheDir) => release_for(asked_version(version)) is Some && home is None,
            Err(_) => false,
        },
{
    let release = match select_release(version) {
        Ok(x) => x,
        Err(e) => {
            return Err(e);
        },
    };
    match home {
        Some(h) => {
            let cache = join_path(host, &join_path(host, h, ".rusk"), "ndk");
            Ok(
                NdkHome {
                    root: join_path(host, &cache, release.version),
                    version: release.version.to_owned(),
                },
            )
        },
        None => Err(NdkError::NoCacheDir),
    }
}

/// The file name of the archive of a release for a host.
pub open spec fn archive_file(tag: Seq<char>, host_tag: Seq<char>) -> Seq<char> {
    "android-ndk-"@ + tag + "-"@ + host_tag + ".zip"@
}

/// The NDK to use and, where it is not yet completely unpacked, what to
/// download for it.
pub fn ensure_ndk(
    host: HostOs,
    os: &str,
    home: Option<&str>,
    version: Option<&str>,
    complete: bool,
) -> (r: Result<(NdkHome, Option<NdkDownload>), NdkError>)
    ensures
        match r {
            Ok((ndk, download)) => {
                let release = release_for(asked_version(version))->0;
                &&& release_for(asked_version(version)) is Some
                &&& home is Some
                &&& ndk.version@ == release.version
                &&& ndk.root@ == ndk_root(host, home->0@, release.version)
                &&& match download {
                    None => complete,
                    Some(d) => {
                        let file = archive_file(release.tag, download_tag(host)->0);
                        &&& !complete
                        &&& download_tag(host) is Some
                        &&& d.url@ == "https://dl.google.com/android/repository/"@ + file
                        &&& d.archive_path@ == joined_path(host, ndk.root@, file)
                        &&& d.label@ == "NDK "@ + release.version
                        &&& d.sha1@ == archive_sha1(release, host)
                    },
                }
            },
            Err(NdkError::UnknownVersion(v)) => release_for(asked_version(version)) is None
                && asked_version(version) == Some(v@),
            Err(NdkError::NoCacheDir) => release_for(asked_version(version)) is Some && home is None,
            Err(NdkError::UnsupportedHost(name)) => {
                &&& release_for(asked_version(version)) is Some
                &&& home is Some
                &&& !complete
                &&& download_tag(host) is None
                &&& name@ == os@
            },
            Err(_) => false,
        },
{
    let ndk = match ndk_location(host, home, version) {
        Ok(x) => x,
        Err(e) => {
            return Err(e);
        },
    };
    if complete {
        return Ok((ndk, None));
    }
    let release = match select_release(version) {
        Ok(x) => x,
        Err(e) => {
            return Err(e);
        },
    };
    let tag = match host_download_tag(host, os) {
        Ok(t) => t,
        Err(e) => {
            return Err(e);
        },
    };
    let mut file = "android-ndk-".to_owned();
    file.append(release.tag);
    file.append("-");
    file.append(tag);
    file.append(".zip");
    let sha1 = match host {
        HostOs::Windows => release.sha1_windows,
        HostOs::MacOs => release.sha1_darwin,
        _ => release.sha1_linux,
    };
    let download = NdkDownload {
        url: concat2("https://dl.google.com/android/repository/", &file),
        archive_path: join_path(host, &ndk.root, &file),
        label: concat2("NDK ", release.version),
        sha1: sha1.to_owned(),
    };
    Ok((ndk, Some(download)))
}

/// Whether a text is a whole SHA-1 digest in hexadecimal. Anything else in the
/// table stands for a digest that has not been filled in yet.
pub open spec fn is_pinned(sha1: Seq<char>) -> bool {
    sha1.len() == 40 && forall|i: int| 0 <= i < 40 ==> ascii_hex_digit(#[trigger] sha1[i])
}

fn pinned(sha1: &str) -> (r: bool)
    ensures
        r == is_pinned(sha1@),
{
    let v = chars_of(sha1);
    if v.len() != 40 {
        return false;
    }
    for i in 0..v.len()
        invariant
            v@ == sha1@,
            v.len() == 40,
            forall|j: int| 0 <= j < i ==> ascii_hex_digit(#[trigger] sha1@[j]),
    {
        if !is_hex_digit(v[i]) {
            assert(!ascii_hex_digit(sha1@[i as int]));
            return false;
        }
    }
    true
}

/// How a download compares with the digest that is published for it.
#[derive(Debug, Clone, Copy, PartialEq, Eq, Structural)]
pub enum ChecksumStatus {
    Matches,
    /// There is no digest to compare with; the user is warned.
    NotPinned,
}

/// Compares the digest of a downloaded archive with the published one.
pub fn compare_checksum(path: &str, expected: &str, actual: String) -> (r: Result<
    ChecksumStatus,
    NdkError,
>)
    ensures
        match r {
            Ok(ChecksumStatus::NotPinned) => !is_pinned(expected@),
            Ok(ChecksumStatus::Matches) => is_pinned(expected@) && actual@ == expected@,
            Err(NdkError::ChecksumMismatch { path: p, expected: e, actual: a }) => {
                &&& is_pinned(expected@)
                &&& actual@ != expected@
                &&& p@ == path@
                &&& e@ == expected@
                &&& a@ == actual@
            },
            Err(_) => false,
        },
{
    if !pinned(expected) {
        return Ok(ChecksumStatus::NotPinned);
    }
    if !same(&actual, expected) {
        return Err(
            NdkError::ChecksumMismatch {
                path: path.to_owned(),
                expected: expected.to_owned(),
                actual,
            },
        );
    }
    Ok(ChecksumStatus::Matches)
}

/// Checks a downloaded archive against the published digest.
pub fn verify_checksum(path: &str, expected: &str, data: &[u8]) -> (r: Result<
    ChecksumStatus,
    NdkError,
>)
    ensures
        match r {
            Ok(ChecksumStatus::NotPinned) => !is_pinned(expected@),
            Ok(ChecksumStatus::Matches) => is_pinned(expected@) && sha1_hex(data@) == expected@,
            Err(NdkError::ChecksumMismatch { path: p, expected: e, actual: a }) => {
                &&& is_pinned(expected@)
                &&& sha1_hex(data@) != expected@
                &&& p@ == path@
                &&& e@ == expected@
                &&& a@ == sha1_hex(data@)
            },
            Err(_) => false,
        },
{
    compare_checksum(path, expected, sha1_digest(data))
}

/// The digests of all known releases are filled in.
pub proof fn known_releases_are_pinned(i: int, host: HostOs)
    requires
        0 <= i < release_table().len(),
    ensures
        is_pinned(archive_sha1(release_table()[i], host)),
{
    reveal_strlit("ac5f7762764b1f15341094e148ad4f847d050c38");
    reveal_strlit("090e8083a715fdb1a3e402d0763c388abb03fb4e");
    reveal_strlit("04d8c43eb4e884c4b16bbf7733ac9179a13b7b20");
    reveal_strlit("c7ea35ffe916082876611da1a6d5618d15430c29");
    reveal_strlit("fcdad75a765a46a9cf6560353f480db251d14765");
    reveal_strlit("703100c3d721b04e09f02f3fddc5f1f5ced28b10");
}

// ---------------------------------------------------------------------------
// Installed build-tools

/// The greatest of the names; of equal ones any.
pub open spec fn greatest(names: Seq<Seq<char>>) -> Option<Seq<char>>
    decreases names.len(),
{
    if names.len() == 0 {
        None
    } else {
        match greatest(names.drop_last()) {
            Some(g) => if precedes(g, names.last()) {
                Some(names.last())
            } else {
                Some(g)
            },
            None => Some(names.last()),
        }
    }
}

/// The installed revision to use: the one the project names where it is there,
/// else the last in the order of their names.
pub open spec fn installed_revision(names: Seq<Seq<char>>, wanted: Seq<char>) -> Option<Seq<char>> {
    if names.contains(wanted) {
        Some(wanted)
    } else {
        greatest(names)
    }
}

fn find_greatest(names: &Vec<String>) -> (r: Option<String>)
    ensures
        opt_view(r) == greatest(views(names@)),
{
    let mut best: Option<String> = None;
    let ghost all = views(names@);
    assert(all.take(0) =~= seq![]);
    for i in 0..names.len()
        invariant
            all == views(names@),
            opt_view(best) == greatest(all.take(i as int)),
    {
        proof {
            assert(all.take(i + 1).drop_last() =~= all.take(i as int));
            assert(all[i as int] == names@[i as int]@);
        }
        let replace = match &best {
            Some(g) => is_before(g, &names[i]),
            None => true,
        };
        if replace {
            best = Some(names[i].clone());
        }
    }
    assert(all.take(all.len() as int) =~= all);
    best
}

/// The build-tools of an SDK that the user has installed at `sdk_root`, from the
/// names of the revisions below its `build-tools`; nothing where there are none.
pub fn locate_build_tools(
    host: HostOs,
    sdk_root: &str,
    revisions: &Vec<String>,
    wanted: &str,
) -> (r: Option<BuildTools>)
    ensures
        match (r, installed_revision(views(revisions@), wanted@)) {
            (Some(t), Some(v)) => {
                let dir = joined_path(host, joined_path(host, sdk_root@, "build-tools"@), v);
                &&& t.aapt2@ == joined_path(host, dir, "aapt2"@ + exe_suffix(host))
                &&& t.d8@ == joined_path(host, dir, "d8"@ + bat_suffix(host))
                &&& t.zipalign@ == joined_path(host, dir, "zipalign"@ + exe_suffix(host))
                &&& t.apksigner@ == joined_path(host, dir, "apksigner"@ + bat_suffix(host))
            },
            (None, None) => true,
            _ => false,
        },
{
    let revision = if has_string(revisions, wanted) {
        Some(wanted.to_owned())
    } else {
        find_greatest(revisions)
    };
    match revision {
        Some(v) => {
            let dir = join_path(host, &join_path(host, sdk_root, "build-tools"), &v);
            Some(
                BuildTools {
                    aapt2: join_path(host, &dir, &exe_name(host, "aapt2")),
                    d8: join_path(host, &dir, &bat_name(host, "d8")),
                    zipalign: join_path(host, &dir, &exe_name(host, "zipalign")),
                    apksigner: join_path(host, &dir, &bat_name(host, "apksigner")),
                },
            )
        },
        None => None,
    }
}

/// The names of the build-tools, to be looked up on the search path.
pub fn build_tool_names(host: HostOs) -> (r: BuildTools)
    ensures
        r.aapt2@ == "aapt2"@ + exe_suffix(host),
        r.d8@ == "d8"@ + bat_suffix(host),
        r.zipalign@ == "zipalign"@ + exe_suffix(host),
        r.apksigner@ == "apksigner"@ + bat_suffix(host),
{
    BuildTools {
        aapt2: exe_name(host, "aapt2"),
        d8: bat_name(host, "d8"),
        zipalign: exe_name(host, "zipalign"),
        apksigner: bat_name(host, "apksigner"),
    }
}

// ---------------------------------------------------------------------------
// Where the tools are

/// The tools lie below the NDK's root in the directory that is built for the host.
#[verifier::rlimit(40)]
pub proof fn toolchain_lies_below_root(host: HostOs, root: Seq<char>)
    requires
        steady(host, root),
    ensures
        components(host, toolchain_dir(host, root)) == components(host, root) + seq![
            "toolchains"@,
            "llvm"@,
            "prebuilt"@,
            (if host == HostOs::Windows {
                "windows"@
            } else if host == HostOs::MacOs {
                "darwin"@
            } else {
                "linux"@
            }) + "-x86_64"@,
            "bin"@,
        ],
        steady(host, toolchain_dir(host, root)),
{
    assert(one_name("toolchains"@)) by {
        reveal_strlit("toolchains");
        long_name_is_one_name("toolchains"@);
    }
    assert(one_name("llvm"@)) by {
        reveal_strlit("llvm");
        long_name_is_one_name("llvm"@);
    }
    assert(one_name("prebuilt"@)) by {
        reveal_strlit("prebuilt");
        long_name_is_one_name("prebuilt"@);
    }
    assert(one_name("bin"@)) by {
        reveal_strlit("bin");
        long_name_is_one_name("bin"@);
    }
    assert(one_name(prebuilt_tag(host))) by {
        reveal_strlit("windows-x86_64");
        reveal_strlit("darwin-x86_64");
        reveal_strlit("linux-x86_64");
        long_name_is_one_name(prebuilt_tag(host));
    }
    tags_agree(host);
    joined_5(host, root, "toolchains"@, "llvm"@, "prebuilt"@, prebuilt_tag(host), "bin"@);
}

/// What the host is called in the name of the tools' directory is what it is called in
/// the archive's name, with the processor behind it; hosts have different names.
pub proof fn tags_agree(host: HostOs)
    ensures
        download_tag(host) matches Some(tag) ==> prebuilt_tag(host) == tag + "-x86_64"@,
        download_tag(host) is None <==> host == HostOs::Other,
        prebuilt_tag(host) == (if host == HostOs::Windows {
            "windows"@
        } else if host == HostOs::MacOs {
            "darwin"@
        } else {
            "linux"@
        }) + "-x86_64"@,
        download_tag(HostOs::Windows) != download_tag(HostOs::MacOs),
        download_tag(HostOs::Windows) != download_tag(HostOs::Linux),
        download_tag(HostOs::MacOs) != download_tag(HostOs::Linux),
{
    reveal_strlit("windows");
    reveal_strlit("darwin");
    reveal_strlit("linux");
    reveal_strlit("-x86_64");
    reveal_strlit("windows-x86_64");
    reveal_strlit("darwin-x86_64");
    reveal_strlit("linux-x86_64");
    assert("windows"@ + "-x86_64"@ =~= "windows-x86_64"@);
    assert("darwin"@ + "-x86_64"@ =~= "darwin-x86_64"@);
    assert("linux"@ + "-x86_64"@ =~= "linux-x86_64"@);
}

/// A compiler lies among the tools. Its name begins with the target and the level that
/// it compiles for, and on Windows is the bare program, which is told them otherwise.
#[verifier::rlimit(40)]
pub proof fn compiler_is_for_target(
    host: HostOs,
    root: Seq<char>,
    clang_target: Seq<char>,
    api_level: u32,
    driver: Seq<char>,
)
    requires
        steady(host, root),
        one_name(driver),
        one_name(clang_target),
    ensures
        components(host, clang_path(host, root, clang_target, api_level, driver)) == components(
            host,
            toolchain_dir(host, root),
        ).push(
            if host == HostOs::Windows {
                driver + ".exe"@
            } else {
                clang_target + decimal(api_level as nat) + seq!['-'] + driver
            },
        ),
{
    toolchain_lies_below_root(host, root);
    let name = if host == HostOs::Windows {
        driver + ".exe"@
    } else {
        clang_target + decimal(api_level as nat) + "-"@ + driver
    };
    assert("-"@ =~= seq!['-']) by {
        reveal_strlit("-");
    }
    assert(one_name(name)) by {
        reveal_strlit(".exe");
        decimal_digits(api_level as nat);
        let level = decimal(api_level as nat);
        assert forall|i: int| 0 <= i < name.len() implies (#[trigger] name[i]) != '/' && name[i]
            != '\\' && name[i] != ':' by {
            if host == HostOs::Windows {
                if i < driver.len() {
                    assert(name[i] == driver[i]);
                } else {
                    assert(name[i] == ".exe"@[i - driver.len()]);
                }
            } else if i < clang_target.len() {
                assert(name[i] == clang_target[i]);
            } else if i < clang_target.len() + level.len() {
                assert(name[i] == level[i - clang_target.len()]);
            } else if i > clang_target.len() + level.len() {
                assert(name[i] == driver[i - clang_target.len() - level.len() - 1]);
            }
        }
        assert(name.len() > 2);
    }
    joined_components(host, toolchain_dir(host, root), name);
}

/// Off Windows, compilers for different levels are different programs.
pub proof fn levels_have_own_compilers(
    host: HostOs,
    root: Seq<char>,
    clang_target: Seq<char>,
    a: u32,
    b: u32,
    driver: Seq<char>,
)
    requires
        host != HostOs::Windows,
        steady(host, root),
        one_name(driver),
        one_name(clang_target),
    ensures
        clang_path(host, root, clang_target, a, driver) == clang_path(
            host,
            root,
            clang_target,
            b,
            driver,
        ) ==> a == b,
{
    compiler_is_for_target(host, root, clang_target, a, driver);
    compiler_is_for_target(host, root, clang_target, b, driver);
    let x = clang_target + decimal(a as nat) + seq!['-'] + driver;
    let y = clang_target + decimal(b as nat) + seq!['-'] + driver;
    let c = components(host, toolchain_dir(host, root));
    if clang_path(host, root, clang_target, a, driver) == clang_path(
        host,
        root,
        clang_target,
        b,
        driver,
    ) {
        assert(c.push(x).last() == x && c.push(y).last() == y);
        let n = clang_target.len() as int;
        let e = x.len() - driver.len() - 1;
        assert(x.subrange(n, e) =~= decimal(a as nat));
        assert(y.subrange(n, e) =~= decimal(b as nat));
        decimal_injective(a as nat, b as nat);
    }
}

/// An NDK lies below the user's home in a directory of its version.
#[verifier::rlimit(40)]
pub proof fn ndk_lies_below_home(host: HostOs, home: Seq<char>, version: Seq<char>)
    requires
        steady(host, home),
        one_name(version),
    ensures
        components(host, ndk_root(host, home, version)) == components(host, home) + seq![
            ".rusk"@,
            "ndk"@,
            version,
        ],
{
    assert(one_name(".rusk"@)) by {
        reveal_strlit(".rusk");
        long_name_is_one_name(".rusk"@);
    }
    assert(one_name("ndk"@)) by {
        reveal_strlit("ndk");
        long_name_is_one_name("ndk"@);
    }
    joined_3(host, home, ".rusk"@, "ndk"@, version);
}

/// The name of an archive says which release it is and which host it is for.
pub proof fn archive_is_for_host(tag: Seq<char>, host_tag: Seq<char>)
    requires
        !tag.contains('-'),
        !host_tag.contains('-'),
    ensures
        split_all(archive_file(tag, host_tag), '-') == seq![
            "android"@,
            "ndk"@,
            tag,
            host_tag + ".zip"@,
        ],
{
    let end = host_tag + ".zip"@;
    assert(!end.contains('-')) by {
        reveal_strlit(".zip");
        if end.contains('-') {
            let i = choose|i: int| 0 <= i < end.len() && end[i] == '-';
            if i < host_tag.len() {
                assert(host_tag[i] == '-');
            } else {
                assert(".zip"@[i - host_tag.len()] == '-');
            }
        }
    }
    reveal_strlit("android");
    reveal_strlit("ndk");
    reveal_strlit("android-ndk-");
    reveal_strlit("-");
    assert("android-ndk-"@ =~= "android"@ + seq!['-'] + "ndk"@ + seq!['-']);
    split_all_without("android"@, '-');
    let s1 = "android"@ + seq!['-'] + "ndk"@;
    split_on("android"@, "ndk"@, '-');
    let s2 = s1 + seq!['-'] + tag;
    split_on(s1, tag, '-');
    let s3 = s2 + seq!['-'] + end;
    split_on(s2, end, '-');
    assert(archive_file(tag, host_tag) =~= s3);
}

/// An archive is held against the digest that is known for the host it is for; the
/// release has another for every other host.
pub proof fn digest_is_of_host(i: int, a: HostOs, b: HostOs)
    requires
        0 <= i < release_table().len(),
        download_tag(a) is Some,
        download_tag(b) is Some,
    ensures
        archive_sha1(release_table()[i], a) == archive_sha1(release_table()[i], b) <==> a == b,
        is_pinned(archive_sha1(release_table()[i], a)),
        archive_sha1(release_table()[i], HostOs::Windows) == release_table()[i].sha1_windows,
        archive_sha1(release_table()[i], HostOs::MacOs) == release_table()[i].sha1_darwin,
        archive_sha1(release_table()[i], HostOs::Linux) == release_table()[i].sha1_linux,
{
    known_releases_are_pinned(i, a);
    reveal_strlit("ac5f7762764b1f15341094e148ad4f847d050c38");
    reveal_strlit("090e8083a715fdb1a3e402d0763c388abb03fb4e");
    reveal_strlit("04d8c43eb4e884c4b16bbf7733ac9179a13b7b20");
    reveal_strlit("c7ea35ffe916082876611da1a6d5618d15430c29");
    reveal_strlit("fcdad75a765a46a9cf6560353f480db251d14765");
    reveal_strlit("703100c3d721b04e09f02f3fddc5f1f5ced28b10");
    assert("ac5f7762764b1f15341094e148ad4f847d050c38"@[0] == 'a');
    assert("090e8083a715fdb1a3e402d0763c388abb03fb4e"@[1] == '9');
    assert("04d8c43eb4e884c4b16bbf7733ac9179a13b7b20"@[1] == '4');
    assert("04d8c43eb4e884c4b16bbf7733ac9179a13b7b20"@[0] == '0');
    assert("090e8083a715fdb1a3e402d0763c388abb03fb4e"@[0] == '0');
    assert("c7ea35ffe916082876611da1a6d5618d15430c29"@[0] == 'c');
    assert("fcdad75a765a46a9cf6560353f480db251d14765"@[0] == 'f');
    assert("703100c3d721b04e09f02f3fddc5f1f5ced28b10"@[0] == '7');
}

/// The release that is asked for is the one of that version, and is found exactly where
/// it is known.
pub proof fn asked_release_is_found(version: Seq<char>)
    ensures
        match release_for(Some(version)) {
            Some(r) => release_table().contains(r) && r.version == version,
            None => forall|i: int|
                0 <= i < release_table().len() ==> (#[trigger] release_table()[i]).version
                    != version,
        },
{
    let t = release_table();
    reveal_with_fuel(release_from, 4);
    assert(t[0] == release_table()[0] && t[1] == release_table()[1]);
}

/// The greatest of several names is one of them, and none comes behind it.
pub proof fn greatest_is_last(names: Seq<Seq<char>>)
    ensures
        match greatest(names) {
            Some(g) => names.contains(g) && (forall|i: int|
                0 <= i < names.len() ==> !precedes(g, #[trigger] names[i])),
            None => names.len() == 0,
        },
    decreases names.len(),
{
    if names.len() > 0 {
        let rest = names.drop_last();
        greatest_is_last(rest);
        let last = names.last();
        assert(names[names.len() - 1] == last);
        let g = greatest(names)->0;
        if let Some(h) = greatest(rest) {
            assert(names.contains(h)) by {
                let k = choose|k: int| 0 <= k < rest.len() && rest[k] == h;
                assert(names[k] == h);
            }
            if h != last {
                precedes_total(h, last);
            }
        }
        assert forall|i: int| 0 <= i < names.len() implies !precedes(g, #[trigger] names[i]) by {
            precedes_irreflexive(names[i]);
            if i < rest.len() {
                assert(rest[i] == names[i]);
                if g == last && greatest(rest) is Some && precedes(g, names[i]) {
                    let h = greatest(rest)->0;
                    precedes_from_transitive(h, g, names[i], 0);
                }
            }
        }
    }
}

proof fn precedes_irreflexive(a: Seq<char>)
    ensures
        !precedes(a, a),
{
    if precedes(a, a) {
        precedes_from_asymmetric(a, a, 0);
    }
}

/// The build tools that are used are those that are asked for where they are there, and
/// else the last that is there.
pub proof fn revision_is_installed(names: Seq<Seq<char>>, wanted: Seq<char>)
    ensures
        installed_revision(names, wanted) is None <==> names.len() == 0,
        installed_revision(names, wanted) matches Some(v) ==> names.contains(v) && (v == wanted || (
        !names.contains(wanted) && (forall|i: int|
            0 <= i < names.len() ==> !precedes(v, #[trigger] names[i])))),
        names.contains(wanted) ==> installed_revision(names, wanted) == Some(wanted),
{
    greatest_is_last(names);
}

/// The message of an error tells what it is about; of a wrong checksum which is which.
#[verifier::rlimit(40)]
pub proof fn message_tells_all(e: NdkError)
    ensures
        match e {
            NdkError::UnsupportedHost(os) => contains_text(e.text(), os@),
            NdkError::UnknownVersion(v) => contains_text(e.text(), v@),
            NdkError::ChecksumMismatch { path, expected, actual } => contains_text(e.text(), "for "@ + path@) && contains_text(e.text(), "expected "@ + expected@) && contains_text(e.text(), "got "@ + actual@),
            _ => e.text().len() > 0,
        },
{
    match e {
        NdkError::UnsupportedHost(os) => {
            tells("unsupported host OS for NDK download: "@, os@);
        },
        NdkError::UnknownVersion(v) => {
            tells("no known NDK release matches version \""@, v@);
            tells_more("no known NDK release matches version \""@ + v@, "\"; pin a known version in Rusk.toml, e.g. \"27.0.12077973\""@, v@);
        },
        NdkError::ChecksumMismatch { path, expected, actual } => {
            assert("checksum mismatch for "@ =~= "checksum mismatch "@ + "for "@) by {
                reveal_strlit("checksum mismatch for ");
                reveal_strlit("checksum mismatch ");
                reveal_strlit("for ");
            }
            tells("checksum mismatch "@, "for "@ + path@);
            behind_three("checksum mismatch "@, "for "@, path@, seq![]);
            tells_more("checksum mismatch for "@ + path@, ": expected "@, "for "@ + path@);
            tells_more("checksum mismatch for "@ + path@ + ": expected "@, expected@, "for "@ + path@);
            tells_more("checksum mismatch for "@ + path@ + ": expected "@ + expected@, ", got "@, "for "@ + path@);
            tells_more("checksum mismatch for "@ + path@ + ": expected "@ + expected@ + ", got "@, actual@, "for "@ + path@);
            assert(": expected "@ =~= ": "@ + "expected "@) by {
                reveal_strlit(": expected ");
                reveal_strlit(": ");
                reveal_strlit("expected ");
            }
            tells_behind("checksum mismatch for "@ + path@, ": "@, "expected "@, expected@);
            tells_more("checksum mismatch for "@ + path@ + ": expected "@ + expected@, ", got "@, "expected "@ + expected@);
            tells_more("checksum mismatch for "@ + path@ + ": expected "@ + expected@ + ", got "@, actual@, "expected "@ + expected@);
            assert(", got "@ =~= ", "@ + "got "@) by {
                reveal_strlit(", got ");
                reveal_strlit(", ");
                reveal_strlit("got ");
            }
            tells_behind("checksum mismatch for "@ + path@ + ": expected "@ + expected@, ", "@, "got "@, actual@);
        },
        _ => {
            reveal_lens();
        },
    }
}

proof fn reveal_lens()
    ensures
        "could not determine a home/cache directory for this user"@.len() > 0,
{
    reveal_strlit("could not determine a home/cache directory for this user");
}

} // verus!
