//! Host operating systems and the text of their paths.
use crate::text::{
    ascii_letter, chars_of, concat2, find_last, find_last_props, is_letter, join, joined, lowered,
    one_if, opt_view, replace_char, replaced, same, text_of, to_lower_text, views,
};
use vstd::prelude::*;

verus! {

/// The operating system the toolchain runs on.
#[derive(Debug, Clone, Copy, PartialEq, Eq, Structural)]
pub enum HostOs {
    Windows,
    MacOs,
    Linux,
    Other,
}

/// The processor architecture the toolchain runs on.
#[derive(Debug, Clone, Copy, PartialEq, Eq, Structural)]
pub enum HostArch {
    Arm64,
    Other,
}

/// The suffix of native executables.
pub open spec fn exe_suffix(host: HostOs) -> Seq<char> {
    if host == HostOs::Windows {
        ".exe"@
    } else {
        ""@
    }
}

/// The suffix of script launchers.
pub open spec fn bat_suffix(host: HostOs) -> Seq<char> {
    if host == HostOs::Windows {
        ".bat"@
    } else {
        ""@
    }
}

/// The name of a native executable on the host.
pub fn exe_name(host: HostOs, name: &str) -> (r: String)
    ensures
        r@ == name@ + exe_suffix(host),
{
    concat2(
        name,
        if host == HostOs::Windows {
            ".exe"
        } else {
            ""
        },
    )
}

/// The name of a script launcher on the host.
pub fn bat_name(host: HostOs, name: &str) -> (r: String)
    ensures
        r@ == name@ + bat_suffix(host),
{
    concat2(
        name,
        if host == HostOs::Windows {
            ".bat"
        } else {
            ""
        },
    )
}

/// Whether `c` separates the components of a path.
pub open spec fn separator(host: HostOs, c: char) -> bool {
    c == '/' || (host == HostOs::Windows && c == '\\')
}

/// The separator that the host writes.
pub open spec fn main_separator(host: HostOs) -> char {
    if host == HostOs::Windows {
        '\\'
    } else {
        '/'
    }
}

/// Whether a path begins with a drive such as `C:`.
pub open spec fn has_drive(host: HostOs, p: Seq<char>) -> bool {
    host == HostOs::Windows && p.len() >= 2 && ascii_letter(p[0]) && p[1] == ':'
}

// ---------------------------------------------------------------------------
// Prefixes

/// What a path on Windows begins with.
#[derive(Debug, Clone, Copy, PartialEq, Eq, Structural)]
pub enum Prefix {
    Nothing,
    /// `C:`
    Drive,
    /// `\\server\share`
    Share,
    /// `\\.\device`
    Device,
    /// `\\?\C:`
    VerbatimDrive,
    /// `\\?\UNC\server\share`
    VerbatimShare,
    /// `\\?\name`
    Verbatim,
}

impl Prefix {
    /// Whether the rest of the path is taken as it stands: only backslashes
    /// separate, and a dot is a name.
    pub open spec fn verbatim(self) -> bool {
        self == Prefix::VerbatimDrive || self == Prefix::VerbatimShare || self == Prefix::Verbatim
    }

    /// Whether the rest of the path is taken as it stands.
    pub fn is_verbatim(&self) -> (r: bool)
        ensures
            r == self.verbatim(),
    {
        *self == Prefix::VerbatimDrive || *self == Prefix::VerbatimShare || *self
            == Prefix::Verbatim
    }
}

/// Whether `c` separates the components of a path, which may be a verbatim one.
pub open spec fn splits(host: HostOs, verbatim: bool, c: char) -> bool {
    if verbatim {
        c == '\\'
    } else {
        separator(host, c)
    }
}

/// The first separator at or after `i`; the length where there is none.
pub open spec fn find_separator(host: HostOs, verbatim: bool, p: Seq<char>, i: int) -> int
    decreases p.len() - i,
{
    if i < 0 || i >= p.len() {
        p.len() as int
    } else if splits(host, verbatim, p[i]) {
        i
    } else {
        find_separator(host, verbatim, p, i + 1)
    }
}

/// What `find_separator` finds: the first separator, or the length.
pub proof fn find_separator_props(host: HostOs, verbatim: bool, p: Seq<char>, i: int)
    requires
        0 <= i <= p.len(),
    ensures
        i <= find_separator(host, verbatim, p, i) <= p.len(),
        find_separator(host, verbatim, p, i) < p.len() ==> splits(
            host,
            verbatim,
            p[find_separator(host, verbatim, p, i)],
        ),
    decreases p.len() - i,
{
    if i < p.len() && !splits(host, verbatim, p[i]) {
        find_separator_props(host, verbatim, p, i + 1);
    }
}

/// Where two names that begin at `from` and a separator between them end. Without
/// the second the first one ends it.
pub open spec fn share_end(host: HostOs, verbatim: bool, p: Seq<char>, from: int) -> int {
    let e = find_separator(host, verbatim, p, from);
    if e + 1 < p.len() {
        let f = find_separator(host, verbatim, p, e + 1);
        if f > e + 1 {
            f
        } else {
            e
        }
    } else {
        e
    }
}

/// Whether a path begins with two separators.
pub open spec fn begins_with_two(host: HostOs, p: Seq<char>) -> bool {
    p.len() >= 2 && separator(host, p[0]) && separator(host, p[1])
}

/// Whether a path begins with `\\?\`, where forward slashes do not count.
pub open spec fn begins_verbatim(p: Seq<char>) -> bool {
    p.len() >= 4 && p[0] == '\\' && p[1] == '\\' && p[2] == '?' && p[3] == '\\'
}

/// Whether a path begins with `\\.\`.
pub open spec fn begins_with_device(host: HostOs, p: Seq<char>) -> bool {
    begins_with_two(host, p) && p.len() >= 4 && p[2] == '.' && separator(host, p[3])
}

/// Whether a verbatim path goes on with `UNC\`.
pub open spec fn verbatim_share(host: HostOs, p: Seq<char>) -> bool {
    p.len() >= 8 && p[4] == 'U' && p[5] == 'N' && p[6] == 'C' && separator(host, p[7])
}

/// Whether a verbatim path goes on with a drive and nothing else before the next
/// separator.
pub open spec fn verbatim_drive(host: HostOs, p: Seq<char>) -> bool {
    p.len() >= 6 && ascii_letter(p[4]) && p[5] == ':' && (p.len() == 6 || separator(host, p[6]))
}

/// What a path on Windows begins with, and where that ends. Two separators begin a
/// share where a server and a share follow.
#[verifier::opaque]
pub open spec fn windows_prefix(p: Seq<char>) -> (Prefix, int) {
    let host = HostOs::Windows;
    if begins_verbatim(p) {
        if verbatim_share(host, p) {
            (Prefix::VerbatimShare, share_end(host, true, p, 8))
        } else if verbatim_drive(host, p) {
            (Prefix::VerbatimDrive, 6)
        } else {
            (Prefix::Verbatim, find_separator(host, true, p, 4))
        }
    } else if begins_with_device(host, p) {
        (Prefix::Device, find_separator(host, false, p, 4))
    } else if begins_with_two(host, p) {
        let e = find_separator(host, false, p, 2);
        let f = share_end(host, false, p, 2);
        if e > 2 && f > e {
            (Prefix::Share, f)
        } else {
            (Prefix::Nothing, 0)
        }
    } else if has_drive(host, p) {
        (Prefix::Drive, 2)
    } else {
        (Prefix::Nothing, 0)
    }
}

/// What a path begins with, and where that ends. Only Windows has prefixes.
pub open spec fn prefix_of(host: HostOs, p: Seq<char>) -> (Prefix, int) {
    if host == HostOs::Windows {
        windows_prefix(p)
    } else {
        (Prefix::Nothing, 0)
    }
}

/// A prefix ends within the path.
pub proof fn prefix_of_props(host: HostOs, p: Seq<char>)
    ensures
        0 <= prefix_of(host, p).1 <= p.len(),
        prefix_of(host, p).0 == Prefix::Nothing ==> prefix_of(host, p).1 == 0,
{
    reveal(windows_prefix);
    if host == HostOs::Windows {
        if begins_verbatim(p) {
            if verbatim_share(host, p) {
                share_end_props(host, true, p, 8);
            } else {
                find_separator_props(host, true, p, 4);
            }
        } else if begins_with_device(host, p) {
            find_separator_props(host, false, p, 4);
        } else if begins_with_two(host, p) {
            share_end_props(host, false, p, 2);
        }
    }
}

proof fn share_end_props(host: HostOs, verbatim: bool, p: Seq<char>, from: int)
    requires
        0 <= from <= p.len(),
    ensures
        from <= share_end(host, verbatim, p, from) <= p.len(),
{
    find_separator_props(host, verbatim, p, from);
    let e = find_separator(host, verbatim, p, from);
    if e + 1 < p.len() {
        find_separator_props(host, verbatim, p, e + 1);
    }
}

fn is_split(host: HostOs, verbatim: bool, c: char) -> (r: bool)
    ensures
        r == splits(host, verbatim, c),
{
    if verbatim {
        c == '\\'
    } else {
        is_separator(host, c)
    }
}

fn find_separator_from(host: HostOs, verbatim: bool, v: &Vec<char>, from: usize) -> (r: usize)
    requires
        from <= v.len(),
    ensures
        r == find_separator(host, verbatim, v@, from as int),
        from <= r <= v.len(),
{
    let mut e: usize = from;
    while e < v.len() && !is_split(host, verbatim, v[e])
        invariant
            from <= e <= v.len(),
            find_separator(host, verbatim, v@, from as int) == find_separator(
                host,
                verbatim,
                v@,
                e as int,
            ),
        decreases v.len() - e,
    {
        e += 1;
    }
    e
}

fn find_share_end(host: HostOs, verbatim: bool, v: &Vec<char>, from: usize) -> (r: usize)
    requires
        from <= v.len(),
    ensures
        r == share_end(host, verbatim, v@, from as int),
        from <= r <= v.len(),
{
    let e = find_separator_from(host, verbatim, v, from);
    if e < v.len() && e + 1 < v.len() {
        let f = find_separator_from(host, verbatim, v, e + 1);
        if f > e + 1 {
            f
        } else {
            e
        }
    } else {
        e
    }
}

/// What a path begins with, and where that ends.
fn find_prefix(host: HostOs, v: &Vec<char>) -> (r: (Prefix, usize))
    ensures
        r.0 == prefix_of(host, v@).0,
        r.1 == prefix_of(host, v@).1,
        r.1 <= v.len(),
{
    proof {
        reveal(windows_prefix);
    }
    if host != HostOs::Windows {
        return (Prefix::Nothing, 0);
    }
    if v.len() >= 4 && v[0] == '\\' && v[1] == '\\' && v[2] == '?' && v[3] == '\\' {
        if v.len() >= 8 && v[4] == 'U' && v[5] == 'N' && v[6] == 'C' && is_separator(host, v[7]) {
            return (Prefix::VerbatimShare, find_share_end(host, true, v, 8));
        }
        if v.len() >= 6 && is_letter(v[4]) && v[5] == ':' && (v.len() == 6 || is_separator(
            host,
            v[6],
        )) {
            return (Prefix::VerbatimDrive, 6);
        }
        return (Prefix::Verbatim, find_separator_from(host, true, v, 4));
    }
    if v.len() >= 2 && is_separator(host, v[0]) && is_separator(host, v[1]) {
        if v.len() >= 4 && v[2] == '.' && is_separator(host, v[3]) {
            return (Prefix::Device, find_separator_from(host, false, v, 4));
        }
        let e = find_separator_from(host, false, v, 2);
        let f = find_share_end(host, false, v, 2);
        if e > 2 && f > e {
            return (Prefix::Share, f);
        }
        return (Prefix::Nothing, 0);
    }
    if v.len() >= 2 && is_letter(v[0]) && v[1] == ':' {
        return (Prefix::Drive, 2);
    }
    (Prefix::Nothing, 0)
}

/// Whether a path begins with a separator.
pub open spec fn rooted(host: HostOs, p: Seq<char>) -> bool {
    p.len() > 0 && separator(host, p[0])
}

// ---------------------------------------------------------------------------
// Names

/// The names in a path from position `i` on: what stands between separators, without
/// empty parts, and but for verbatim paths without single dots; one dot at the very
/// beginning stays where `keep_dot`.
pub open spec fn names_from(
    host: HostOs,
    verbatim: bool,
    p: Seq<char>,
    i: int,
    keep_dot: bool,
) -> Seq<Seq<char>>
    decreases p.len() - i,
    when 0 <= i <= p.len()
    via names_from_decreases
{
    let e = find_separator(host, verbatim, p, i);
    let name = p.subrange(i, e);
    let here = if name.len() == 0 || (name == seq!['.'] && !keep_dot && !verbatim) {
        seq![]
    } else {
        seq![name]
    };
    if e >= p.len() {
        here
    } else {
        here + names_from(host, verbatim, p, e + 1, false)
    }
}

#[via_fn]
proof fn names_from_decreases(
    host: HostOs,
    verbatim: bool,
    p: Seq<char>,
    i: int,
    keep_dot: bool,
) {
    find_separator_props(host, verbatim, p, i);
}

fn push_names(host: HostOs, verbatim: bool, v: &Vec<char>, from: usize, keep_dot: bool, out: &mut Vec<
    String,
>)
    requires
        from <= v.len(),
    ensures
        views(final(out)@) == views(old(out)@) + names_from(
            host,
            verbatim,
            v@,
            from as int,
            keep_dot,
        ),
{
    let ghost start = views(out@);
    let mut i: usize = from;
    let mut dot = keep_dot;
    loop
        invariant
            i <= v.len(),
            from <= v.len(),
            start == views(old(out)@),
            views(out@) + names_from(host, verbatim, v@, i as int, dot) == start + names_from(
                host,
                verbatim,
                v@,
                from as int,
                keep_dot,
            ),
        decreases v.len() - i,
    {
        let e = find_separator_from(host, verbatim, v, i);
        let ghost so_far = views(out@);
        let name = text_of(v, i, e);
        let ghost here = if name@.len() == 0 || (name@ == seq!['.'] && !dot && !verbatim) {
            seq![]
        } else {
            seq![name@]
        };
        let is_dot = e - i == 1 && v[i] == '.';
        proof {
            if is_dot {
                assert(name@ =~= seq!['.']);
            } else if name@ == seq!['.'] {
                assert(name@[0] == v@[i as int]);
            }
        }
        if !(e == i || (is_dot && !dot && !verbatim)) {
            let ghost before = out@;
            let ghost text = name@;
            assert(text.len() == e - i);
            assert(here == seq![text]);
            out.push(name);
            assert(out@ == before.push(name));
            assert(views(out@) =~= so_far.push(text));
            assert(so_far.push(text) =~= so_far + here);
        } else {
            assert(views(out@) =~= so_far + here);
        }
        if e == v.len() {
            assert(names_from(host, verbatim, v@, i as int, dot) == here);
            return ;
        }
        proof {
            assert(views(out@) + names_from(host, verbatim, v@, e + 1, false) =~= so_far
                + names_from(host, verbatim, v@, i as int, dot));
        }
        i = e + 1;
        dot = false;
    }
}

// ---------------------------------------------------------------------------
// Joining

/// Whether a separator has to be written between `base` and what is joined onto it:
/// not behind another, and not behind a drive alone.
pub open spec fn needs_separator(host: HostOs, base: Seq<char>) -> bool {
    base.len() > 0 && !separator(host, base.last()) && !(prefix_of(host, base) == (
        Prefix::Drive,
        base.len() as int,
    ))
}

/// Whether a name stands for nothing but itself.
pub open spec fn is_name(name: Seq<char>) -> bool {
    name != seq!['.'] && name != seq!['.', '.']
}

/// Where the first `n` of more names lead from `names`: two dots lead up, where there
/// is a name to go up from.
pub open spec fn walked(names: Seq<Seq<char>>, more: Seq<Seq<char>>, n: nat) -> Seq<Seq<char>>
    decreases n,
{
    if n == 0 || n > more.len() {
        names
    } else {
        let here = walked(names, more, (n - 1) as nat);
        if more[n - 1] == seq!['.', '.'] {
            if here.len() > 0 && is_name(here.last()) {
                here.drop_last()
            } else {
                here
            }
        } else {
            here.push(more[n - 1])
        }
    }
}

/// Where the names of a path begin: behind its prefix and its root.
pub open spec fn body_start(host: HostOs, p: Seq<char>) -> int {
    let n = prefix_of(host, p).1;
    if rooted(host, p.skip(n)) {
        n + 1
    } else {
        n
    }
}

/// A relative or rooted path taken relative to a verbatim one, which has no room for
/// dots: they are resolved.
pub open spec fn joined_verbatim(host: HostOs, base: Seq<char>, part: Seq<char>) -> Seq<char> {
    let prefix = base.take(prefix_of(host, base).1);
    let root = rooted(host, part) || body_start(host, base) > prefix.len();
    let names = if rooted(host, part) {
        seq![]
    } else {
        names_from(host, true, base, body_start(host, base), false)
    };
    let more = names_from(host, false, part, 0, false);
    let all = walked(names, more, more.len());
    if root || all.len() > 0 {
        prefix.push('\\') + joined(all, seq!['\\'])
    } else {
        prefix
    }
}

/// The path `part` taken relative to `base`. One that is absolute or has a prefix of
/// its own replaces it; one that begins with a separator keeps its prefix alone.
pub open spec fn joined_path(host: HostOs, base: Seq<char>, part: Seq<char>) -> Seq<char> {
    let (kind, n) = prefix_of(host, base);
    if prefix_of(host, part).0 != Prefix::Nothing {
        part
    } else if kind.verbatim() && part.len() > 0 {
        joined_verbatim(host, base, part)
    } else if rooted(host, part) {
        base.take(n) + part
    } else if needs_separator(host, base) {
        base.push(main_separator(host)) + part
    } else {
        base + part
    }
}

/// Whether `c` separates the components of a path.
pub fn is_separator(host: HostOs, c: char) -> (r: bool)
    ensures
        r == separator(host, c),
{
    c == '/' || (host == HostOs::Windows && c == '\\')
}

fn walk(names: Vec<String>, more: &Vec<String>) -> (r: Vec<String>)
    ensures
        views(r@) == walked(views(names@), views(more@), more@.len()),
{
    let ghost start = views(names@);
    let ghost all = views(more@);
    let mut out = names;
    for i in 0..more.len()
        invariant
            all == views(more@),
            views(out@) == walked(start, all, i as nat),
    {
        let ghost here = views(out@);
        proof {
            reveal_strlit("..");
            reveal_strlit(".");
            assert(".."@ =~= seq!['.', '.']);
            assert("."@ =~= seq!['.']);
            assert(all[i as int] == more@[i as int]@);
        }
        if same(&more[i], "..") {
            if out.len() > 0 {
                let last = out.len() - 1;
                assert(here.last() == out@[last as int]@);
                if !same(&out[last], ".") && !same(&out[last], "..") {
                    out.pop();
                    assert(views(out@) =~= here.drop_last());
                }
            }
        } else {
            out.push(more[i].clone());
            assert(views(out@) =~= here.push(all[i as int]));
        }
    }
    out
}

fn join_verbatim(host: HostOs, b: &Vec<char>, n: usize, p: &Vec<char>) -> (r: String)
    requires
        n == prefix_of(host, b@).1,
        n <= b.len(),
    ensures
        r@ == joined_verbatim(host, b@, p@),
{
    let goes_to_root = p.len() > 0 && is_separator(host, p[0]);
    let mut start = n;
    if n < b.len() && is_separator(host, b[n]) {
        start = n + 1;
    }
    proof {
        if n < b.len() {
            assert(b@.skip(n as int)[0] == b@[n as int]);
        }
        assert(start == body_start(host, b@));
    }
    let mut names: Vec<String> = Vec::new();
    assert(views(names@) =~= seq![]);
    if !goes_to_root {
        push_names(host, true, b, start, false, &mut names);
        assert(views(names@) =~= names_from(host, true, b@, start as int, false));
    }
    let mut more: Vec<String> = Vec::new();
    push_names(host, false, p, 0, false, &mut more);
    assert(views(more@) =~= names_from(host, false, p@, 0, false));
    let all = walk(names, &more);
    let mut out = text_of(b, 0, n);
    assert(out@ =~= b@.take(n as int));
    assert(views(all@).len() == all.len());
    if goes_to_root || start > n || all.len() > 0 {
        out.push('\\');
        proof {
            reveal_strlit("\\");
            assert("\\"@ =~= seq!['\\']);
        }
        out.append(&join(&all, "\\"));
    }
    out
}

/// Joins `part` onto `base` as the host does.
pub fn join_path(host: HostOs, base: &str, part: &str) -> (r: String)
    ensures
        r@ == joined_path(host, base@, part@),
{
    let b = chars_of(base);
    let p = chars_of(part);
    if find_prefix(host, &p).0 != Prefix::Nothing {
        return part.to_owned();
    }
    let (kind, n) = find_prefix(host, &b);
    if kind.is_verbatim() && p.len() > 0 {
        return join_verbatim(host, &b, n, &p);
    }
    if p.len() > 0 && is_separator(host, p[0]) {
        let mut out = text_of(&b, 0, n);
        assert(out@ =~= base@.take(n as int));
        out.append(part);
        return out;
    }
    let mut out = base.to_owned();
    if b.len() > 0 && !is_separator(host, b[b.len() - 1]) && !(kind == Prefix::Drive && n
        == b.len()) {
        if host == HostOs::Windows {
            out.push('\\');
        } else {
            out.push('/');
        }
    }
    out.append(part);
    out
}

/// A name without separators or colons, which a path reads as one relative component.
pub open spec fn plain_name(name: Seq<char>) -> bool {
    name.len() > 0 && forall|i: int|
        0 <= i < name.len() ==> (#[trigger] name[i]) != '/' && name[i] != '\\' && name[i] != ':'
}

/// Joining a plain name onto a path that is not verbatim keeps the path and writes
/// only the host's own separator.
pub proof fn join_plain_name(host: HostOs, base: Seq<char>, name: Seq<char>)
    requires
        plain_name(name),
        !prefix_of(host, base).0.verbatim(),
    ensures
        joined_path(host, base, name) == (if needs_separator(host, base) {
            base.push(main_separator(host)) + name
        } else {
            base + name
        }),
{
    reveal(windows_prefix);
    assert(name[0] != '/');
    if name.len() >= 2 {
        assert(name[1] != ':');
    }
}

proof fn names_without_slash(p: Seq<char>, verbatim: bool, i: int, keep_dot: bool)
    requires
        0 <= i <= p.len(),
        !p.contains('/'),
    ensures
        forall|k: int|
            0 <= k < names_from(HostOs::Windows, verbatim, p, i, keep_dot).len()
                ==> !(#[trigger] names_from(HostOs::Windows, verbatim, p, i, keep_dot)[k]).contains(
                '/',
            ),
    decreases p.len() - i,
{
    let h = HostOs::Windows;
    find_separator_props(h, verbatim, p, i);
    let e = find_separator(h, verbatim, p, i);
    let name = p.subrange(i, e);
    assert(!name.contains('/')) by {
        if name.contains('/') {
            let k = choose|k: int| 0 <= k < name.len() && name[k] == '/';
            assert(p[i + k] == '/');
        }
    }
    if e < p.len() {
        names_without_slash(p, verbatim, e + 1, false);
        let rest = names_from(h, verbatim, p, e + 1, false);
        let all = names_from(h, verbatim, p, i, keep_dot);
        assert forall|k: int| 0 <= k < all.len() implies !(#[trigger] all[k]).contains('/') by {
            let n = all.len() - rest.len();
            if k >= n {
                assert(all[k] == rest[k - n]);
            }
        }
    }
}

proof fn walked_without_slash(names: Seq<Seq<char>>, more: Seq<Seq<char>>, n: nat)
    requires
        n <= more.len(),
        forall|k: int| 0 <= k < names.len() ==> !(#[trigger] names[k]).contains('/'),
        forall|k: int| 0 <= k < more.len() ==> !(#[trigger] more[k]).contains('/'),
    ensures
        forall|k: int|
            0 <= k < walked(names, more, n).len() ==> !(#[trigger] walked(
                names,
                more,
                n,
            )[k]).contains('/'),
    decreases n,
{
    if n > 0 {
        walked_without_slash(names, more, (n - 1) as nat);
        let here = walked(names, more, (n - 1) as nat);
        let now = walked(names, more, n);
        assert(!more[n - 1].contains('/'));
        assert forall|k: int| 0 <= k < now.len() implies !(#[trigger] now[k]).contains('/') by {
            if k < here.len() {
                assert(now[k] == here[k]);
            }
        }
    }
}

proof fn concat_without_slash(a: Seq<char>, b: Seq<char>)
    requires
        !a.contains('/'),
        !b.contains('/'),
    ensures
        !(a + b).contains('/'),
{
    if (a + b).contains('/') {
        let i = choose|i: int| 0 <= i < (a + b).len() && (a + b)[i] == '/';
        if i < a.len() {
            assert(a[i] == '/');
        } else {
            assert(b[i - a.len()] == '/');
        }
    }
}

proof fn joined_without_slash(parts: Seq<Seq<char>>)
    requires
        forall|k: int| 0 <= k < parts.len() ==> !(#[trigger] parts[k]).contains('/'),
    ensures
        !joined(parts, seq!['\\']).contains('/'),
    decreases parts.len(),
{
    if parts.len() > 0 {
        assert(!parts[0].contains('/'));
        assert(!parts[parts.len() - 1].contains('/'));
        let rest = parts.drop_last();
        assert forall|k: int| 0 <= k < rest.len() implies !(#[trigger] rest[k]).contains('/') by {
            assert(rest[k] == parts[k]);
        }
        joined_without_slash(rest);
        assert(!seq!['\\'].contains('/'));
        concat_without_slash(joined(rest, seq!['\\']), seq!['\\']);
        concat_without_slash(joined(rest, seq!['\\']) + seq!['\\'], parts.last());
    }
}

/// On Windows joining paths without forward slashes writes none.
pub proof fn join_keeps_backslashes(base: Seq<char>, part: Seq<char>)
    requires
        !base.contains('/'),
        !part.contains('/'),
    ensures
        !joined_path(HostOs::Windows, base, part).contains('/'),
{
    let h = HostOs::Windows;
    prefix_of_props(h, base);
    let (kind, n) = prefix_of(h, base);
    let prefix = base.take(n);
    assert(!prefix.contains('/')) by {
        if prefix.contains('/') {
            let k = choose|k: int| 0 <= k < prefix.len() && prefix[k] == '/';
            assert(base[k] == '/');
        }
    }
    assert(!seq!['\\'].contains('/'));
    assert(prefix.push('\\') =~= prefix + seq!['\\']);
    concat_without_slash(prefix, seq!['\\']);
    concat_without_slash(prefix, part);
    assert(base.push('\\') =~= base + seq!['\\']);
    concat_without_slash(base, seq!['\\']);
    concat_without_slash(base.push('\\'), part);
    concat_without_slash(base, part);
    if prefix_of(h, part).0 == Prefix::Nothing && kind.verbatim() && part.len() > 0 {
        let names = if rooted(h, part) {
            seq![]
        } else {
            names_from(h, true, base, body_start(h, base), false)
        };
        names_without_slash(base, true, body_start(h, base), false);
        names_without_slash(part, false, 0, false);
        let more = names_from(h, false, part, 0, false);
        walked_without_slash(names, more, more.len());
        let all = walked(names, more, more.len());
        joined_without_slash(all);
        concat_without_slash(prefix.push('\\'), joined(all, seq!['\\']));
    }
}

/// A path with its separators below every other character: in the order of
/// these keys paths are sorted component by component.
pub open spec fn path_key(host: HostOs, path: Seq<char>) -> Seq<char> {
    path.map_values(
        |c: char|
            if separator(host, c) {
                '\0'
            } else {
                c
            },
    )
}

/// The key by which a path is sorted.
pub fn key_of(host: HostOs, path: &str) -> (r: String)
    ensures
        r@ == path_key(host, path@),
{
    let v = chars_of(path);
    let mut out = String::new();
    for i in 0..v.len()
        invariant
            out@ == path_key(host, v@.take(i as int)),
    {
        out.push(
            if is_separator(host, v[i]) {
                '\0'
            } else {
                v[i]
            },
        );
        assert(out@ =~= path_key(host, v@.take(i + 1)));
    }
    assert(v@.take(v@.len() as int) =~= v@);
    out
}

/// The prefix of a path as it is compared: written with backslashes, and its drive in
/// lower case.
pub open spec fn prefix_text(host: HostOs, p: Seq<char>) -> Seq<char> {
    let (kind, n) = prefix_of(host, p);
    let text = p.take(n);
    match kind {
        Prefix::Drive | Prefix::VerbatimDrive => lowered(text),
        Prefix::Share | Prefix::Device => replaced(text, '/', seq!['\\']),
        _ => text,
    }
}

/// Whether a path begins at a root: with a separator behind its prefix, or with a
/// prefix that is one.
pub open spec fn has_root(host: HostOs, p: Seq<char>) -> bool {
    let (kind, n) = prefix_of(host, p);
    kind == Prefix::Share || kind == Prefix::Device || rooted(host, p.skip(n))
}

/// The components of a path: its prefix, its root, its names.
pub open spec fn components(host: HostOs, p: Seq<char>) -> Seq<Seq<char>> {
    let kind = prefix_of(host, p).0;
    one_if(kind != Prefix::Nothing, prefix_text(host, p)) + one_if(has_root(host, p), seq!['/'])
        + names_from(
        host,
        kind.verbatim(),
        p,
        body_start(host, p),
        kind == Prefix::Nothing && !has_root(host, p),
    )
}

fn read_prefix(v: &Vec<char>, kind: Prefix, n: usize) -> (r: String)
    requires
        n <= v.len(),
    ensures
        r@ == (match kind {
            Prefix::Drive | Prefix::VerbatimDrive => lowered(v@.take(n as int)),
            Prefix::Share | Prefix::Device => replaced(v@.take(n as int), '/', seq!['\\']),
            _ => v@.take(n as int),
        }),
{
    let text = text_of(v, 0, n);
    assert(text@ =~= v@.take(n as int));
    proof {
        reveal_strlit("\\");
        assert("\\"@ =~= seq!['\\']);
    }
    match kind {
        Prefix::Drive | Prefix::VerbatimDrive => to_lower_text(&text),
        Prefix::Share | Prefix::Device => replace_char(&text, '/', "\\"),
        _ => text,
    }
}

/// The components of a path.
pub fn split_path(host: HostOs, path: &str) -> (r: Vec<String>)
    ensures
        views(r@) == components(host, path@),
{
    let v = chars_of(path);
    let mut out: Vec<String> = Vec::new();
    let (kind, n) = find_prefix(host, &v);
    let physical = n < v.len() && is_separator(host, v[n]);
    proof {
        if n < v.len() {
            assert(v@.skip(n as int)[0] == v@[n as int]);
        }
        assert(physical == rooted(host, v@.skip(n as int)));
    }
    let root = kind == Prefix::Share || kind == Prefix::Device || physical;
    if kind != Prefix::Nothing {
        out.push(read_prefix(&v, kind, n));
    }
    assert(views(out@) =~= one_if(kind != Prefix::Nothing, prefix_text(host, path@)));
    let ghost so_far = views(out@);
    if root {
        out.push("/".to_owned());
    }
    proof {
        reveal_strlit("/");
        assert("/"@ =~= seq!['/']);
        assert(views(out@) =~= so_far + one_if(root, seq!['/']));
    }
    let mut start = n;
    if physical {
        start = n + 1;
    }
    push_names(host, kind.is_verbatim(), &v, start, kind == Prefix::Nothing && !root, &mut out);
    out
}

/// Whether `path` is `base` or below it, component by component.
pub open spec fn path_below(host: HostOs, path: Seq<char>, base: Seq<char>) -> bool {
    components(host, base).is_prefix_of(components(host, path))
}

/// Whether `path` is `base` or below it.
pub fn is_path_below(host: HostOs, path: &str, base: &str) -> (r: bool)
    ensures
        r == path_below(host, path@, base@),
{
    let p = split_path(host, path);
    let b = split_path(host, base);
    let ghost x = views(p@);
    let ghost y = views(b@);
    if b.len() > p.len() {
        assert(y.len() > x.len());
        return false;
    }
    for i in 0..b.len()
        invariant
            x == views(p@),
            y == views(b@),
            x == components(host, path@),
            y == components(host, base@),
            b.len() <= p.len(),
            forall|j: int| 0 <= j < i ==> x[j] == y[j],
    {
        assert(x[i as int] == p@[i as int]@);
        assert(y[i as int] == b@[i as int]@);
        if p[i] != b[i] {
            proof {
                if y.is_prefix_of(x) {
                    assert(x.subrange(0, y.len() as int)[i as int] == y[i as int]);
                }
            }
            return false;
        }
    }
    assert(x.subrange(0, y.len() as int) =~= y);
    true
}

/// Every path is below itself, and what is below a path below another is below
/// that other.
pub proof fn path_below_orders(host: HostOs, a: Seq<char>, b: Seq<char>, c: Seq<char>)
    ensures
        path_below(host, a, a),
        path_below(host, a, b) && path_below(host, b, c) ==> path_below(host, a, c),
{
    let x = components(host, a);
    let y = components(host, b);
    let z = components(host, c);
    assert(x.subrange(0, x.len() as int) =~= x);
    if y.is_prefix_of(x) && z.is_prefix_of(y) {
        assert(x.subrange(0, z.len() as int) =~= y.subrange(0, z.len() as int));
    }
}

// ---------------------------------------------------------------------------
// Extensions

/// Where the last component of `p.take(e)` begins, if not before `body`.
pub open spec fn component_start(
    host: HostOs,
    verbatim: bool,
    p: Seq<char>,
    body: int,
    e: int,
) -> int
    decreases e,
{
    if e <= body || e <= 0 || e > p.len() || splits(host, verbatim, p[e - 1]) {
        e
    } else {
        component_start(host, verbatim, p, body, e - 1)
    }
}

proof fn component_start_props(host: HostOs, verbatim: bool, p: Seq<char>, body: int, e: int)
    requires
        0 <= body <= e <= p.len(),
    ensures
        body <= component_start(host, verbatim, p, body, e) <= e,
        forall|i: int|
            component_start(host, verbatim, p, body, e) <= i < e ==> !splits(
                host,
                verbatim,
                #[trigger] p[i],
            ),
    decreases e,
{
    if e > body && !splits(host, verbatim, p[e - 1]) {
        component_start_props(host, verbatim, p, body, e - 1);
    }
}

/// Where the last name in `p.take(e)` begins and ends. Separators behind it, and but
/// for verbatim paths single dots behind it, do not count. There is none where the
/// last component is one or two dots, or no component is left.
pub open spec fn last_name(
    host: HostOs,
    verbatim: bool,
    p: Seq<char>,
    body: int,
    e: int,
) -> Option<(int, int)>
    decreases e,
    when 0 <= body <= e <= p.len()
    via last_name_decreases
{
    let k = component_start(host, verbatim, p, body, e);
    let name = p.subrange(k, e);
    if name.len() == 0 || (name == seq!['.'] && !verbatim) {
        if k > body {
            last_name(host, verbatim, p, body, k - 1)
        } else {
            None
        }
    } else if is_name(name) {
        Some((k, e))
    } else {
        None
    }
}

#[via_fn]
proof fn last_name_decreases(host: HostOs, verbatim: bool, p: Seq<char>, body: int, e: int) {
    component_start_props(host, verbatim, p, body, e);
}

/// Where the name of the file that a path leads to begins and ends.
pub open spec fn file_name(host: HostOs, path: Seq<char>) -> Option<(int, int)> {
    last_name(
        host,
        prefix_of(host, path).0.verbatim(),
        path,
        body_start(host, path),
        path.len() as int,
    )
}

/// Where the stem of a file's name ends: at its last dot, where that is not its first
/// character.
pub open spec fn stem_end(path: Seq<char>, start: int, end: int) -> int {
    match find_last(path, '.', end) {
        Some(k) => if k > start {
            k
        } else {
            end
        },
        None => end,
    }
}

/// The extension of the file that a path leads to.
pub open spec fn extension_of(host: HostOs, path: Seq<char>) -> Option<Seq<char>> {
    match file_name(host, path) {
        Some((start, end)) => {
            let k = stem_end(path, start, end);
            if k < end {
                Some(path.subrange(k + 1, end))
            } else {
                None
            }
        },
        None => None,
    }
}

/// The path of a file with another extension, or with one where it has none. A path
/// that leads to no file stays as it is.
pub open spec fn with_extension(host: HostOs, path: Seq<char>, extension: Seq<char>) -> Seq<char> {
    match file_name(host, path) {
        Some((start, end)) => {
            let stem = path.take(stem_end(path, start, end));
            if extension.len() == 0 {
                stem
            } else {
                stem.push('.') + extension
            }
        },
        None => path,
    }
}

proof fn body_start_props(host: HostOs, p: Seq<char>)
    ensures
        0 <= body_start(host, p) <= p.len(),
{
    prefix_of_props(host, p);
}

fn find_last_name(host: HostOs, verbatim: bool, v: &Vec<char>, body: usize) -> (r: Option<
    (usize, usize),
>)
    requires
        body <= v.len(),
    ensures
        match r {
            Some((k, e)) => last_name(host, verbatim, v@, body as int, v@.len() as int) == Some(
                (k as int, e as int),
            ) && k < e <= v.len(),
            None => last_name(host, verbatim, v@, body as int, v@.len() as int) is None,
        },
{
    let mut e: usize = v.len();
    loop
        invariant
            body <= e <= v.len(),
            last_name(host, verbatim, v@, body as int, v@.len() as int) == last_name(
                host,
                verbatim,
                v@,
                body as int,
                e as int,
            ),
        decreases e,
    {
        let mut k: usize = e;
        while k > body && !is_split(host, verbatim, v[k - 1])
            invariant
                body <= k <= e <= v.len(),
                component_start(host, verbatim, v@, body as int, e as int) == component_start(
                    host,
                    verbatim,
                    v@,
                    body as int,
                    k as int,
                ),
            decreases k,
        {
            k -= 1;
        }
        let ghost name = v@.subrange(k as int, e as int);
        let one_dot = e - k == 1 && v[k] == '.';
        let two_dots = e - k == 2 && v[k] == '.' && v[k + 1] == '.';
        proof {
            if one_dot {
                assert(name =~= seq!['.']);
            } else if name == seq!['.'] {
                assert(name.len() == 1);
                assert(name[0] == v@[k as int]);
            }
            if two_dots {
                assert(name =~= seq!['.', '.']);
            } else if name == seq!['.', '.'] {
                assert(name.len() == 2);
                assert(name[0] == v@[k as int] && name[1] == v@[k + 1]);
            }
        }
        if e == k || (one_dot && !verbatim) {
            if k == body {
                return None;
            }
            e = k - 1;
        } else if one_dot || two_dots {
            return None;
        } else {
            return Some((k, e));
        }
    }
}

/// Where the stem and the name of the file that a path leads to end.
fn find_stem(host: HostOs, v: &Vec<char>) -> (r: Option<(usize, usize)>)
    ensures
        match (r, file_name(host, v@)) {
            (Some((stem, e)), Some((start, end))) => {
                &&& stem == stem_end(v@, start, end)
                &&& e == end
                &&& stem <= e <= v.len()
            },
            (None, None) => true,
            _ => false,
        },
{
    let (kind, n) = find_prefix(host, v);
    let mut body = n;
    if n < v.len() && is_separator(host, v[n]) {
        body = n + 1;
    }
    proof {
        if n < v.len() {
            assert(v@.skip(n as int)[0] == v@[n as int]);
        }
        assert(body == body_start(host, v@));
    }
    match find_last_name(host, kind.is_verbatim(), v, body) {
        None => None,
        Some((start, end)) => {
            let mut n: usize = end;
            while n > 0 && v[n - 1] != '.'
                invariant
                    n <= end <= v.len(),
                    find_last(v@, '.', end as int) == find_last(v@, '.', n as int),
                decreases n,
            {
                n -= 1;
            }
            let stem: usize = if n > 0 && n - 1 > start {
                n - 1
            } else {
                end
            };
            Some((stem, end))
        },
    }
}

/// The extension of the file that a path leads to.
pub fn find_extension(host: HostOs, path: &str) -> (r: Option<String>)
    ensures
        opt_view(r) == extension_of(host, path@),
{
    let v = chars_of(path);
    match find_stem(host, &v) {
        Some((stem, end)) => if stem < end {
            Some(text_of(&v, stem + 1, end))
        } else {
            None
        },
        None => None,
    }
}

/// The path of a file with another extension, or with one where it has none.
pub fn replace_extension(host: HostOs, path: &str, extension: &str) -> (r: String)
    ensures
        r@ == with_extension(host, path@, extension@),
{
    let v = chars_of(path);
    match find_stem(host, &v) {
        None => path.to_owned(),
        Some((stem, _)) => {
            let mut out = text_of(&v, 0, stem);
            assert(out@ =~= path@.take(stem as int));
            if extension.unicode_len() > 0 {
                out.push('.');
                out.append(extension);
            }
            out
        },
    }
}

proof fn last_name_props(host: HostOs, verbatim: bool, p: Seq<char>, body: int, e: int)
    requires
        0 <= body <= e <= p.len(),
    ensures
        last_name(host, verbatim, p, body, e) matches Some((k, f)) ==> {
            &&& body <= k < f <= e
            &&& f < e ==> splits(host, verbatim, p[f])
            &&& forall|i: int| k <= i < f ==> !splits(host, verbatim, #[trigger] p[i])
        },
    decreases e,
{
    component_start_props(host, verbatim, p, body, e);
    let k = component_start(host, verbatim, p, body, e);
    let name = p.subrange(k, e);
    if name.len() == 0 || (name == seq!['.'] && !verbatim) {
        if k > body {
            last_name_props(host, verbatim, p, body, k - 1);
            component_start_stops(host, verbatim, p, body, e);
        }
    }
}

proof fn component_start_stops(host: HostOs, verbatim: bool, p: Seq<char>, body: int, e: int)
    requires
        0 <= body <= e <= p.len(),
    ensures
        ({
            let k = component_start(host, verbatim, p, body, e);
            k > body ==> splits(host, verbatim, p[k - 1])
        }),
    decreases e,
{
    if e > body && !splits(host, verbatim, p[e - 1]) {
        component_start_stops(host, verbatim, p, body, e - 1);
    }
}

/// Whether an extension is part of one name.
pub open spec fn plain_extension(extension: Seq<char>) -> bool {
    extension.len() > 0 && forall|i: int|
        0 <= i < extension.len() ==> (#[trigger] extension[i]) != '/' && extension[i] != '\\'
}

/// Different extensions make different paths of a file, and one that holds a dot
/// makes a path other than the one it is made from.
pub proof fn extensions_tell_apart(host: HostOs, path: Seq<char>, a: Seq<char>, b: Seq<char>)
    requires
        file_name(host, path) is Some,
        plain_extension(a),
        plain_extension(b),
    ensures
        with_extension(host, path, a) == with_extension(host, path, b) ==> a == b,
        a.contains('.') ==> with_extension(host, path, a) != path,
{
    let verbatim = prefix_of(host, path).0.verbatim();
    body_start_props(host, path);
    last_name_props(host, verbatim, path, body_start(host, path), path.len() as int);
    let (start, end) = file_name(host, path)->0;
    find_last_props(path, '.', end);
    let k = stem_end(path, start, end);
    let p = with_extension(host, path, a);
    let q = with_extension(host, path, b);
    assert(p.skip(k + 1) =~= a);
    assert(q.skip(k + 1) =~= b);
    if a.contains('.') && p == path {
        let i = choose|i: int| 0 <= i < a.len() && a[i] == '.';
        assert(p[k + 1 + i] == '.');
        if end < path.len() {
            if end > k {
                assert(a[end - k - 1] == path[end]);
            } else {
                assert(path[k] == '.');
            }
        }
    }
}

// ---------------------------------------------------------------------------
// What holds of joined paths

/// Whether joining names onto a path leaves its prefix as it is: it is not verbatim,
/// and does not begin like the path of a share or a device without being one.
pub open spec fn steady(host: HostOs, base: Seq<char>) -> bool {
    let (kind, n) = prefix_of(host, base);
    host != HostOs::Windows || match kind {
        Prefix::Nothing => !begins_with_two(host, base),
        Prefix::Drive | Prefix::Share => true,
        Prefix::Device => n > 4,
        _ => false,
    }
}

/// Whether a text is the name of one file or directory.
pub open spec fn one_name(name: Seq<char>) -> bool {
    plain_name(name) && is_name(name)
}

/// A plain name that does not begin with a dot is the name of a file or directory.
pub proof fn undotted_is_one_name(name: Seq<char>)
    requires
        plain_name(name),
        name[0] != '.',
    ensures
        one_name(name),
{
}

/// A plain name of more than two characters is the name of a file or directory.
pub proof fn long_name_is_one_name(name: Seq<char>)
    requires
        plain_name(name),
        name.len() > 2,
    ensures
        one_name(name),
{
}

proof fn find_separator_extended(host: HostOs, p: Seq<char>, q: Seq<char>, i: int)
    requires
        0 <= i <= p.len() <= q.len(),
        forall|k: int| 0 <= k < p.len() ==> p[k] == q[k],
        p.len() < q.len() ==> separator(host, q[p.len() as int]) || find_separator(
            host,
            false,
            p,
            i,
        ) < p.len(),
    ensures
        find_separator(host, false, q, i) == find_separator(host, false, p, i),
    decreases p.len() - i,
{
    if i < p.len() {
        if !splits(host, false, p[i]) {
            find_separator_extended(host, p, q, i + 1);
        }
    }
}

proof fn find_separator_without(host: HostOs, p: Seq<char>, i: int)
    requires
        0 <= i <= p.len(),
        forall|k: int| i <= k < p.len() ==> !separator(host, #[trigger] p[k]),
    ensures
        find_separator(host, false, p, i) == p.len(),
    decreases p.len() - i,
{
    if i < p.len() {
        find_separator_without(host, p, i + 1);
    }
}

/// The names in a path that ends in one more name, which a separator sets off.
proof fn names_with_one_more(
    host: HostOs,
    p: Seq<char>,
    q: Seq<char>,
    name: Seq<char>,
    i: int,
    keep_dot: bool,
)
    requires
        0 <= i <= p.len(),
        one_name(name),
        q == p + name && (i == p.len() || separator(host, p.last())) || (exists|c: char|
            separator(host, c) && q == #[trigger] p.push(c) + name),
    ensures
        names_from(host, false, q, i, keep_dot) == names_from(host, false, p, i, keep_dot).push(
            name,
        ),
    decreases p.len() - i,
{
    let e = find_separator(host, false, p, i);
    find_separator_props(host, false, p, i);
    let glued = q == p + name && (i == p.len() || separator(host, p.last()));
    let start = q.len() - name.len();
    assert(q.subrange(start, q.len() as int) =~= name);
    assert forall|k: int| start <= k < q.len() implies !separator(host, #[trigger] q[k]) by {
        assert(q[k] == name[k - start]);
    }
    find_separator_without(host, q, start);
    assert(names_from(host, false, q, start, keep_dot) =~= seq![name]) by {
        assert(name.len() > 0 && name != seq!['.']);
    }
    assert(names_from(host, false, q, start, false) =~= seq![name]);
    if glued && i == p.len() {
        assert(p.subrange(i, e).len() == 0);
        assert(names_from(host, false, p, i, keep_dot) =~= seq![]);
        assert(names_from(host, false, p, i, keep_dot).push(name) =~= seq![name]);
    } else {
        if e < p.len() {
            find_separator_extended(host, p, q, i);
        } else {
            if glued {
                assert(separator(host, p[p.len() - 1]));
                separator_is_found(host, p, i, p.len() - 1);
            }
            assert(separator(host, q[p.len() as int]));
            find_separator_extended(host, p, q, i);
        }
        let here = p.subrange(i, e);
        assert(q.subrange(i, e) =~= here);
        if e < p.len() {
            if glued && e + 1 == p.len() {
                names_with_one_more(host, p, q, name, e + 1, false);
            } else {
                names_with_one_more(host, p, q, name, e + 1, false);
            }
        }
        assert(names_from(host, false, q, i, keep_dot) =~= names_from(
            host,
            false,
            p,
            i,
            keep_dot,
        ).push(name));
    }
}

proof fn separator_is_found(host: HostOs, p: Seq<char>, i: int, k: int)
    requires
        0 <= i <= k < p.len(),
        separator(host, p[k]),
    ensures
        find_separator(host, false, p, i) <= k,
    decreases k - i,
{
    if i < k && !separator(host, p[i]) {
        separator_is_found(host, p, i + 1, k);
    }
}

proof fn prefix_is_steady(host: HostOs, base: Seq<char>, q: Seq<char>)
    requires
        steady(host, base),
        base.len() < q.len(),
        forall|k: int| 0 <= k < base.len() ==> base[k] == q[k],
        base.len() < 2 ==> !begins_with_two(host, q) && !has_drive(host, q),
        prefix_of(host, base).0 == Prefix::Drive || prefix_of(host, base).0 == Prefix::Nothing
            || separator(host, q[base.len() as int]) || separator(host, base.last()),
    ensures
        prefix_of(host, q) == prefix_of(host, base),
        steady(host, q),
{
    reveal(windows_prefix);
    if host == HostOs::Windows {
        let kind = prefix_of(host, base).0;
        if kind == Prefix::Share {
            let e = find_separator(host, false, base, 2);
            find_separator_props(host, false, base, 2);
            assert(e + 1 < base.len());
            find_separator_extended(host, base, q, 2);
            find_separator_props(host, false, base, e + 1);
            if find_separator(host, false, base, e + 1) == base.len() && !separator(
                host,
                q[base.len() as int],
            ) {
                separator_is_found(host, base, e + 1, base.len() - 1);
            }
            find_separator_extended(host, base, q, e + 1);
        } else if kind == Prefix::Device {
            find_separator_props(host, false, base, 4);
            if find_separator(host, false, base, 4) == base.len() && !separator(
                host,
                q[base.len() as int],
            ) {
                if base.len() > 4 {
                    separator_is_found(host, base, 4, base.len() - 1);
                }
            }
            if base.len() > 4 || separator(host, q[base.len() as int]) {
                find_separator_extended(host, base, q, 4);
            }
        }
    }
}

/// Joining a name onto a path puts it behind the path's components.
pub proof fn joined_components(host: HostOs, base: Seq<char>, name: Seq<char>)
    requires
        steady(host, base),
        one_name(name),
    ensures
        components(host, joined_path(host, base, name)) == components(host, base).push(name),
        steady(host, joined_path(host, base, name)),
{
    reveal(windows_prefix);
    let q = joined_path(host, base, name);
    prefix_of_props(host, base);
    assert(name[0] != '/' && name[0] != '\\');
    if name.len() >= 2 {
        assert(name[1] != ':');
    }
    assert(prefix_of(host, name).0 == Prefix::Nothing);
    assert(q == (if needs_separator(host, base) {
        base.push(main_separator(host)) + name
    } else {
        base + name
    }));
    if !needs_separator(host, base) && base.len() == 1 {
        assert(separator(host, base.last()));
        assert(q[1] == name[0]);
    }
    prefix_is_steady(host, base, q);
    let n = prefix_of(host, base).1;
    let body = body_start(host, base);
    assert(n < base.len() ==> base.skip(n)[0] == base[n] && q.skip(n)[0] == q[n]);
    if n == base.len() {
        assert(q.skip(n)[0] == q[n]);
    }
    let kind = prefix_of(host, base).0;
    assert(prefix_text(host, q) == prefix_text(host, base)) by {
        assert(q.take(n) =~= base.take(n));
    }
    if body_start(host, q) == body {
        let keep = kind == Prefix::Nothing && !has_root(host, base);
        if needs_separator(host, base) {
            assert(separator(host, main_separator(host)));
            assert(q == base.push(main_separator(host)) + name);
        } else if base.len() > 0 && !separator(host, base.last()) {
            assert(body == base.len());
        } else if base.len() > 0 {
            assert(separator(host, base.last()));
        }
        names_with_one_more(host, base, q, name, body, keep);
        assert(has_root(host, q) == has_root(host, base));
    } else {
        // A separator behind a prefix is the root that the prefix stands for.
        assert(n == base.len());
        assert(kind == Prefix::Share || kind == Prefix::Device);
        assert(q == base.push(main_separator(host)) + name);
        assert(body_start(host, q) == n + 1);
        let p = base.push(main_separator(host));
        names_with_one_more(host, p, q, name, n + 1, false);
        assert(names_from(host, false, p, n + 1, false) =~= seq![]);
        assert(names_from(host, false, base, n, false) =~= seq![]);
    }
    assert(components(host, q) =~= components(host, base).push(name));
}

proof fn body_starts_before_name(host: HostOs, base: Seq<char>, name: Seq<char>)
    requires
        steady(host, base),
        one_name(name),
    ensures
        body_start(host, joined_path(host, base, name)) < joined_path(host, base, name).len(),
        !separator(host, joined_path(host, base, name).last()),
{
    reveal(windows_prefix);
    let q = joined_path(host, base, name);
    joined_components(host, base, name);
    prefix_of_props(host, base);
    assert(name[0] != '/' && name[0] != '\\');
    if name.len() >= 2 {
        assert(name[1] != ':');
    }
    assert(prefix_of(host, name).0 == Prefix::Nothing);
    assert(q.last() == name.last());
    assert(name[name.len() - 1] != '/' && name[name.len() - 1] != '\\');
    let n = prefix_of(host, q).1;
    prefix_of_props(host, q);
    assert(q.len() > base.len());
    if !needs_separator(host, base) && base.len() == 1 {
        assert(q[1] == name[0]);
    }
    prefix_is_steady(host, base, q);
    if n < q.len() {
        assert(q.skip(n)[0] == q[n]);
        if body_start(host, q) == n + 1 && n + 1 == q.len() {
            assert(q[n] == q.last());
        }
    }
}

/// Joining two names with a slash between them puts both behind the path's
/// components.
pub proof fn joined_two(host: HostOs, base: Seq<char>, a: Seq<char>, b: Seq<char>)
    requires
        steady(host, base),
        one_name(a),
        one_name(b),
    ensures
        components(host, joined_path(host, base, a.push('/') + b)) == components(host, base).push(
            a,
        ).push(b),
        steady(host, joined_path(host, base, a.push('/') + b)),
{
    reveal(windows_prefix);
    let part = a.push('/') + b;
    let q = joined_path(host, base, a);
    let r = joined_path(host, base, part);
    joined_components(host, base, a);
    body_starts_before_name(host, base, a);
    assert(a[0] != '/' && a[0] != '\\');
    assert(part[0] == a[0]);
    if a.len() >= 2 {
        assert(a[1] != ':');
        assert(part[1] == a[1]);
    } else {
        assert(part[1] == '/');
    }
    assert(prefix_of(host, a).0 == Prefix::Nothing);
    assert(prefix_of(host, part).0 == Prefix::Nothing);
    assert(r =~= q.push('/') + b);
    assert(q.len() >= 1);
    if q.len() == 1 {
        assert(q[0] == a[0]);
        assert(r[1] == '/');
    }
    prefix_of_props(host, q);
    prefix_is_steady(host, q, r);
    let n = prefix_of(host, q).1;
    let kind = prefix_of(host, q).0;
    assert(n < q.len());
    assert(q.skip(n)[0] == q[n] && r.skip(n)[0] == r[n]);
    assert(r.take(n) =~= q.take(n));
    let keep = kind == Prefix::Nothing && !has_root(host, q);
    assert(r == q.push('/') + b && separator(host, '/'));
    names_with_one_more(host, q, r, b, body_start(host, q), keep);
    assert(components(host, r) =~= components(host, q).push(b));
}

/// Joining two names one after another puts them behind the path's components.
#[verifier::rlimit(40)]
pub proof fn joined_2(
    host: HostOs,
    base: Seq<char>,
    a: Seq<char>,
    b: Seq<char>,
)
    requires
        steady(host, base),
        one_name(a),
        one_name(b),
    ensures
        components(host, joined_path(host, joined_path(host, base, a), b)) == components(host, base) + seq![a, b],
        steady(host, joined_path(host, joined_path(host, base, a), b)),
{
    joined_components(host, base, a);
    joined_components(host, joined_path(host, base, a), b);
    assert(components(host, joined_path(host, joined_path(host, base, a), b)) =~= components(host, base) + seq![a, b]);
}

/// Joining three names one after another puts them behind the path's components.
#[verifier::rlimit(40)]
pub proof fn joined_3(
    host: HostOs,
    base: Seq<char>,
    a: Seq<char>,
    b: Seq<char>,
    c: Seq<char>,
)
    requires
        steady(host, base),
        one_name(a),
        one_name(b),
        one_name(c),
    ensures
        components(host, joined_path(host, joined_path(host, joined_path(host, base, a), b), c)) == components(host, base) + seq![a, b, c],
        steady(host, joined_path(host, joined_path(host, joined_path(host, base, a), b), c)),
{
    joined_components(host, base, a);
    joined_2(host, joined_path(host, base, a), b, c);
    assert(components(host, joined_path(host, joined_path(host, joined_path(host, base, a), b), c)) =~= components(host, base) + seq![a, b, c]);
}

/// Joining four names one after another puts them behind the path's components.
#[verifier::rlimit(40)]
pub proof fn joined_4(
    host: HostOs,
    base: Seq<char>,
    a: Seq<char>,
    b: Seq<char>,
    c: Seq<char>,
    d: Seq<char>,
)
    requires
        steady(host, base),
        one_name(a),
        one_name(b),
        one_name(c),
        one_name(d),
    ensures
        components(host, joined_path(host, joined_path(host, joined_path(host, joined_path(host, base, a), b), c), d)) == components(host, base) + seq![a, b, c, d],
        steady(host, joined_path(host, joined_path(host, joined_path(host, joined_path(host, base, a), b), c), d)),
{
    joined_2(host, base, a, b);
    joined_2(host, joined_path(host, joined_path(host, base, a), b), c, d);
    assert(components(host, joined_path(host, joined_path(host, joined_path(host, joined_path(host, base, a), b), c), d)) =~= components(host, base) + seq![a, b, c, d]);
}

/// Joining five names one after another puts them behind the path's components.
#[verifier::rlimit(40)]
pub proof fn joined_5(
    host: HostOs,
    base: Seq<char>,
    a: Seq<char>,
    b: Seq<char>,
    c: Seq<char>,
    d: Seq<char>,
    e: Seq<char>,
)
    requires
        steady(host, base),
        one_name(a),
        one_name(b),
        one_name(c),
        one_name(d),
        one_name(e),
    ensures
        ({
            let p = joined_path(host, joined_path(host, joined_path(host, base, a), b), c);
            let q = joined_path(host, joined_path(host, p, d), e);
            &&& components(host, q) == components(host, base) + seq![a, b, c, d, e]
            &&& steady(host, q)
        }),
{
    let p = joined_path(host, joined_path(host, joined_path(host, base, a), b), c);
    joined_3(host, base, a, b, c);
    joined_2(host, p, d, e);
    assert(components(host, base) + seq![a, b, c] + seq![d, e] =~= components(host, base) + seq![
        a,
        b,
        c,
        d,
        e,
    ]);
}

/// A name alone is the name of the file that it leads to.
pub proof fn name_is_file_name(host: HostOs, name: Seq<char>)
    requires
        one_name(name),
    ensures
        file_name(host, name) == Some((0int, name.len() as int)),
{
    reveal(windows_prefix);
    assert(name[0] != '/' && name[0] != '\\');
    if name.len() >= 2 {
        assert(name[1] != ':');
    }
    assert(prefix_of(host, name) == (Prefix::Nothing, 0int));
    assert(name.skip(0) =~= name);
    assert(body_start(host, name) == 0);
    component_start_without(host, name, name.len() as int);
    assert(name.subrange(0, name.len() as int) =~= name);
}

proof fn component_start_without(host: HostOs, p: Seq<char>, e: int)
    requires
        0 <= e <= p.len(),
        plain_name(p),
    ensures
        component_start(host, false, p, 0, e) == 0,
    decreases e,
{
    if e > 0 {
        assert(p[e - 1] != '/' && p[e - 1] != '\\');
        component_start_without(host, p, e - 1);
    }
}

} // verus!
