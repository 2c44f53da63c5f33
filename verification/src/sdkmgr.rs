//! Android SDK components: which packages a build needs, where Google's
//! repository manifest says they are, and where they are installed.
use crate::digest::{sha1_digest, sha1_hex};
use crate::manifest::processor;
use crate::ndk::download_tag;
use crate::num::{decimal, decimal_digits, exit_code, exit_code_text, push_decimal};
use crate::ordmap::{
    OrdMap, holds_key, in_key_order, lookup, map_items, slot, slot_from_props, with_entry,
    with_entry_keeps_order, with_entry_map,
};
use crate::path::{
    HostArch, HostOs, bat_name, bat_suffix, components, exe_name, exe_suffix, join_path, joined_2,
    joined_4, joined_components, joined_path, long_name_is_one_name, one_name, steady,
};
use crate::text::{
    clone_opt, concat2, concat3, contains_text, find_char, find_char_props, has_string, in_order,
    in_order_unique, lower, lowered, one_if, opt_view, option_is, pair_views, same, sort_strings,
    split_all, split_all_without, split_first, split_first_of_joined, split_on, split_once,
    strip_suffix, tells, tells_behind, tells_more, to_lower_text, views,
};
use crate::xml::{
    XmlEvent, XmlEventView, XmlTag, XmlTagView, bare_tag, element, event_views, events_left,
    open_document, read_event, xml_events,
};
use vstd::prelude::*;

verus! {

/// Where the repository manifest is published.
pub const REPOSITORY_MANIFEST_URL: &'static str =
    "https://dl.google.com/android/repository/repository2-3.xml";

/// What the addresses in the manifest are relative to.
pub const ARCHIVE_BASE_URL: &'static str = "https://dl.google.com/android/repository/";

/// Why a component could not be installed.
#[derive(Debug)]
pub enum SdkMgrError {
    /// The manifest lists no such package for this host.
    PackageNotFound(String),
    /// What was downloaded is not what the manifest describes.
    ChecksumMismatch { package: String, expected: String, actual: String },
    /// The user has no home directory.
    NoCacheDir,
}

impl SdkMgrError {
    /// The text of the message shown for the error.
    pub open spec fn text(&self) -> Seq<char> {
        match *self {
            SdkMgrError::PackageNotFound(name) => "package \""@ + name@
                + "\" is not listed in Google's repository manifest for this host OS"@,
            SdkMgrError::ChecksumMismatch { package, expected, actual } =>
                "checksum mismatch downloading \""@ + package@ + "\": expected "@ + expected@
                + ", got "@ + actual@,
            SdkMgrError::NoCacheDir => "could not determine a home/cache directory for this user"@,
        }
    }

    /// The message shown for the error.
    pub fn message(&self) -> (r: String)
        ensures
            r@ == self.text(),
    {
        match self {
            SdkMgrError::PackageNotFound(name) => concat3(
                "package \"",
                name,
                "\" is not listed in Google's repository manifest for this host OS",
            ),
            SdkMgrError::ChecksumMismatch { package, expected, actual } => {
                let mut out = "checksum mismatch downloading \"".to_owned();
                out.append(package);
                out.append("\": expected ");
                out.append(expected);
                out.append(", got ");
                out.append(actual);
                out
            },
            SdkMgrError::NoCacheDir =>
                "could not determine a home/cache directory for this user".to_owned(),
        }
    }
}

/// One archive of a package: the host it is for (any host where none is
/// named), its address and its SHA-1 digest.
#[derive(Debug)]
pub struct ArchiveInfo {
    pub host_os: Option<String>,
    pub url: String,
    pub sha1: String,
}

/// The texts of an archive.
pub struct ArchiveView {
    pub host_os: Option<Seq<char>>,
    pub url: Seq<char>,
    pub sha1: Seq<char>,
}

impl View for ArchiveInfo {
    type V = ArchiveView;

    open spec fn view(&self) -> ArchiveView {
        ArchiveView { host_os: opt_view(self.host_os), url: self.url@, sha1: self.sha1@ }
    }
}

/// The texts of a list of archives.
pub open spec fn archive_views(v: Seq<ArchiveInfo>) -> Seq<ArchiveView> {
    v.map_values(|a: ArchiveInfo| a@)
}

/// A package of the manifest: its archives, in document order.
#[derive(Debug)]
pub struct PackageInfo {
    pub archives: Vec<ArchiveInfo>,
}

impl View for PackageInfo {
    type V = Seq<ArchiveView>;

    open spec fn view(&self) -> Seq<ArchiveView> {
        archive_views(self.archives@)
    }
}

/// Packages by their paths, as texts.
pub open spec fn package_views(m: OrdMap<PackageInfo>) -> Seq<(Seq<char>, Seq<ArchiveView>)> {
    map_items(m@, |p: PackageInfo| p@)
}

// ---------------------------------------------------------------------------
// Reading the manifest

/// How far a manifest has been read.
pub struct PackageScan {
    pub found: OrdMap<PackageInfo>,
    pub current: Option<String>,
    pub capturing: bool,
    pub in_archive: bool,
    pub archives: Vec<ArchiveInfo>,
    pub host_os: Option<String>,
    pub url: String,
    pub sha1: String,
    pub checksum_type: String,
    pub stack: Vec<String>,
}

/// How far a manifest has been read: the packages found; the path of the
/// package that is open, if it is a wanted one, with the archives read of it;
/// what the archive that is open says of itself so far; and the open tags.
pub struct PackageScanView {
    pub found: Seq<(Seq<char>, Seq<ArchiveView>)>,
    pub current: Option<Seq<char>>,
    pub capturing: bool,
    pub in_archive: bool,
    pub archives: Seq<ArchiveView>,
    pub host_os: Option<Seq<char>>,
    pub url: Seq<char>,
    pub sha1: Seq<char>,
    pub checksum_type: Seq<char>,
    pub stack: Seq<Seq<char>>,
}

impl View for PackageScan {
    type V = PackageScanView;

    open spec fn view(&self) -> PackageScanView {
        PackageScanView {
            found: package_views(self.found),
            current: opt_view(self.current),
            capturing: self.capturing,
            in_archive: self.in_archive,
            archives: archive_views(self.archives@),
            host_os: opt_view(self.host_os),
            url: self.url@,
            sha1: self.sha1@,
            checksum_type: self.checksum_type@,
            stack: views(self.stack@),
        }
    }
}

impl PackageScanView {
    /// Before the first event.
    pub open spec fn start() -> PackageScanView {
        PackageScanView {
            found: seq![],
            current: None,
            capturing: false,
            in_archive: false,
            archives: seq![],
            host_os: None,
            url: seq![],
            sha1: seq![],
            checksum_type: seq![],
            stack: seq![],
        }
    }

    /// What an opening or self-closing tag says, apart from being open.
    pub open spec fn note_tag(self, tag: XmlTagView, wanted: Seq<Seq<char>>) -> PackageScanView {
        if tag.name == "remotePackage"@ {
            match tag.attribute("path"@) {
                Some(path) => if wanted.contains(path) {
                    PackageScanView {
                        capturing: true,
                        current: Some(path),
                        archives: seq![],
                        ..self
                    }
                } else {
                    PackageScanView { capturing: false, current: None, ..self }
                },
                None => self,
            }
        } else if self.capturing && tag.name == "archive"@ {
            PackageScanView { in_archive: true, host_os: None, url: seq![], sha1: seq![], ..self }
        } else if self.capturing && self.in_archive && tag.name == "checksum"@ {
            PackageScanView {
                checksum_type: match tag.attribute("type"@) {
                    Some(t) => t,
                    None => seq![],
                },
                ..self
            }
        } else {
            self
        }
    }

    /// After an opening or self-closing tag.
    pub open spec fn open_tag(self, tag: XmlTagView, wanted: Seq<Seq<char>>) -> PackageScanView {
        let s = self.note_tag(tag, wanted);
        PackageScanView { stack: s.stack.push(tag.name), ..s }
    }

    /// After a closing tag.
    pub open spec fn close_tag(self, name: Seq<char>) -> PackageScanView {
        let s = PackageScanView {
            stack: if self.stack.len() > 0 {
                self.stack.drop_last()
            } else {
                self.stack
            },
            ..self
        };
        if name == "remotePackage"@ {
            match self.current {
                Some(path) => PackageScanView {
                    found: with_entry(self.found, path, self.archives),
                    current: None,
                    archives: seq![],
                    capturing: false,
                    ..s
                },
                None => PackageScanView { capturing: false, ..s },
            }
        } else if name == "archive"@ && self.capturing {
            PackageScanView {
                archives: self.archives.push(
                    ArchiveView { host_os: self.host_os, url: self.url, sha1: self.sha1 },
                ),
                in_archive: false,
                ..s
            }
        } else {
            s
        }
    }

    /// After text.
    pub open spec fn read_text(self, text: Seq<char>) -> PackageScanView {
        if !self.capturing || !self.in_archive || self.stack.len() == 0 {
            self
        } else if self.stack.last() == "host-os"@ {
            PackageScanView { host_os: Some(text), ..self }
        } else if self.stack.last() == "url"@ {
            PackageScanView { url: text, ..self }
        } else if self.stack.last() == "checksum"@ && lowered(self.checksum_type) == "sha1"@ {
            PackageScanView { sha1: text, ..self }
        } else {
            self
        }
    }

    /// After one more event.
    pub open spec fn after(self, event: XmlEventView, wanted: Seq<Seq<char>>) -> PackageScanView {
        match event {
            XmlEventView::Start(t) => self.open_tag(t, wanted),
            XmlEventView::Empty(t) => self.open_tag(t, wanted),
            XmlEventView::End(name) => self.close_tag(name),
            XmlEventView::Text(text) => self.read_text(text),
            _ => self,
        }
    }

    /// After the events in turn.
    pub open spec fn after_all(
        self,
        events: Seq<XmlEventView>,
        wanted: Seq<Seq<char>>,
    ) -> PackageScanView
        decreases events.len(),
    {
        if events.len() == 0 {
            self
        } else {
            self.after_all(events.drop_last(), wanted).after(events.last(), wanted)
        }
    }
}

/// The wanted packages that a manifest with these events lists, by path, each
/// with its archives in document order.
pub open spec fn listed_packages(
    events: Seq<XmlEventView>,
    wanted: Seq<Seq<char>>,
) -> Seq<(Seq<char>, Seq<ArchiveView>)> {
    PackageScanView::start().after_all(events, wanted).found
}

impl PackageScan {
    /// Before the first event.
    pub fn new() -> (r: Self)
        ensures
            r@ == PackageScanView::start(),
    {
        let r = PackageScan {
            found: OrdMap::new(),
            current: None,
            capturing: false,
            in_archive: false,
            archives: Vec::new(),
            host_os: None,
            url: String::new(),
            sha1: String::new(),
            checksum_type: String::new(),
            stack: Vec::new(),
        };
        proof {
            assert(r@.found =~= PackageScanView::start().found);
            assert(r@.archives =~= PackageScanView::start().archives);
            assert(r@.stack =~= PackageScanView::start().stack);
        }
        r
    }

    fn note_tag(&mut self, tag: &XmlTag, wanted: &Vec<String>)
        ensures
            final(self)@ == old(self)@.note_tag(tag@, views(wanted@)),
    {
        if same(&tag.name, "remotePackage") {
            let path = tag.attribute("path");
            if let Some(p) = path {
                if has_string(wanted, &p) {
                    self.capturing = true;
                    self.current = Some(p);
                    self.archives = Vec::new();
                    assert(archive_views(self.archives@) =~= seq![]);
                } else {
                    self.capturing = false;
                    self.current = None;
                }
            }
        } else if self.capturing && same(&tag.name, "archive") {
            self.in_archive = true;
            self.host_os = None;
            self.url = String::new();
            self.sha1 = String::new();
        } else if self.capturing && self.in_archive && same(&tag.name, "checksum") {
            self.checksum_type = match tag.attribute("type") {
                Some(t) => t,
                None => String::new(),
            };
        }
    }

    fn open_tag(&mut self, tag: &XmlTag, wanted: &Vec<String>)
        ensures
            final(self)@ == old(self)@.open_tag(tag@, views(wanted@)),
    {
        self.note_tag(tag, wanted);
        let ghost before = self.stack@;
        self.stack.push(tag.name.clone());
        assert(views(self.stack@) =~= views(before).push(tag.name@));
    }

    fn close_tag(&mut self, name: &String)
        ensures
            final(self)@ == old(self)@.close_tag(name@),
    {
        let ghost before = self.stack@;
        let _ = self.stack.pop();
        proof {
            assert(views(self.stack@) =~= (if views(before).len() > 0 {
                views(before).drop_last()
            } else {
                views(before)
            }));
        }
        if same(name, "remotePackage") {
            let current = self.current.take();
            if let Some(path) = current {
                let mut archives: Vec<ArchiveInfo> = Vec::new();
                std::mem::swap(&mut archives, &mut self.archives);
                let package = PackageInfo { archives };
                let ghost found = self.found@;
                proof {
                    with_entry_map(found, path@, package, |p: PackageInfo| p@);
                    assert(archive_views(self.archives@) =~= seq![]);
                }
                self.found.insert(path, package);
            }
            self.capturing = false;
        } else if same(name, "archive") && self.capturing {
            let ghost before = self.archives@;
            let archive = ArchiveInfo {
                host_os: clone_opt(&self.host_os),
                url: self.url.clone(),
                sha1: self.sha1.clone(),
            };
            self.archives.push(archive);
            assert(archive_views(self.archives@) =~= archive_views(before).push(archive@));
            self.in_archive = false;
        }
    }

    fn read_text(&mut self, text: &String)
        ensures
            final(self)@ == old(self)@.read_text(text@),
    {
        let depth = self.stack.len();
        if !self.capturing || !self.in_archive || depth == 0 {
            return ;
        }
        assert(views(self.stack@).last() == self.stack@[depth - 1]@);
        if same(&self.stack[depth - 1], "host-os") {
            self.host_os = Some(text.clone());
        } else if same(&self.stack[depth - 1], "url") {
            self.url = text.clone();
        } else if same(&self.stack[depth - 1], "checksum") && same(
            &to_lower_text(&self.checksum_type),
            "sha1",
        ) {
            self.sha1 = text.clone();
        }
    }

    /// Takes one more event.
    pub fn step(&mut self, event: &XmlEvent, wanted: &Vec<String>)
        ensures
            final(self)@ == old(self)@.after(event@, views(wanted@)),
    {
        match event {
            XmlEvent::Start(t) => self.open_tag(t, wanted),
            XmlEvent::Empty(t) => self.open_tag(t, wanted),
            XmlEvent::End(name) => self.close_tag(name),
            XmlEvent::Text(text) => self.read_text(text),
            _ => {},
        }
    }
}

/// The wanted packages among the given events of a manifest.
pub fn packages_in(events: &Vec<XmlEvent>, wanted: &Vec<String>) -> (r: OrdMap<PackageInfo>)
    ensures
        package_views(r) == listed_packages(event_views(events@), views(wanted@)),
{
    let mut scan = PackageScan::new();
    for i in 0..events.len()
        invariant
            scan@ == PackageScanView::start().after_all(
                event_views(events@).take(i as int),
                views(wanted@),
            ),
    {
        scan.step(&events[i], wanted);
        proof {
            let all = event_views(events@);
            assert(all.take(i + 1).drop_last() =~= all.take(i as int));
            assert(all[i as int] == events@[i as int]@);
        }
    }
    assert(event_views(events@).take(events@.len() as int) =~= event_views(events@));
    scan.found
}

/// The wanted packages that a repository manifest lists. The manifest is read
/// event by event and nothing is kept of other packages.
pub fn parse_packages(xml: &str, wanted: &Vec<String>) -> (r: OrdMap<PackageInfo>)
    ensures
        package_views(r) == listed_packages(xml_events(xml@), views(wanted@)),
{
    let mut reader = open_document(xml);
    let mut scan = PackageScan::new();
    let ghost all = xml_events(xml@);
    let ghost mut i: int = 0;
    assert(all.skip(0) =~= all);
    assert(all.take(0) =~= seq![]);
    loop
        invariant
            all == xml_events(xml@),
            0 <= i <= all.len(),
            events_left(reader) == all.skip(i),
            scan@ == PackageScanView::start().after_all(all.take(i), views(wanted@)),
        decreases all.len() - i,
    {
        let event = read_event(&mut reader);
        if matches!(event, XmlEvent::Done) {
            assert(all.take(i) =~= all);
            return scan.found;
        }
        scan.step(&event, wanted);
        proof {
            assert(all.skip(i)[0] == all[i]);
            assert(all.skip(i).drop_first() =~= all.skip(i + 1));
            assert(all.take(i + 1).drop_last() =~= all.take(i));
            assert(all.take(i + 1).last() == all[i]);
            i = i + 1;
        }
    }
}

// ---------------------------------------------------------------------------
// What holds of every manifest

/// Every package that is found was wanted, and no package is found twice.
pub proof fn only_wanted_packages(events: Seq<XmlEventView>, wanted: Seq<Seq<char>>)
    ensures
        in_key_order(listed_packages(events, wanted)),
        forall|i: int|
            0 <= i < listed_packages(events, wanted).len() ==> wanted.contains(
                (#[trigger] listed_packages(events, wanted)[i]).0,
            ),
{
    scan_keeps_wanted(events, wanted);
}

proof fn scan_keeps_wanted(events: Seq<XmlEventView>, wanted: Seq<Seq<char>>)
    ensures
        ({
            let s = PackageScanView::start().after_all(events, wanted);
            &&& in_key_order(s.found)
            &&& forall|i: int| 0 <= i < s.found.len() ==> wanted.contains((#[trigger] s.found[i]).0)
            &&& s.current is Some ==> wanted.contains(s.current->0)
        }),
    decreases events.len(),
{
    if events.len() > 0 {
        scan_keeps_wanted(events.drop_last(), wanted);
        let s = PackageScanView::start().after_all(events.drop_last(), wanted);
        if let XmlEventView::End(name) = events.last() {
            if name == "remotePackage"@ && s.current is Some {
                let path = s.current->0;
                with_entry_keeps_order(s.found, path, s.archives);
                slot_from_props(s.found, path, 0);
                let t = with_entry(s.found, path, s.archives);
                assert forall|i: int| 0 <= i < t.len() implies wanted.contains(
                    (#[trigger] t[i]).0,
                ) by {
                    let p = slot(s.found, path);
                    if holds_key(s.found, path) {
                        if i != p {
                            assert(t[i] == s.found[i]);
                        }
                    } else if i < p {
                        assert(t[i] == s.found[i]);
                    } else if i > p {
                        assert(t[i] == s.found[i - 1]);
                    }
                }
            }
        }
    }
}

/// Reading two stretches of events is reading the first and then the second.
pub proof fn scan_concat(
    s: PackageScanView,
    a: Seq<XmlEventView>,
    b: Seq<XmlEventView>,
    wanted: Seq<Seq<char>>,
)
    ensures
        s.after_all(a + b, wanted) == s.after_all(a, wanted).after_all(b, wanted),
    decreases b.len(),
{
    if b.len() == 0 {
        assert(a + b =~= a);
    } else {
        scan_concat(s, a, b.drop_last(), wanted);
        assert((a + b).drop_last() =~= a + b.drop_last());
    }
}

/// The events of `<checksum type="sha1">digest</checksum>`.
pub open spec fn checksum_element(digest: Seq<char>) -> Seq<XmlEventView> {
    seq![
        XmlEventView::Start(
            XmlTagView { name: "checksum"@, attributes: seq![("type"@, "sha1"@)] },
        ),
        XmlEventView::Text(digest),
        XmlEventView::End("checksum"@),
    ]
}

/// The events of an `<archive>` with its digest, its address and, where it is
/// for one host only, that host.
pub open spec fn archive_block(a: ArchiveView) -> Seq<XmlEventView> {
    seq![XmlEventView::Start(bare_tag("archive"@))] + checksum_element(a.sha1) + element(
        "url"@,
        a.url,
    ) + (match a.host_os {
        Some(host) => element("host-os"@, host),
        None => seq![],
    }) + seq![XmlEventView::End("archive"@)]
}

proof fn manifest_names_differ()
    ensures
        "archive"@ != "remotePackage"@,
        "checksum"@ != "remotePackage"@,
        "checksum"@ != "archive"@,
        "checksum"@ != "host-os"@,
        "checksum"@ != "url"@,
        "url"@ != "remotePackage"@,
        "url"@ != "archive"@,
        "url"@ != "host-os"@,
        "host-os"@ != "remotePackage"@,
        "host-os"@ != "archive"@,
        "host-os"@ != "checksum"@,
        lowered("sha1"@) == "sha1"@,
{
    reveal_strlit("archive");
    reveal_strlit("remotePackage");
    reveal_strlit("checksum");
    reveal_strlit("host-os");
    reveal_strlit("url");
    reveal_strlit("sha1");
    assert("archive"@.len() == 7 && "remotePackage"@.len() == 13 && "checksum"@.len() == 8);
    assert("host-os"@.len() == 7 && "url"@.len() == 3);
    assert("host-os"@[0] != "archive"@[0]);
    assert(lowered("sha1"@) =~= "sha1"@);
}

proof fn three_events(
    s: PackageScanView,
    a: XmlEventView,
    b: XmlEventView,
    c: XmlEventView,
    wanted: Seq<Seq<char>>,
)
    ensures
        s.after_all(seq![a, b, c], wanted) == s.after(a, wanted).after(b, wanted).after(c, wanted),
{
    let e = seq![a, b, c];
    reveal_with_fuel(PackageScanView::after_all, 4);
    assert(e.drop_last().drop_last().drop_last() =~= seq![]);
    assert(e.drop_last().drop_last().last() == a);
    assert(e.drop_last().last() == b);
}

/// Inside a wanted package an archive is read as it stands: its host, address
/// and digest are appended to the package, and reading goes on as before it.
pub proof fn archive_block_is_read(s: PackageScanView, a: ArchiveView, wanted: Seq<Seq<char>>)
    requires
        s.capturing,
    ensures
        ({
            let t = s.after_all(archive_block(a), wanted);
            &&& t.archives == s.archives.push(a)
            &&& t.found == s.found
            &&& t.current == s.current
            &&& t.capturing
            &&& !t.in_archive
            &&& t.stack == s.stack
        }),
{
    manifest_names_differ();
    let first = seq![XmlEventView::Start(bare_tag("archive"@))];
    let last = seq![XmlEventView::End("archive"@)];
    let e1 = checksum_element(a.sha1);
    let e2 = element("url"@, a.url);
    let e3: Seq<XmlEventView> = match a.host_os {
        Some(host) => element("host-os"@, host),
        None => seq![],
    };
    scan_concat(s, first + e1 + e2 + e3, last, wanted);
    scan_concat(s, first + e1 + e2, e3, wanted);
    scan_concat(s, first + e1, e2, wanted);
    scan_concat(s, first, e1, wanted);
    reveal_with_fuel(PackageScanView::after_all, 2);
    assert(first.drop_last() =~= seq![]);
    assert(last.drop_last() =~= seq![]);
    let s0 = s.after_all(first, wanted);
    assert(s0 == s.open_tag(bare_tag("archive"@), wanted));
    three_events(s0, e1[0], e1[1], e1[2], wanted);
    let tag = XmlTagView { name: "checksum"@, attributes: seq![("type"@, "sha1"@)] };
    assert(tag.attribute("type"@) == Some("sha1"@));
    assert(e1 =~= seq![e1[0], e1[1], e1[2]]);
    let s1 = s0.after_all(e1, wanted);
    assert(s0.stack.push("checksum"@).drop_last() =~= s0.stack);
    assert(s1.sha1 == a.sha1 && s1.stack == s0.stack);
    three_events(s1, e2[0], e2[1], e2[2], wanted);
    assert(e2 =~= seq![e2[0], e2[1], e2[2]]);
    let s2 = s1.after_all(e2, wanted);
    assert(s1.stack.push("url"@).drop_last() =~= s1.stack);
    assert(s2.url == a.url && s2.stack == s0.stack);
    let s3 = s2.after_all(e3, wanted);
    if a.host_os is Some {
        three_events(s2, e3[0], e3[1], e3[2], wanted);
        assert(e3 =~= seq![e3[0], e3[1], e3[2]]);
        assert(s2.stack.push("host-os"@).drop_last() =~= s2.stack);
    }
    assert(s3.host_os == a.host_os && s3.stack == s0.stack);
    assert(s.stack.push("archive"@).drop_last() =~= s.stack);
    assert(s3.after_all(last, wanted) == s3.close_tag("archive"@));
}

// ---------------------------------------------------------------------------
// Choosing an archive

/// The host's name in the manifest.
pub open spec fn host_tag(host: HostOs) -> Seq<char> {
    match host {
        HostOs::Windows => "windows"@,
        HostOs::MacOs => "macosx"@,
        _ => "linux"@,
    }
}

/// The host's name in the manifest.
pub fn host_os_tag(host: HostOs) -> (r: &'static str)
    ensures
        r@ == host_tag(host),
{
    match host {
        HostOs::Windows => "windows",
        HostOs::MacOs => "macosx",
        _ => "linux",
    }
}

/// The first archive at or after `i` that is for the given host.
pub open spec fn first_for(archives: Seq<ArchiveView>, host: Option<Seq<char>>, i: int) -> Option<
    int,
>
    decreases archives.len() - i,
{
    if i < 0 || i >= archives.len() {
        None
    } else if archives[i].host_os == host {
        Some(i)
    } else {
        first_for(archives, host, i + 1)
    }
}

/// The archive to install: the first for this very host, else the first for any.
pub open spec fn picked(archives: Seq<ArchiveView>, host: HostOs) -> Option<int> {
    match first_for(archives, Some(host_tag(host)), 0) {
        Some(i) => Some(i),
        None => first_for(archives, None, 0),
    }
}

/// What `first_for` finds.
pub proof fn first_for_props(archives: Seq<ArchiveView>, host: Option<Seq<char>>, i: int)
    requires
        0 <= i,
    ensures
        match first_for(archives, host, i) {
            Some(k) => i <= k < archives.len() && archives[k].host_os == host && (forall|j: int|
                i <= j < k ==> (#[trigger] archives[j]).host_os != host),
            None => forall|j: int| i <= j < archives.len() ==> (#[trigger] archives[j]).host_os != host,
        },
    decreases archives.len() - i,
{
    if i < archives.len() && archives[i].host_os != host {
        first_for_props(archives, host, i + 1);
    }
}

/// An archive is picked exactly if one is for this host or for any host, and
/// one for another host never is.
pub proof fn picked_fits(archives: Seq<ArchiveView>, host: HostOs)
    ensures
        picked(archives, host) is Some <==> exists|i: int|
            0 <= i < archives.len() && ((#[trigger] archives[i]).host_os is None
                || archives[i].host_os == Some(host_tag(host))),
        picked(archives, host) matches Some(k) ==> 0 <= k < archives.len() && (
        archives[k].host_os is None || archives[k].host_os == Some(host_tag(host))),
{
    first_for_props(archives, Some(host_tag(host)), 0);
    first_for_props(archives, None, 0);
    if let Some(k) = picked(archives, host) {
        assert(archives[k].host_os is None || archives[k].host_os == Some(host_tag(host)));
    }
}

/// The archive of a package to install on this host.
pub fn pick_archive<'a>(pkg: &'a PackageInfo, package_name: &str, host: HostOs) -> (r: Result<
    &'a ArchiveInfo,
    SdkMgrError,
>)
    ensures
        match r {
            Ok(a) => picked(pkg@, host) matches Some(k) && a@ == pkg@[k],
            Err(SdkMgrError::PackageNotFound(name)) => picked(pkg@, host) is None && name@
                == package_name@,
            Err(_) => false,
        },
{
    let tag = host_os_tag(host);
    let ghost all = pkg@;
    for i in 0..pkg.archives.len()
        invariant
            all == archive_views(pkg.archives@),
            tag@ == host_tag(host),
            first_for(all, Some(tag@), 0) == first_for(all, Some(tag@), i as int),
    {
        assert(all[i as int] == pkg.archives@[i as int]@);
        if let Some(h) = &pkg.archives[i].host_os {
            if same(h, tag) {
                return Ok(&pkg.archives[i]);
            }
        }
    }
    for i in 0..pkg.archives.len()
        invariant
            all == archive_views(pkg.archives@),
            tag@ == host_tag(host),
            first_for(all, Some(tag@), 0) is None,
            first_for(all, None, 0) == first_for(all, None, i as int),
    {
        assert(all[i as int] == pkg.archives@[i as int]@);
        if pkg.archives[i].host_os.is_none() {
            return Ok(&pkg.archives[i]);
        }
    }
    Err(SdkMgrError::PackageNotFound(package_name.to_owned()))
}

/// The archive to install for a package path, or why there is none.
pub fn component_archive<'a>(
    packages: &'a OrdMap<PackageInfo>,
    package_path: &str,
    host: HostOs,
) -> (r: Result<&'a ArchiveInfo, SdkMgrError>)
    ensures
        match (r, lookup(packages@, package_path@)) {
            (Ok(a), Some(pkg)) => picked(pkg@, host) matches Some(k) && a@ == pkg@[k],
            (Err(SdkMgrError::PackageNotFound(name)), Some(pkg)) => picked(pkg@, host) is None
                && name@ == package_path@,
            (Err(SdkMgrError::PackageNotFound(name)), None) => name@ == package_path@,
            _ => false,
        },
{
    match packages.get(package_path) {
        Some(pkg) => pick_archive(pkg, package_path, host),
        None => Err(SdkMgrError::PackageNotFound(package_path.to_owned())),
    }
}

/// The address of an archive.
pub fn archive_url(archive: &ArchiveInfo) -> (r: String)
    ensures
        r@ == ARCHIVE_BASE_URL@ + archive.url@,
{
    concat2(ARCHIVE_BASE_URL, &archive.url)
}

/// Whether a download whose digest is `actual` is accepted for an archive: the
/// digest has to match in any letter case. An archive without a digest in the
/// manifest is never accepted.
pub open spec fn digest_accepted(expected: Seq<char>, actual: Seq<char>) -> bool {
    expected.len() > 0 && lowered(actual) == lowered(expected)
}

/// Compares the digest of a download with the one that the manifest gives.
pub fn compare_digest(archive: &ArchiveInfo, label: &str, actual: String) -> (r: Result<
    (),
    SdkMgrError,
>)
    ensures
        match r {
            Ok(()) => digest_accepted(archive.sha1@, actual@),
            Err(SdkMgrError::ChecksumMismatch { package, expected, actual: a }) =>
                !digest_accepted(archive.sha1@, actual@) && package@ == label@ && expected@
                == archive.sha1@ && a@ == actual@,
            Err(_) => false,
        },
{
    let a = to_lower_text(&actual);
    let b = to_lower_text(&archive.sha1);
    if archive.sha1.unicode_len() > 0 && a == b {
        Ok(())
    } else {
        Err(
            SdkMgrError::ChecksumMismatch {
                package: label.to_owned(),
                expected: archive.sha1.clone(),
                actual,
            },
        )
    }
}

/// Checks a downloaded archive against the digest that the manifest gives.
pub fn verify_archive(archive: &ArchiveInfo, label: &str, data: &[u8]) -> (r: Result<
    (),
    SdkMgrError,
>)
    ensures
        match r {
            Ok(()) => digest_accepted(archive.sha1@, sha1_hex(data@)),
            Err(SdkMgrError::ChecksumMismatch { package, expected, actual }) => !digest_accepted(
                archive.sha1@,
                sha1_hex(data@),
            ) && package@ == label@ && expected@ == archive.sha1@ && actual@ == sha1_hex(data@),
            Err(_) => false,
        },
{
    compare_digest(archive, label, sha1_digest(data))
}

/// Where an entry of a component's archive goes, relative to the component's
/// directory: its name without the first component. The top-level directory
/// itself, and entries outside one, go nowhere.
pub open spec fn entry_below_root(name: Seq<char>) -> Option<Seq<char>> {
    match split_first(name, '/') {
        Some((_, rest)) => if rest.len() > 0 {
            Some(rest)
        } else {
            None
        },
        None => None,
    }
}

/// Where an entry of a component's archive goes, relative to the component's directory.
pub fn strip_archive_root(name: &str) -> (r: Option<String>)
    ensures
        opt_view(r) == entry_below_root(name@),
{
    match split_once(name, '/') {
        Some((_, rest)) => if rest.unicode_len() > 0 {
            Some(rest)
        } else {
            None
        },
        None => None,
    }
}

// ---------------------------------------------------------------------------
// Components of a build

/// A component to install: its package, how it is called in messages, and
/// where it goes.
#[derive(Debug)]
pub struct Component {
    pub package: String,
    pub label: String,
    pub dir: String,
}

/// The texts of a component.
pub struct ComponentView {
    pub package: Seq<char>,
    pub label: Seq<char>,
    pub dir: Seq<char>,
}

impl View for Component {
    type V = ComponentView;

    open spec fn view(&self) -> ComponentView {
        ComponentView { package: self.package@, label: self.label@, dir: self.dir@ }
    }
}

/// The texts of a list of components.
pub open spec fn component_views(v: Seq<Component>) -> Seq<ComponentView> {
    v.map_values(|c: Component| c@)
}

/// A list of the component where it is needed, else the empty list.
pub open spec fn component_if(needed: bool, c: ComponentView) -> Seq<ComponentView> {
    if needed {
        seq![c]
    } else {
        seq![]
    }
}

/// What an installation takes: the packages to look up in the manifest, and
/// the components to install, in order. Nothing is to be done where both are
/// empty.
#[derive(Debug)]
pub struct InstallPlan {
    pub wanted: Vec<String>,
    pub installs: Vec<Component>,
}

/// An SDK below the directory that Rusk manages.
#[derive(Debug)]
pub struct ManagedSdk {
    pub root: String,
    pub build_tools: String,
    pub platform_jar: String,
    pub platform_tools_dir: String,
}

/// Which of a build's components are marked as completely installed.
#[derive(Debug, Clone, Copy)]
pub struct BuildComponents {
    pub build_tools: bool,
    pub platform: bool,
    pub platform_tools: bool,
}

/// The directory of the managed SDK below the user's home.
pub open spec fn sdk_root_path(host: HostOs, home: Seq<char>) -> Seq<char> {
    joined_path(host, joined_path(host, home, ".rusk"@), "android-sdk"@)
}

/// The directory of the managed SDK; a user without a home has none.
pub fn sdk_root(host: HostOs, home: Option<&str>) -> (r: Result<String, SdkMgrError>)
    ensures
        match (r, home) {
            (Ok(root), Some(h)) => root@ == sdk_root_path(host, h@),
            (Err(SdkMgrError::NoCacheDir), None) => true,
            _ => false,
        },
{
    match home {
        Some(h) => Ok(join_path(host, &join_path(host, h, ".rusk"), "android-sdk")),
        None => Err(SdkMgrError::NoCacheDir),
    }
}

/// The file that marks a component as completely installed.
pub fn completion_marker(host: HostOs, dir: &str) -> (r: String)
    ensures
        r@ == joined_path(host, dir@, ".rusk-complete"@),
{
    join_path(host, dir, ".rusk-complete")
}

/// The build-tools component at a version.
pub open spec fn build_tools_component(
    host: HostOs,
    root: Seq<char>,
    version: Seq<char>,
) -> ComponentView {
    ComponentView {
        package: "build-tools;"@ + version,
        label: "build-tools "@ + version,
        dir: joined_path(host, joined_path(host, root, "build-tools"@), version),
    }
}

/// The platform component of an API level.
pub open spec fn platform_component(host: HostOs, root: Seq<char>, api: u32) -> ComponentView {
    ComponentView {
        package: "platforms;android-"@ + decimal(api as nat),
        label: "platform android-"@ + decimal(api as nat),
        dir: joined_path(
            host,
            joined_path(host, root, "platforms"@),
            "android-"@ + decimal(api as nat),
        ),
    }
}

/// The platform-tools component.
pub open spec fn platform_tools_component(host: HostOs, root: Seq<char>) -> ComponentView {
    ComponentView {
        package: "platform-tools"@,
        label: "platform-tools"@,
        dir: joined_path(host, root, "platform-tools"@),
    }
}

fn numbered(prefix: &str, n: u32) -> (r: String)
    ensures
        r@ == prefix@ + decimal(n as nat),
{
    let mut out = prefix.to_owned();
    push_decimal(&mut out, n as u64);
    out
}

fn push_component(installs: &mut Vec<Component>, c: Component)
    ensures
        component_views(final(installs)@) == component_views(old(installs)@) + component_if(
            true,
            c@,
        ),
{
    let ghost before = installs@;
    installs.push(c);
    assert(component_views(installs@) =~= component_views(before) + seq![c@]);
}

fn push_wanted(wanted: &mut Vec<String>, s: &String)
    ensures
        views(final(wanted)@) == views(old(wanted)@) + one_if(true, s@),
{
    let ghost before = wanted@;
    wanted.push(s.clone());
    assert(views(wanted@) =~= views(before) + seq![s@]);
}

/// What has to be done so that platform-tools, one version of the build-tools
/// and one platform are installed, and where they then stand.
pub fn ensure_components(
    host: HostOs,
    root: &str,
    build_tools_version: &str,
    api: u32,
    complete: BuildComponents,
) -> (r: (InstallPlan, ManagedSdk))
    ensures
        ({
            let tools = build_tools_component(host, root@, build_tools_version@);
            let platform = platform_component(host, root@, api);
            let adb = platform_tools_component(host, root@);
            &&& views(r.0.wanted@) == one_if(!complete.build_tools, tools.package) + one_if(
                !complete.platform,
                platform.package,
            ) + one_if(!complete.platform_tools, adb.package)
            &&& component_views(r.0.installs@) == component_if(!complete.platform_tools, adb)
                + component_if(!complete.build_tools, tools) + component_if(
                !complete.platform,
                platform,
            )
            &&& r.1.root@ == root@
            &&& r.1.build_tools@ == tools.dir
            &&& r.1.platform_jar@ == joined_path(host, platform.dir, "android.jar"@)
            &&& r.1.platform_tools_dir@ == adb.dir
        }),
{
    let build_tools_dir = join_path(
        host,
        &join_path(host, root, "build-tools"),
        build_tools_version,
    );
    let platform_dir = join_path(
        host,
        &join_path(host, root, "platforms"),
        &numbered("android-", api),
    );
    let platform_tools_dir = join_path(host, root, "platform-tools");
    let build_tools = Component {
        package: concat2("build-tools;", build_tools_version),
        label: concat2("build-tools ", build_tools_version),
        dir: build_tools_dir.clone(),
    };
    let platform = Component {
        package: numbered("platforms;android-", api),
        label: numbered("platform android-", api),
        dir: platform_dir.clone(),
    };
    let platform_tools = Component {
        package: "platform-tools".to_owned(),
        label: "platform-tools".to_owned(),
        dir: platform_tools_dir.clone(),
    };
    let mut wanted: Vec<String> = Vec::new();
    assert(views(wanted@) =~= seq![]);
    if !complete.build_tools {
        push_wanted(&mut wanted, &build_tools.package);
    }
    if !complete.platform {
        push_wanted(&mut wanted, &platform.package);
    }
    if !complete.platform_tools {
        push_wanted(&mut wanted, &platform_tools.package);
    }
    let ghost tools = build_tools@;
    let ghost plat = platform@;
    let ghost adb = platform_tools@;
    assert(views(wanted@) =~= one_if(!complete.build_tools, tools.package) + one_if(
        !complete.platform,
        plat.package,
    ) + one_if(!complete.platform_tools, adb.package));
    let mut installs: Vec<Component> = Vec::new();
    assert(component_views(installs@) =~= seq![]);
    if !complete.platform_tools {
        push_component(&mut installs, platform_tools);
    }
    if !complete.build_tools {
        push_component(&mut installs, build_tools);
    }
    if !complete.platform {
        push_component(&mut installs, platform);
    }
    assert(component_views(installs@) =~= component_if(!complete.platform_tools, adb)
        + component_if(!complete.build_tools, tools) + component_if(!complete.platform, plat));
    (
        InstallPlan { wanted, installs },
        ManagedSdk {
            root: root.to_owned(),
            build_tools: build_tools_dir,
            platform_jar: join_path(host, &platform_dir, "android.jar"),
            platform_tools_dir,
        },
    )
}

/// The executables of the build-tools.
#[derive(Debug)]
pub struct BuildTools {
    pub aapt2: String,
    pub d8: String,
    pub zipalign: String,
    pub apksigner: String,
}

impl ManagedSdk {
    /// The executables of the managed build-tools.
    pub fn build_tools(&self, host: HostOs) -> (r: BuildTools)
        ensures
            r.aapt2@ == joined_path(host, self.build_tools@, "aapt2"@ + exe_suffix(host)),
            r.d8@ == joined_path(host, self.build_tools@, "d8"@ + bat_suffix(host)),
            r.zipalign@ == joined_path(host, self.build_tools@, "zipalign"@ + exe_suffix(host)),
            r.apksigner@ == joined_path(host, self.build_tools@, "apksigner"@ + bat_suffix(host)),
    {
        BuildTools {
            aapt2: join_path(host, &self.build_tools, &exe_name(host, "aapt2")),
            d8: join_path(host, &self.build_tools, &bat_name(host, "d8")),
            zipalign: join_path(host, &self.build_tools, &exe_name(host, "zipalign")),
            apksigner: join_path(host, &self.build_tools, &bat_name(host, "apksigner")),
        }
    }
}

// ---------------------------------------------------------------------------
// Emulator

/// What running an emulator takes.
#[derive(Debug)]
pub struct EmulatorComponents {
    pub cmdline_tools_dir: String,
    pub emulator_dir: String,
    pub emulator_bin: String,
    pub system_image_dir: String,
    pub avdmanager: String,
}

/// Which of the emulator's components are marked as completely installed.
#[derive(Debug, Clone, Copy)]
pub struct EmulatorStatus {
    pub cmdline_tools: bool,
    pub emulator: bool,
    pub system_image: bool,
}

/// The ABI of system images that the host can run with hardware acceleration.
pub open spec fn image_abi(arch: HostArch) -> Seq<char> {
    if arch == HostArch::Arm64 {
        "arm64-v8a"@
    } else {
        "x86_64"@
    }
}

fn image_abi_name(arch: HostArch) -> (r: &'static str)
    ensures
        r@ == image_abi(arch),
{
    if arch == HostArch::Arm64 {
        "arm64-v8a"
    } else {
        "x86_64"
    }
}

/// The package of the system image for an API level.
pub open spec fn image_package(arch: HostArch, api: u32) -> Seq<char> {
    "system-images;android-"@ + decimal(api as nat) + ";google_apis;"@ + image_abi(arch)
}

/// The package of the system image for an API level on the host's architecture.
pub fn system_image_path(arch: HostArch, api: u32) -> (r: String)
    ensures
        r@ == image_package(arch, api),
{
    let mut out = numbered("system-images;android-", api);
    out.append(";google_apis;");
    out.append(image_abi_name(arch));
    out
}

/// The command-line tools component.
pub open spec fn cmdline_tools_component(host: HostOs, root: Seq<char>) -> ComponentView {
    ComponentView {
        package: "cmdline-tools;latest"@,
        label: "cmdline-tools"@,
        dir: joined_path(host, joined_path(host, root, "cmdline-tools"@), "latest"@),
    }
}

/// The emulator component.
pub open spec fn emulator_component(host: HostOs, root: Seq<char>) -> ComponentView {
    ComponentView {
        package: "emulator"@,
        label: "emulator"@,
        dir: joined_path(host, root, "emulator"@),
    }
}

/// The system image component for an API level.
pub open spec fn image_component(
    host: HostOs,
    arch: HostArch,
    root: Seq<char>,
    api: u32,
) -> ComponentView {
    ComponentView {
        package: image_package(arch, api),
        label: "system-image android-"@ + decimal(api as nat) + " (google_apis)"@,
        dir: joined_path(
            host,
            joined_path(
                host,
                joined_path(
                    host,
                    joined_path(host, root, "system-images"@),
                    "android-"@ + decimal(api as nat),
                ),
                "google_apis"@,
            ),
            image_abi(arch),
        ),
    }
}

/// What has to be done so that the command-line tools, the emulator and a
/// system image are installed, and where they then stand.
pub fn ensure_emulator_components(
    host: HostOs,
    arch: HostArch,
    root: &str,
    api: u32,
    complete: EmulatorStatus,
) -> (r: (InstallPlan, EmulatorComponents))
    ensures
        ({
            let tools = cmdline_tools_component(host, root@);
            let emulator = emulator_component(host, root@);
            let image = image_component(host, arch, root@, api);
            &&& views(r.0.wanted@) == one_if(!complete.cmdline_tools, tools.package) + one_if(
                !complete.emulator,
                emulator.package,
            ) + one_if(!complete.system_image, image.package)
            &&& component_views(r.0.installs@) == component_if(!complete.cmdline_tools, tools)
                + component_if(!complete.emulator, emulator) + component_if(
                !complete.system_image,
                image,
            )
            &&& r.1.cmdline_tools_dir@ == tools.dir
            &&& r.1.emulator_dir@ == emulator.dir
            &&& r.1.emulator_bin@ == joined_path(
                host,
                emulator.dir,
                "emulator"@ + exe_suffix(host),
            )
            &&& r.1.system_image_dir@ == image.dir
            &&& r.1.avdmanager@ == joined_path(
                host,
                joined_path(host, tools.dir, "bin"@),
                "avdmanager"@ + bat_suffix(host),
            )
        }),
{
    let cmdline_tools_dir = join_path(host, &join_path(host, root, "cmdline-tools"), "latest");
    let emulator_dir = join_path(host, root, "emulator");
    let images = join_path(host, root, "system-images");
    let api_images = join_path(host, &images, &numbered("android-", api));
    let google_images = join_path(host, &api_images, "google_apis");
    let system_image_dir = join_path(host, &google_images, image_abi_name(arch));
    let cmdline_tools = Component {
        package: "cmdline-tools;latest".to_owned(),
        label: "cmdline-tools".to_owned(),
        dir: cmdline_tools_dir.clone(),
    };
    let emulator = Component {
        package: "emulator".to_owned(),
        label: "emulator".to_owned(),
        dir: emulator_dir.clone(),
    };
    let image = Component {
        package: system_image_path(arch, api),
        label: concat2(&numbered("system-image android-", api), " (google_apis)"),
        dir: system_image_dir.clone(),
    };
    let ghost tools_v = cmdline_tools@;
    let ghost emulator_v = emulator@;
    let ghost image_v = image@;
    let mut wanted: Vec<String> = Vec::new();
    let mut installs: Vec<Component> = Vec::new();
    assert(views(wanted@) =~= seq![]);
    assert(component_views(installs@) =~= seq![]);
    if !complete.cmdline_tools {
        push_wanted(&mut wanted, &cmdline_tools.package);
        push_component(&mut installs, cmdline_tools);
    }
    if !complete.emulator {
        push_wanted(&mut wanted, &emulator.package);
        push_component(&mut installs, emulator);
    }
    if !complete.system_image {
        push_wanted(&mut wanted, &image.package);
        push_component(&mut installs, image);
    }
    assert(views(wanted@) =~= one_if(!complete.cmdline_tools, tools_v.package) + one_if(
        !complete.emulator,
        emulator_v.package,
    ) + one_if(!complete.system_image, image_v.package));
    assert(component_views(installs@) =~= component_if(!complete.cmdline_tools, tools_v)
        + component_if(!complete.emulator, emulator_v) + component_if(
        !complete.system_image,
        image_v,
    ));
    (
        InstallPlan { wanted, installs },
        EmulatorComponents {
            emulator_bin: join_path(host, &emulator_dir, &exe_name(host, "emulator")),
            avdmanager: join_path(
                host,
                &join_path(host, &cmdline_tools_dir, "bin"),
                &bat_name(host, "avdmanager"),
            ),
            cmdline_tools_dir,
            emulator_dir,
            system_image_dir,
        },
    )
}

/// Where nothing is missing, nothing is looked up and nothing is installed; and
/// a component is installed exactly if its package is looked up.
pub proof fn plan_installs_what_it_wants(
    need: (bool, bool, bool),
    a: ComponentView,
    b: ComponentView,
    c: ComponentView,
)
    ensures
        ({
            let wanted = one_if(need.0, a.package) + one_if(need.1, b.package) + one_if(
                need.2,
                c.package,
            );
            let installs = component_if(need.2, c) + component_if(need.0, a) + component_if(
                need.1,
                b,
            );
            &&& wanted.len() == installs.len()
            &&& (!need.0 && !need.1 && !need.2 <==> wanted.len() == 0)
            &&& forall|i: int|
                0 <= i < installs.len() ==> wanted.contains((#[trigger] installs[i]).package)
        }),
{
    let wa = one_if(need.0, a.package);
    let wb = one_if(need.1, b.package);
    let wc = one_if(need.2, c.package);
    let wanted = wa + wb + wc;
    let installs = component_if(need.2, c) + component_if(need.0, a) + component_if(need.1, b);
    if need.0 {
        assert(wanted[0] == a.package);
    }
    if need.1 {
        assert(wanted[wa.len() as int] == b.package);
    }
    if need.2 {
        assert(wanted[(wa.len() + wb.len()) as int] == c.package);
    }
}

/// The names of the virtual devices among the entries of the AVD directory.
pub open spec fn avd_names_of(entries: Seq<Seq<char>>) -> Seq<Seq<char>>
    decreases entries.len(),
{
    if entries.len() == 0 {
        seq![]
    } else if ".ini"@.is_suffix_of(entries.last()) {
        avd_names_of(entries.drop_last()).push(
            entries.last().take(entries.last().len() - ".ini"@.len()),
        )
    } else {
        avd_names_of(entries.drop_last())
    }
}

/// The names of the virtual devices, sorted: the `.ini` files in the AVD
/// directory without that ending.
pub fn list_avds(entries: &Vec<String>) -> (r: Vec<String>)
    ensures
        in_order(views(r@)),
        views(r@).to_multiset() == avd_names_of(views(entries@)).to_multiset(),
{
    let mut names: Vec<String> = Vec::new();
    assert(views(names@) =~= seq![]);
    for i in 0..entries.len()
        invariant
            views(names@) == avd_names_of(views(entries@).take(i as int)),
    {
        let ghost all = views(entries@);
        proof {
            assert(all.take(i + 1).drop_last() =~= all.take(i as int));
            assert(all[i as int] == entries@[i as int]@);
        }
        match strip_suffix(&entries[i], ".ini") {
            Some(name) => {
                let ghost before = names@;
                proof {
                    let e = entries@[i as int]@;
                    assert(e.take(e.len() - ".ini"@.len()) =~= name@);
                    assert(e.subrange(e.len() - ".ini"@.len(), e.len() as int) =~= ".ini"@);
                }
                names.push(name);
                assert(views(names@) =~= views(before).push(name@));
            },
            None => {},
        }
    }
    assert(views(entries@).take(entries@.len() as int) =~= views(entries@));
    sort_strings(&names)
}

/// The arguments with which an AVD is created.
pub open spec fn creation_args(arch: HostArch, name: Seq<char>, api: u32) -> Seq<Seq<char>> {
    seq!["create"@, "avd"@, "--name"@, name, "--package"@, image_package(arch, api), "--force"@]
}

/// The arguments that make `avdmanager` create a virtual device.
pub fn create_avd_args(arch: HostArch, name: &str, api: u32) -> (r: Vec<String>)
    ensures
        views(r@) == creation_args(arch, name@, api),
{
    let r = vec![
        "create".to_owned(),
        "avd".to_owned(),
        "--name".to_owned(),
        name.to_owned(),
        "--package".to_owned(),
        system_image_path(arch, api),
        "--force".to_owned(),
    ];
    assert(views(r@) =~= seq![
        "create"@,
        "avd"@,
        "--name"@,
        name@,
        "--package"@,
        image_package(arch, api),
        "--force"@,
    ]);
    r
}

/// The arguments that make the emulator start a virtual device.
pub fn launch_avd_args(name: &str) -> (r: Vec<String>)
    ensures
        views(r@) == seq!["-avd"@, name@, "-netdelay"@, "none"@, "-netspeed"@, "full"@],
{
    let r = vec![
        "-avd".to_owned(),
        name.to_owned(),
        "-netdelay".to_owned(),
        "none".to_owned(),
        "-netspeed".to_owned(),
        "full".to_owned(),
    ];
    assert(views(r@) =~= seq!["-avd"@, name@, "-netdelay"@, "none"@, "-netspeed"@, "full"@]);
    r
}

/// The environment of the emulator's tools.
pub open spec fn avd_variables(host: HostOs, root: Seq<char>) -> Seq<(Seq<char>, Seq<char>)> {
    seq![("ANDROID_AVD_HOME"@, joined_path(host, root, "avd"@)), ("ANDROID_SDK_ROOT"@, root)]
}

/// The environment of `avdmanager` and the emulator.
pub fn avd_environment(host: HostOs, root: &str) -> (r: Vec<(String, String)>)
    ensures
        pair_views(r@) == avd_variables(host, root@),
{
    let r = vec![
        ("ANDROID_AVD_HOME".to_owned(), join_path(host, root, "avd")),
        ("ANDROID_SDK_ROOT".to_owned(), root.to_owned()),
    ];
    assert(pair_views(r@) =~= seq![
        ("ANDROID_AVD_HOME"@, joined_path(host, root@, "avd"@)),
        ("ANDROID_SDK_ROOT"@, root@),
    ]);
    r
}

/// The result of creating a virtual device, from `avdmanager`'s exit code.
pub fn avd_created(name: &str, success: bool, code: Option<i32>) -> (r: Result<(), SdkMgrError>)
    ensures
        match r {
            Ok(()) => success,
            Err(SdkMgrError::PackageNotFound(what)) => !success && what@
                == "avdmanager exited with status "@ + exit_code_text(code) + " creating AVD \""@
                + name@ + "\""@,
            Err(_) => false,
        },
{
    if success {
        return Ok(());
    }
    let mut what = "avdmanager exited with status ".to_owned();
    what.append(&exit_code(code));
    what.append(" creating AVD \"");
    what.append(name);
    what.append("\"");
    Err(SdkMgrError::PackageNotFound(what))
}

// ---------------------------------------------------------------------------
// Installing one component

/// Where a component's archive is downloaded to.
pub fn download_path(host: HostOs, dir: &str) -> (r: String)
    ensures
        r@ == joined_path(host, dir@, "download.zip"@),
{
    join_path(host, dir, "download.zip")
}

/// The steps of an installation.
#[derive(Debug, Clone, Copy, PartialEq, Eq, Structural)]
pub enum InstallStep {
    CreateDir,
    Download,
    Verify,
    Unpack,
    RemoveArchive,
    Mark,
    Done,
}

/// The step after one that succeeded or failed; nothing follows a failure, except
/// that an archive which cannot be removed is left behind.
pub open spec fn install_after(step: InstallStep, success: bool) -> Option<InstallStep> {
    match step {
        InstallStep::CreateDir => if success {
            Some(InstallStep::Download)
        } else {
            None
        },
        InstallStep::Download => if success {
            Some(InstallStep::Verify)
        } else {
            None
        },
        InstallStep::Verify => if success {
            Some(InstallStep::Unpack)
        } else {
            None
        },
        InstallStep::Unpack => if success {
            Some(InstallStep::RemoveArchive)
        } else {
            None
        },
        InstallStep::RemoveArchive => Some(InstallStep::Mark),
        InstallStep::Mark => if success {
            Some(InstallStep::Done)
        } else {
            None
        },
        InstallStep::Done => Some(InstallStep::Done),
    }
}

/// The step after one that succeeded or failed.
pub fn next_install_step(step: InstallStep, success: bool) -> (r: Option<InstallStep>)
    ensures
        r == install_after(step, success),
{
    match step {
        InstallStep::CreateDir => if success {
            Some(InstallStep::Download)
        } else {
            None
        },
        InstallStep::Download => if success {
            Some(InstallStep::Verify)
        } else {
            None
        },
        InstallStep::Verify => if success {
            Some(InstallStep::Unpack)
        } else {
            None
        },
        InstallStep::Unpack => if success {
            Some(InstallStep::RemoveArchive)
        } else {
            None
        },
        InstallStep::RemoveArchive => Some(InstallStep::Mark),
        InstallStep::Mark => if success {
            Some(InstallStep::Done)
        } else {
            None
        },
        InstallStep::Done => Some(InstallStep::Done),
    }
}

/// The step that outcomes lead to from the first one, if none of them ends the
/// installation.
pub open spec fn install_reaches(outcomes: Seq<bool>) -> Option<InstallStep>
    decreases outcomes.len(),
{
    if outcomes.len() == 0 {
        Some(InstallStep::CreateDir)
    } else {
        match install_reaches(outcomes.drop_last()) {
            Some(step) => install_after(step, outcomes.last()),
            None => None,
        }
    }
}

/// A component is marked as complete only after its archive was downloaded,
/// verified and unpacked.
pub proof fn marked_means_verified(outcomes: Seq<bool>)
    requires
        install_reaches(outcomes) matches Some(step) && (step == InstallStep::Mark || step
            == InstallStep::Done),
    ensures
        outcomes.len() >= 5,
        outcomes[0] && outcomes[1] && outcomes[2] && outcomes[3],
{
    install_prefix(outcomes);
}

proof fn install_prefix(outcomes: Seq<bool>)
    ensures
        match install_reaches(outcomes) {
            Some(InstallStep::CreateDir) => outcomes.len() == 0,
            Some(InstallStep::Download) => outcomes.len() == 1 && outcomes[0],
            Some(InstallStep::Verify) => outcomes.len() == 2 && outcomes[0] && outcomes[1],
            Some(InstallStep::Unpack) => outcomes.len() == 3 && outcomes[0] && outcomes[1]
                && outcomes[2],
            Some(InstallStep::RemoveArchive) => outcomes.len() == 4 && outcomes[0] && outcomes[1]
                && outcomes[2] && outcomes[3],
            Some(InstallStep::Mark) => outcomes.len() == 5 && outcomes[0] && outcomes[1]
                && outcomes[2] && outcomes[3],
            Some(InstallStep::Done) => outcomes.len() >= 6 && outcomes[0] && outcomes[1]
                && outcomes[2] && outcomes[3],
            None => true,
        },
    decreases outcomes.len(),
{
    if outcomes.len() > 0 {
        let before = outcomes.drop_last();
        install_prefix(before);
        assert forall|i: int| 0 <= i < before.len() implies before[i] == outcomes[i] by {}
    }
}

/// Which virtual devices there are, and in what order they are shown, does not
/// depend on the order in which the directory is listed.
pub proof fn avd_listing_order_does_not_matter(
    entries: Seq<Seq<char>>,
    other: Seq<Seq<char>>,
    names: Seq<Seq<char>>,
    other_names: Seq<Seq<char>>,
)
    requires
        entries.to_multiset() == other.to_multiset(),
        in_order(names),
        in_order(other_names),
        names.to_multiset() == avd_names_of(entries).to_multiset(),
        other_names.to_multiset() == avd_names_of(other).to_multiset(),
    ensures
        names == other_names,
{
    assert forall|n: Seq<char>| names.to_multiset().count(n) == other_names.to_multiset().count(n) by {
        avd_name_count(entries, n);
        avd_name_count(other, n);
    }
    assert(names.to_multiset() =~= other_names.to_multiset());
    in_order_unique(names, other_names);
}

proof fn avd_name_count(entries: Seq<Seq<char>>, name: Seq<char>)
    ensures
        avd_names_of(entries).to_multiset().count(name) == entries.to_multiset().count(
            name + ".ini"@,
        ),
    decreases entries.len(),
{
    broadcast use vstd::seq_lib::group_to_multiset_ensures;

    if entries.len() > 0 {
        let rest = entries.drop_last();
        let last = entries.last();
        avd_name_count(rest, name);
        assert(entries =~= rest.push(last));
        let n = last.len() - ".ini"@.len();
        if ".ini"@.is_suffix_of(last) {
            let stem = last.take(n);
            assert(last =~= stem + ".ini"@);
            if stem == name {
                assert(last == name + ".ini"@);
            } else {
                assert(last != name + ".ini"@) by {
                    if last == name + ".ini"@ {
                        assert(stem =~= name);
                    }
                }
            }
        } else {
            assert(last != name + ".ini"@) by {
                if last == name + ".ini"@ {
                    assert(last.subrange(n, last.len() as int) =~= ".ini"@);
                }
            }
        }
    }
}

// ---------------------------------------------------------------------------
// Where the components are

/// Whether a component lies where its package says: the names between the package's
/// semicolons lead there from the root.
pub open spec fn lies_where_named(host: HostOs, root: Seq<char>, c: ComponentView) -> bool {
    components(host, c.dir) == components(host, root) + split_all(c.package, ';')
}

proof fn numbered_name(n: nat)
    ensures
        one_name("android-"@ + decimal(n)),
        !("android-"@ + decimal(n)).contains(';'),
{
    reveal_strlit("android-");
    decimal_digits(n);
    let s = "android-"@ + decimal(n);
    assert forall|i: int| 0 <= i < s.len() implies s[i] != ';' && s[i] != '/' && s[i] != '\\'
        && s[i] != ':' by {
        if i < 8 {
            assert(s[i] == "android-"@[i]);
        } else {
            assert(s[i] == decimal(n)[i - 8]);
        }
    }
    long_name_is_one_name(s);
}

/// The build tools lie in the directory of their version, below `build-tools`.
#[verifier::rlimit(40)]
pub proof fn build_tools_lie_where_named(host: HostOs, root: Seq<char>, version: Seq<char>)
    requires
        steady(host, root),
        one_name(version),
        !version.contains(';'),
    ensures
        lies_where_named(host, root, build_tools_component(host, root, version)),
        split_all(build_tools_component(host, root, version).package, ';') == seq![
            "build-tools"@,
            version,
        ],
        version.is_suffix_of(build_tools_component(host, root, version).label),
{
    assert(one_name("build-tools"@)) by {
        reveal_strlit("build-tools");
        long_name_is_one_name("build-tools"@);
    }
    joined_2(host, root, "build-tools"@, version);
    assert("build-tools;"@ =~= "build-tools"@ + seq![';'] && !"build-tools"@.contains(';')) by {
        reveal_strlit("build-tools;");
        reveal_strlit("build-tools");
    }
    split_all_without("build-tools"@, ';');
    split_on("build-tools"@, version, ';');
    assert(split_all(build_tools_component(host, root, version).package, ';') =~= seq![
        "build-tools"@,
        version,
    ]);
    let label = "build-tools "@ + version;
    assert(label.subrange(label.len() - version.len(), label.len() as int) =~= version);
}

/// A platform lies in the directory of its level, below `platforms`.
#[verifier::rlimit(40)]
pub proof fn platform_lies_where_named(host: HostOs, root: Seq<char>, api: u32)
    requires
        steady(host, root),
    ensures
        lies_where_named(host, root, platform_component(host, root, api)),
        split_all(platform_component(host, root, api).package, ';') == seq![
            "platforms"@,
            "android-"@ + decimal(api as nat),
        ],
        ("android-"@ + decimal(api as nat)).is_suffix_of(
            platform_component(host, root, api).label,
        ),
{
    let level = "android-"@ + decimal(api as nat);
    numbered_name(api as nat);
    assert(one_name("platforms"@)) by {
        reveal_strlit("platforms");
        long_name_is_one_name("platforms"@);
    }
    joined_2(host, root, "platforms"@, level);
    assert("platforms;android-"@ =~= "platforms"@ + seq![';'] + "android-"@
        && !"platforms"@.contains(';')) by {
        reveal_strlit("platforms;android-");
        reveal_strlit("platforms");
        reveal_strlit("android-");
    }
    assert("platforms;android-"@ + decimal(api as nat) =~= "platforms"@ + seq![';'] + level);
    split_all_without("platforms"@, ';');
    split_on("platforms"@, level, ';');
    assert(split_all(platform_component(host, root, api).package, ';') =~= seq![
        "platforms"@,
        level,
    ]);
    let label = platform_component(host, root, api).label;
    assert("platform android-"@ =~= "platform "@ + "android-"@) by {
        reveal_strlit("platform android-");
        reveal_strlit("platform ");
        reveal_strlit("android-");
    }
    assert(label.subrange(label.len() - level.len(), label.len() as int) =~= level);
}

/// The tools that come in one version lie in a directory of their own.
#[verifier::rlimit(40)]
pub proof fn single_tools_lie_where_named(host: HostOs, root: Seq<char>)
    requires
        steady(host, root),
    ensures
        lies_where_named(host, root, platform_tools_component(host, root)),
        split_all(platform_tools_component(host, root).package, ';') == seq!["platform-tools"@],
        lies_where_named(host, root, emulator_component(host, root)),
        split_all(emulator_component(host, root).package, ';') == seq!["emulator"@],
        lies_where_named(host, root, cmdline_tools_component(host, root)),
        split_all(cmdline_tools_component(host, root).package, ';') == seq![
            "cmdline-tools"@,
            "latest"@,
        ],
{
    assert(one_name("platform-tools"@)) by {
        reveal_strlit("platform-tools");
        long_name_is_one_name("platform-tools"@);
    }
    assert(one_name("emulator"@)) by {
        reveal_strlit("emulator");
        long_name_is_one_name("emulator"@);
    }
    assert(one_name("cmdline-tools"@)) by {
        reveal_strlit("cmdline-tools");
        long_name_is_one_name("cmdline-tools"@);
    }
    assert(one_name("latest"@)) by {
        reveal_strlit("latest");
        long_name_is_one_name("latest"@);
    }
    joined_components(host, root, "platform-tools"@);
    joined_components(host, root, "emulator"@);
    joined_2(host, root, "cmdline-tools"@, "latest"@);
    assert(!"platform-tools"@.contains(';')) by {
        reveal_strlit("platform-tools");
    }
    assert(!"emulator"@.contains(';')) by {
        reveal_strlit("emulator");
    }
    assert("cmdline-tools;latest"@ =~= "cmdline-tools"@ + seq![';'] + "latest"@
        && !"cmdline-tools"@.contains(';') && !"latest"@.contains(';')) by {
        reveal_strlit("cmdline-tools;latest");
        reveal_strlit("cmdline-tools");
        reveal_strlit("latest");
    }
    split_all_without("platform-tools"@, ';');
    split_all_without("emulator"@, ';');
    split_all_without("cmdline-tools"@, ';');
    split_on("cmdline-tools"@, "latest"@, ';');
    assert(split_all("cmdline-tools;latest"@, ';') =~= seq!["cmdline-tools"@, "latest"@]);
    assert(components(host, root).push("platform-tools"@) =~= components(host, root) + seq![
        "platform-tools"@,
    ]);
    assert(components(host, root).push("emulator"@) =~= components(host, root) + seq![
        "emulator"@,
    ]);
}

/// A system image lies in the directory of its level, its services and its ABI, which
/// is one that the host runs itself.
#[verifier::rlimit(60)]
pub proof fn image_lies_where_named(host: HostOs, arch: HostArch, root: Seq<char>, api: u32)
    requires
        steady(host, root),
    ensures
        lies_where_named(host, root, image_component(host, arch, root, api)),
        split_all(image_package(arch, api), ';') == seq![
            "system-images"@,
            "android-"@ + decimal(api as nat),
            "google_apis"@,
            if arch == HostArch::Arm64 {
                "arm64-v8a"@
            } else {
                "x86_64"@
            },
        ],
{
    let level = "android-"@ + decimal(api as nat);
    numbered_name(api as nat);
    let abi = image_abi(arch);
    assert(one_name("system-images"@)) by {
        reveal_strlit("system-images");
        long_name_is_one_name("system-images"@);
    }
    assert(one_name("google_apis"@)) by {
        reveal_strlit("google_apis");
        long_name_is_one_name("google_apis"@);
    }
    assert(one_name(abi) && !abi.contains(';')) by {
        reveal_strlit("arm64-v8a");
        reveal_strlit("x86_64");
        long_name_is_one_name(abi);
    }
    joined_4(host, root, "system-images"@, level, "google_apis"@, abi);
    assert("system-images;android-"@ =~= "system-images"@ + seq![';'] + "android-"@
        && !"system-images"@.contains(';')) by {
        reveal_strlit("system-images;android-");
        reveal_strlit("system-images");
        reveal_strlit("android-");
    }
    assert(";google_apis;"@ =~= seq![';'] + "google_apis"@ + seq![';']
        && !"google_apis"@.contains(';')) by {
        reveal_strlit(";google_apis;");
        reveal_strlit("google_apis");
    }
    let s0 = "system-images"@;
    split_all_without(s0, ';');
    let s1 = s0 + seq![';'] + level;
    split_on(s0, level, ';');
    let s2 = s1 + seq![';'] + "google_apis"@;
    split_on(s1, "google_apis"@, ';');
    split_on(s2, abi, ';');
    assert(image_package(arch, api) =~= s2 + seq![';'] + abi);
    assert(split_all(image_package(arch, api), ';') =~= seq![s0, level, "google_apis"@, abi]);
}

/// The image that is fetched is one for the processor of the host.
pub proof fn image_fits_host(arch: HostArch)
    ensures
        processor(image_abi(arch)) == Some(
            if arch == HostArch::Arm64 {
                "aarch64"@
            } else {
                "x86_64"@
            },
        ),
{
    reveal_strlit("arm64-v8a");
    reveal_strlit("armeabi-v7a");
    reveal_strlit("x86_64");
}

/// An AVD is created under its name, from the image of its level.
pub proof fn avd_is_created_from_image(arch: HostArch, name: Seq<char>, api: u32)
    ensures
        option_is(creation_args(arch, name, api), "--name"@, name),
        option_is(creation_args(arch, name, api), "--package"@, image_package(arch, api)),
        creation_args(arch, name, api).take(2) == seq!["create"@, "avd"@],
        creation_args(arch, name, api).contains("--force"@),
{
    let args = creation_args(arch, name, api);
    assert(args[2] == "--name"@ && args[3] == name);
    assert(args[4] == "--package"@ && args[5] == image_package(arch, api));
    assert(args[6] == "--force"@);
    assert(args.take(2) =~= seq!["create"@, "avd"@]);
}

/// The emulator's tools find the SDK at its root, and the AVDs below it.
pub proof fn avds_lie_below_root(host: HostOs, root: Seq<char>)
    requires
        steady(host, root),
    ensures
        avd_variables(host, root).contains(("ANDROID_SDK_ROOT"@, root)),
        exists|home: Seq<char>|
            avd_variables(host, root).contains(("ANDROID_AVD_HOME"@, home)) && #[trigger] components(
                host,
                home,
            ) == components(host, root).push("avd"@),
{
    assert(one_name("avd"@)) by {
        reveal_strlit("avd");
        long_name_is_one_name("avd"@);
    }
    joined_components(host, root, "avd"@);
    let vars = avd_variables(host, root);
    let home = joined_path(host, root, "avd"@);
    assert(vars[0] == ("ANDROID_AVD_HOME"@, home));
    assert(vars[1] == ("ANDROID_SDK_ROOT"@, root));
    assert(components(host, home) == components(host, root).push("avd"@));
}

/// The SDK lies below the user's home.
#[verifier::rlimit(40)]
pub proof fn sdk_lies_below_home(host: HostOs, home: Seq<char>)
    requires
        steady(host, home),
    ensures
        components(host, sdk_root_path(host, home)) == components(host, home) + seq![
            ".rusk"@,
            "android-sdk"@,
        ],
{
    assert(one_name(".rusk"@)) by {
        reveal_strlit(".rusk");
        long_name_is_one_name(".rusk"@);
    }
    assert(one_name("android-sdk"@)) by {
        reveal_strlit("android-sdk");
        long_name_is_one_name("android-sdk"@);
    }
    joined_2(host, home, ".rusk"@, "android-sdk"@);
}

/// The repository's names of the hosts are the NDK's, but for macOS, which has one of
/// its own; what is not Windows or macOS counts as Linux.
pub proof fn host_tags_are_known(host: HostOs)
    ensures
        host != HostOs::MacOs ==> (download_tag(host) matches Some(tag) ==> host_tag(host) == tag),
        host_tag(HostOs::MacOs) == "macosx"@,
        host_tag(HostOs::Other) == host_tag(HostOs::Linux),
        host_tag(HostOs::Windows) != host_tag(HostOs::Linux),
        host_tag(HostOs::MacOs) != host_tag(HostOs::Linux),
        host_tag(HostOs::MacOs) != host_tag(HostOs::Windows),
{
    reveal_strlit("windows");
    reveal_strlit("macosx");
    reveal_strlit("linux");
    assert("windows"@.len() == 7 && "macosx"@.len() == 6 && "linux"@.len() == 5);
}

/// An entry of an archive is unpacked under its name below the archive's one top
/// directory; that directory itself is not, nor is what lies beside it.
pub proof fn entry_loses_its_root(root: Seq<char>, rest: Seq<char>)
    requires
        !root.contains('/'),
    ensures
        entry_below_root(root) is None,
        entry_below_root(root.push('/')) is None,
        rest.len() > 0 ==> entry_below_root(root.push('/') + rest) == Some(rest),
{
    split_first_of_joined(root, rest, '/');
    split_first_of_joined(root, seq![], '/');
    assert(root.push('/') + seq![] =~= root.push('/'));
    find_char_props(root, '/', 0);
    let k = find_char(root, '/', 0);
    if k < root.len() {
        assert(root[k] == '/');
    }
}

/// The AVDs are those with a file of their own: its name without the ending.
pub proof fn avds_are_their_files(entries: Seq<Seq<char>>)
    ensures
        avd_names_of(entries).map_values(|n: Seq<char>| n + ".ini"@) == entries.filter(
            |e: Seq<char>| ".ini"@.is_suffix_of(e),
        ),
    decreases entries.len(),
{
    reveal(Seq::filter);
    let f = |n: Seq<char>| n + ".ini"@;
    let p = |e: Seq<char>| ".ini"@.is_suffix_of(e);
    if entries.len() > 0 {
        avds_are_their_files(entries.drop_last());
        let last = entries.last();
        if ".ini"@.is_suffix_of(last) {
            assert(last.take(last.len() - ".ini"@.len()) + ".ini"@ =~= last);
        }
        assert(avd_names_of(entries).map_values(f) =~= entries.filter(p));
    } else {
        assert(avd_names_of(entries).map_values(f) =~= entries.filter(p));
    }
}

/// A digest is accepted whatever the case of its letters, a different one is not, and
/// none is where none is known.
pub proof fn digest_case_does_not_matter(expected: Seq<char>, actual: Seq<char>)
    ensures
        !digest_accepted(seq![], actual),
        expected.len() > 0 ==> digest_accepted(expected, expected),
        digest_accepted(expected, actual) ==> expected.len() == actual.len(),
        digest_accepted(expected, actual) && expected.len() > 0 <==> digest_accepted(
            actual,
            expected,
        ) && actual.len() > 0,
        digest_accepted(expected, actual) ==> forall|i: int|
            0 <= i < actual.len() ==> lower(#[trigger] actual[i]) == lower(expected[i]),
{
    assert(lowered(expected).len() == expected.len() && lowered(actual).len() == actual.len());
    if digest_accepted(expected, actual) {
        assert forall|i: int| 0 <= i < actual.len() implies lower(#[trigger] actual[i]) == lower(
            expected[i],
        ) by {
            assert(lowered(actual)[i] == lowered(expected)[i]);
        }
    }
}

/// A component is installed in these steps: its directory, the download, the check of
/// its digest, unpacking, removing the archive, and the mark that it is complete.
pub proof fn install_steps_in_order(outcomes: Seq<bool>)
    requires
        forall|i: int| 0 <= i < outcomes.len() ==> outcomes[i],
    ensures
        install_reaches(outcomes) == Some(
            if outcomes.len() == 0 {
                InstallStep::CreateDir
            } else if outcomes.len() == 1 {
                InstallStep::Download
            } else if outcomes.len() == 2 {
                InstallStep::Verify
            } else if outcomes.len() == 3 {
                InstallStep::Unpack
            } else if outcomes.len() == 4 {
                InstallStep::RemoveArchive
            } else if outcomes.len() == 5 {
                InstallStep::Mark
            } else {
                InstallStep::Done
            },
        ),
    decreases outcomes.len(),
{
    if outcomes.len() > 0 {
        install_steps_in_order(outcomes.drop_last());
        assert(outcomes.last());
    }
}

/// The message of an error tells what it is about; of a wrong checksum which is which.
#[verifier::rlimit(40)]
pub proof fn message_tells_all(e: SdkMgrError)
    ensures
        match e {
            SdkMgrError::PackageNotFound(name) => contains_text(e.text(), name@),
            SdkMgrError::ChecksumMismatch { package, expected, actual } => contains_text(e.text(), package@) && contains_text(e.text(), "expected "@ + expected@) && contains_text(e.text(), "got "@ + actual@),
            _ => e.text().len() > 0,
        },
{
    match e {
        SdkMgrError::PackageNotFound(name) => {
            tells("package \""@, name@);
            tells_more("package \""@ + name@, "\" is not listed in Google's repository manifest for this host OS"@, name@);
        },
        SdkMgrError::ChecksumMismatch { package, expected, actual } => {
            tells("checksum mismatch downloading \""@, package@);
            tells_more("checksum mismatch downloading \""@ + package@, "\": expected "@, package@);
            tells_more("checksum mismatch downloading \""@ + package@ + "\": expected "@, expected@, package@);
            tells_more("checksum mismatch downloading \""@ + package@ + "\": expected "@ + expected@, ", got "@, package@);
            tells_more("checksum mismatch downloading \""@ + package@ + "\": expected "@ + expected@ + ", got "@, actual@, package@);
            assert("\": expected "@ =~= "\": "@ + "expected "@) by {
                reveal_strlit("\": expected ");
                reveal_strlit("\": ");
                reveal_strlit("expected ");
            }
            tells_behind("checksum mismatch downloading \""@ + package@, "\": "@, "expected "@, expected@);
            tells_more("checksum mismatch downloading \""@ + package@ + "\": expected "@ + expected@, ", got "@, "expected "@ + expected@);
            tells_more("checksum mismatch downloading \""@ + package@ + "\": expected "@ + expected@ + ", got "@, actual@, "expected "@ + expected@);
            assert(", got "@ =~= ", "@ + "got "@) by {
                reveal_strlit(", got ");
                reveal_strlit(", ");
                reveal_strlit("got ");
            }
            tells_behind("checksum mismatch downloading \""@ + package@ + "\": expected "@ + expected@, ", "@, "got "@, actual@);
        },
        _ => {
            reveal_lens();
        },
    }
}

proof fn reveal_lens()
    ensures
        "could not determine a home/cache directory for this user"@.len() > 0,
{
    reveal_strlit("could not determine a home/cache directory for this user");
}

} // verus!
