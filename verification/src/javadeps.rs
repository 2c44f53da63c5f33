//! Java and Kotlin dependencies from Maven repositories: coordinates, the
//! dependencies that a POM declares, and the walk over their transitive closure.
use crate::num::{decimal, push_decimal};
use crate::path::{
    HostOs, components, extension_of, join_path, joined_2, joined_path, long_name_is_one_name,
    name_is_file_name, one_name, steady, stem_end,
};
use crate::text::{
    clone_strings, concat3, contains, contains_in_middle, contains_text, ends_with, find_char,
    find_char_props, find_last_props, pair_views, replace_char, replaced, replaced_one_for_one,
    same, split_all, split_all_of_joined, split_all_without, split_first, split_first_of_joined,
    split_from, split_once, starts_with, tells, tells_behind, tells_more, trim_end_char,
    trim_right_char, views,
};
use crate::xml::{XmlEvent, XmlEventView, bare_tag, element, event_views, read_events, xml_events};
use vstd::prelude::*;

verus! {

/// Why a dependency could not be resolved.
#[derive(Debug)]
pub enum JavaDepsError {
    /// The key is not of the form `group:artifact`.
    BadKey(String),
    /// No configured repository has the artifact.
    NotFound { group: String, artifact: String, version: String },
}

impl JavaDepsError {
    /// The text of the message shown for the error.
    pub open spec fn text(&self) -> Seq<char> {
        match *self {
            JavaDepsError::BadKey(key) => "invalid dependency key \""@ + key@
                + "\"; expected \"group:artifact\""@,
            JavaDepsError::NotFound { group, artifact, version } => group@ + ":"@ + artifact@ + ":"@
                + version@ + " was not found in any configured repository"@,
        }
    }

    /// The message shown for the error.
    pub fn message(&self) -> (r: String)
        ensures
            r@ == self.text(),
    {
        match self {
            JavaDepsError::BadKey(key) => concat3(
                "invalid dependency key \"",
                key,
                "\"; expected \"group:artifact\"",
            ),
            JavaDepsError::NotFound { group, artifact, version } => {
                let mut out = group.clone();
                out.append(":");
                out.append(artifact);
                out.append(":");
                out.append(version);
                out.append(" was not found in any configured repository");
                out
            },
        }
    }
}

/// A Maven artifact at one version.
#[derive(Debug)]
pub struct Coordinate {
    pub group: String,
    pub artifact: String,
    pub version: String,
}

/// The texts of a coordinate.
pub struct CoordinateView {
    pub group: Seq<char>,
    pub artifact: Seq<char>,
    pub version: Seq<char>,
}

impl View for Coordinate {
    type V = CoordinateView;

    open spec fn view(&self) -> CoordinateView {
        CoordinateView { group: self.group@, artifact: self.artifact@, version: self.version@ }
    }
}

/// The texts of a list of coordinates.
pub open spec fn coordinate_views(v: Seq<Coordinate>) -> Seq<CoordinateView> {
    v.map_values(|c: Coordinate| c@)
}

impl CoordinateView {
    /// Group and artifact: what makes two coordinates versions of one artifact.
    pub open spec fn ga(self) -> (Seq<char>, Seq<char>) {
        (self.group, self.artifact)
    }

    /// The directory of the artifact below a repository's root.
    pub open spec fn prefix(self) -> Seq<char> {
        replaced(self.group, '.', "/"@) + "/"@ + self.artifact + "/"@ + self.version
    }

    /// The name of one of the artifact's files.
    pub open spec fn file(self, extension: Seq<char>) -> Seq<char> {
        self.artifact + "-"@ + self.version + extension
    }
}

impl Clone for Coordinate {
    fn clone(&self) -> (r: Self)
        ensures
            r@ == self@,
    {
        Coordinate {
            group: self.group.clone(),
            artifact: self.artifact.clone(),
            version: self.version.clone(),
        }
    }
}

impl Coordinate {
    /// Reads a `group:artifact` key; everything after the first colon is the artifact.
    pub fn parse(key: &str, version: &str) -> (r: Result<Self, JavaDepsError>)
        ensures
            match r {
                Ok(c) => split_first(key@, ':') == Some((c.group@, c.artifact@)) && c.version@
                    == version@,
                Err(JavaDepsError::BadKey(k)) => split_first(key@, ':') is None && k@ == key@,
                Err(_) => false,
            },
    {
        match split_once(key, ':') {
            Some((group, artifact)) => Ok(
                Coordinate { group, artifact, version: version.to_owned() },
            ),
            None => Err(JavaDepsError::BadKey(key.to_owned())),
        }
    }

    /// The directory of the artifact below a repository's root.
    pub fn path_prefix(&self) -> (r: String)
        ensures
            r@ == self@.prefix(),
    {
        let mut out = replace_char(&self.group, '.', "/");
        out.append("/");
        out.append(&self.artifact);
        out.append("/");
        out.append(&self.version);
        out
    }

    fn filename(&self, extension: &str) -> (r: String)
        ensures
            r@ == self@.file(extension@),
    {
        let mut out = self.artifact.clone();
        out.append("-");
        out.append(&self.version);
        out.append(extension);
        out
    }

    /// The name of the artifact's POM.
    pub fn pom_filename(&self) -> (r: String)
        ensures
            r@ == self@.file(".pom"@),
    {
        self.filename(".pom")
    }

    /// The name of the artifact's jar.
    pub fn jar_filename(&self) -> (r: String)
        ensures
            r@ == self@.file(".jar"@),
    {
        self.filename(".jar")
    }

    /// The name of the artifact's Android archive.
    pub fn aar_filename(&self) -> (r: String)
        ensures
            r@ == self@.file(".aar"@),
    {
        self.filename(".aar")
    }
}

// ---------------------------------------------------------------------------
// Reading a POM

/// How far a POM has been read.
pub struct PomScan {
    pub deps: Vec<Coordinate>,
    pub blocks: usize,
    pub in_dependency: bool,
    pub in_exclusions: bool,
    pub group: String,
    pub artifact: String,
    pub version: String,
    pub scope: String,
    pub optional: String,
    pub tag: String,
}

/// How far a POM has been read: the dependencies found, how many
/// `<dependencies>` are open, whether a `<dependency>` and an `<exclusions>`
/// are, what the dependency says of itself so far, and the tag that text
/// belongs to.
pub struct PomScanView {
    pub deps: Seq<CoordinateView>,
    pub blocks: nat,
    pub in_dependency: bool,
    pub in_exclusions: bool,
    pub group: Seq<char>,
    pub artifact: Seq<char>,
    pub version: Seq<char>,
    pub scope: Seq<char>,
    pub optional: Seq<char>,
    pub tag: Seq<char>,
}

impl View for PomScan {
    type V = PomScanView;

    open spec fn view(&self) -> PomScanView {
        PomScanView {
            deps: coordinate_views(self.deps@),
            blocks: self.blocks as nat,
            in_dependency: self.in_dependency,
            in_exclusions: self.in_exclusions,
            group: self.group@,
            artifact: self.artifact@,
            version: self.version@,
            scope: self.scope@,
            optional: self.optional@,
            tag: self.tag@,
        }
    }
}

/// Scopes whose dependencies do not belong into an application.
pub open spec fn scope_left_out(scope: Seq<char>) -> bool {
    scope == "test"@ || scope == "provided"@ || scope == "system"@
}

impl PomScanView {
    /// Before the first event.
    pub open spec fn start() -> PomScanView {
        PomScanView {
            deps: seq![],
            blocks: 0,
            in_dependency: false,
            in_exclusions: false,
            group: seq![],
            artifact: seq![],
            version: seq![],
            scope: seq![],
            optional: seq![],
            tag: seq![],
        }
    }

    /// Whether the dependency just read is taken: not optional, in a scope that
    /// belongs into the application, and with all three parts of its coordinate.
    pub open spec fn taken(self) -> bool {
        &&& self.optional != "true"@
        &&& !scope_left_out(self.scope)
        &&& self.group.len() > 0
        &&& self.artifact.len() > 0
        &&& self.version.len() > 0
    }

    /// After an opening tag.
    pub open spec fn open_tag(self, name: Seq<char>) -> PomScanView {
        if name == "dependencies"@ && !self.in_dependency {
            PomScanView { blocks: self.blocks + 1, tag: name, ..self }
        } else if name == "dependency"@ && self.blocks > 0 {
            PomScanView {
                in_dependency: true,
                group: seq![],
                artifact: seq![],
                version: seq![],
                scope: seq![],
                optional: seq![],
                tag: name,
                ..self
            }
        } else if name == "exclusions"@ {
            PomScanView { in_exclusions: true, tag: name, ..self }
        } else {
            PomScanView { tag: name, ..self }
        }
    }

    /// After a closing tag.
    pub open spec fn close_tag(self, name: Seq<char>) -> PomScanView {
        let s = PomScanView { tag: seq![], ..self };
        if name == "dependencies"@ && !self.in_dependency {
            PomScanView {
                blocks: if self.blocks > 0 {
                    (self.blocks - 1) as nat
                } else {
                    0
                },
                ..s
            }
        } else if name == "exclusions"@ {
            PomScanView { in_exclusions: false, ..s }
        } else if name == "dependency"@ && self.in_dependency {
            PomScanView {
                in_dependency: false,
                deps: if self.taken() {
                    self.deps.push(
                        CoordinateView {
                            group: self.group,
                            artifact: self.artifact,
                            version: self.version,
                        },
                    )
                } else {
                    self.deps
                },
                ..s
            }
        } else {
            s
        }
    }

    /// After text.
    pub open spec fn read_text(self, text: Seq<char>) -> PomScanView {
        if !self.in_dependency || self.in_exclusions {
            self
        } else if self.tag == "groupId"@ {
            PomScanView { group: text, ..self }
        } else if self.tag == "artifactId"@ {
            PomScanView { artifact: text, ..self }
        } else if self.tag == "version"@ {
            PomScanView { version: text, ..self }
        } else if self.tag == "scope"@ {
            PomScanView { scope: text, ..self }
        } else if self.tag == "optional"@ {
            PomScanView { optional: text, ..self }
        } else {
            self
        }
    }

    /// After one more event.
    pub open spec fn after(self, event: XmlEventView) -> PomScanView {
        match event {
            XmlEventView::Start(t) => self.open_tag(t.name),
            XmlEventView::End(name) => self.close_tag(name),
            XmlEventView::Text(text) => self.read_text(text),
            _ => self,
        }
    }

    /// After the events in turn.
    pub open spec fn after_all(self, events: Seq<XmlEventView>) -> PomScanView
        decreases events.len(),
    {
        if events.len() == 0 {
            self
        } else {
            self.after_all(events.drop_last()).after(events.last())
        }
    }
}

/// The dependencies that a POM with these events declares, in document order.
pub open spec fn pom_dependencies(events: Seq<XmlEventView>) -> Seq<CoordinateView> {
    PomScanView::start().after_all(events).deps
}

impl PomScan {
    /// Before the first event.
    pub fn new() -> (r: Self)
        ensures
            r@ == PomScanView::start(),
    {
        let r = PomScan {
            deps: Vec::new(),
            blocks: 0,
            in_dependency: false,
            in_exclusions: false,
            group: String::new(),
            artifact: String::new(),
            version: String::new(),
            scope: String::new(),
            optional: String::new(),
            tag: String::new(),
        };
        assert(r@.deps =~= Seq::<CoordinateView>::empty());
        r
    }

    fn open_tag(&mut self, name: &String)
        requires
            old(self).blocks < usize::MAX,
        ensures
            final(self)@ == old(self)@.open_tag(name@),
            final(self).blocks <= old(self).blocks + 1,
    {
        if same(name, "dependencies") && !self.in_dependency {
            self.blocks += 1;
        } else if same(name, "dependency") && self.blocks > 0 {
            self.in_dependency = true;
            self.group = String::new();
            self.artifact = String::new();
            self.version = String::new();
            self.scope = String::new();
            self.optional = String::new();
        } else if same(name, "exclusions") {
            self.in_exclusions = true;
        }
        self.tag = name.clone();
    }

    fn close_tag(&mut self, name: &String)
        ensures
            final(self)@ == old(self)@.close_tag(name@),
            final(self).blocks <= old(self).blocks,
    {
        let ghost start = self@;
        if same(name, "dependencies") && !self.in_dependency {
            if self.blocks > 0 {
                self.blocks -= 1;
            }
        } else if same(name, "exclusions") {
            self.in_exclusions = false;
        } else if same(name, "dependency") && self.in_dependency {
            self.in_dependency = false;
            let left_out = same(&self.scope, "test") || same(&self.scope, "provided") || same(
                &self.scope,
                "system",
            );
            if !same(&self.optional, "true") && !left_out && self.group.unicode_len() > 0
                && self.artifact.unicode_len() > 0 && self.version.unicode_len() > 0 {
                let ghost before = self.deps@;
                let found = Coordinate {
                    group: self.group.clone(),
                    artifact: self.artifact.clone(),
                    version: self.version.clone(),
                };
                self.deps.push(found);
                assert(coordinate_views(self.deps@) =~= coordinate_views(before).push(found@));
            }
        }
        self.tag = String::new();
    }

    fn read_text(&mut self, text: &String)
        ensures
            final(self)@ == old(self)@.read_text(text@),
            final(self).blocks == old(self).blocks,
    {
        if !self.in_dependency || self.in_exclusions {
        } else if same(&self.tag, "groupId") {
            self.group = text.clone();
        } else if same(&self.tag, "artifactId") {
            self.artifact = text.clone();
        } else if same(&self.tag, "version") {
            self.version = text.clone();
        } else if same(&self.tag, "scope") {
            self.scope = text.clone();
        } else if same(&self.tag, "optional") {
            self.optional = text.clone();
        }
    }

    /// Takes one more event.
    pub fn step(&mut self, event: &XmlEvent)
        requires
            old(self).blocks < usize::MAX,
        ensures
            final(self)@ == old(self)@.after(event@),
            final(self).blocks <= old(self).blocks + 1,
    {
        match event {
            XmlEvent::Start(t) => self.open_tag(&t.name),
            XmlEvent::End(name) => self.close_tag(name),
            XmlEvent::Text(text) => self.read_text(text),
            _ => {},
        }
    }
}

/// The dependencies declared by a POM whose events are given.
pub fn dependencies_in(events: &Vec<XmlEvent>) -> (r: Vec<Coordinate>)
    ensures
        coordinate_views(r@) == pom_dependencies(event_views(events@)),
{
    let mut scan = PomScan::new();
    for i in 0..events.len()
        invariant
            scan@ == PomScanView::start().after_all(event_views(events@).take(i as int)),
            scan.blocks <= i,
    {
        scan.step(&events[i]);
        proof {
            let all = event_views(events@);
            assert(all.take(i + 1).drop_last() =~= all.take(i as int));
            assert(all[i as int] == events@[i as int]@);
        }
    }
    assert(event_views(events@).take(events@.len() as int) =~= event_views(events@));
    scan.deps
}

/// The dependencies that a POM declares, in document order: those that are
/// neither optional nor of a scope that stays out of the application, and that
/// name group, artifact and version. Placeholders and parent POMs are not
/// resolved.
pub fn parse_pom_dependencies(pom_xml: &str) -> (r: Vec<Coordinate>)
    ensures
        coordinate_views(r@) == pom_dependencies(xml_events(pom_xml@)),
{
    let events = read_events(pom_xml);
    dependencies_in(&events)
}

// ---------------------------------------------------------------------------
// What holds of every POM

/// Reading two stretches of events is reading the first and then the second.
pub proof fn after_all_concat(s: PomScanView, a: Seq<XmlEventView>, b: Seq<XmlEventView>)
    ensures
        s.after_all(a + b) == s.after_all(a).after_all(b),
    decreases b.len(),
{
    if b.len() == 0 {
        assert(a + b =~= a);
    } else {
        after_all_concat(s, a, b.drop_last());
        assert((a + b).drop_last() =~= a + b.drop_last());
    }
}

/// Every dependency that a POM yields names its group, artifact and version.
pub proof fn dependencies_are_complete(events: Seq<XmlEventView>)
    ensures
        forall|i: int|
            0 <= i < pom_dependencies(events).len() ==> {
                let c = #[trigger] pom_dependencies(events)[i];
                c.group.len() > 0 && c.artifact.len() > 0 && c.version.len() > 0
            },
    decreases events.len(),
{
    if events.len() > 0 {
        let prev = pom_dependencies(events.drop_last());
        let next = pom_dependencies(events);
        dependencies_are_complete(events.drop_last());
        assert forall|i: int| 0 <= i < next.len() implies {
            let c = #[trigger] next[i];
            c.group.len() > 0 && c.artifact.len() > 0 && c.version.len() > 0
        } by {
            if i < prev.len() {
                assert(next[i] == prev[i]);
            }
        }
    }
}

/// Reading on never drops or changes a dependency that was found.
pub proof fn dependencies_only_grow(s: PomScanView, events: Seq<XmlEventView>)
    ensures
        s.deps.is_prefix_of(s.after_all(events).deps),
    decreases events.len(),
{
    if events.len() > 0 {
        dependencies_only_grow(s, events.drop_last());
    }
}

/// The events of a `<dependency>` with its five elements.
pub open spec fn dependency_block(
    c: CoordinateView,
    scope: Seq<char>,
    optional: Seq<char>,
) -> Seq<XmlEventView> {
    seq![XmlEventView::Start(bare_tag("dependency"@))] + element("groupId"@, c.group) + element(
        "artifactId"@,
        c.artifact,
    ) + element("version"@, c.version) + element("scope"@, scope) + element("optional"@, optional)
        + seq![XmlEventView::End("dependency"@)]
}

proof fn pom_names_differ()
    ensures
        "groupId"@ != "artifactId"@,
        "groupId"@ != "version"@,
        "groupId"@ != "scope"@,
        "groupId"@ != "optional"@,
        "artifactId"@ != "version"@,
        "artifactId"@ != "scope"@,
        "artifactId"@ != "optional"@,
        "version"@ != "scope"@,
        "version"@ != "optional"@,
        "scope"@ != "optional"@,
        forall|n: Seq<char>|
            #![trigger structural_name(n)]
            n == "groupId"@ || n == "artifactId"@ || n == "version"@ || n == "scope"@ || n
                == "optional"@ ==> !structural_name(n),
        "dependency"@ != "dependencies"@,
        "dependency"@ != "exclusions"@,
{
    reveal_strlit("groupId");
    reveal_strlit("artifactId");
    reveal_strlit("version");
    reveal_strlit("scope");
    reveal_strlit("optional");
    reveal_strlit("dependency");
    reveal_strlit("dependencies");
    reveal_strlit("exclusions");
    assert("groupId"@.len() == 7 && "artifactId"@.len() == 10 && "version"@.len() == 7);
    assert("scope"@.len() == 5 && "optional"@.len() == 8 && "dependency"@.len() == 10);
    assert("dependencies"@.len() == 12 && "exclusions"@.len() == 10);
    assert("groupId"@[0] != "version"@[0]);
    assert("dependency"@[0] != "exclusions"@[0]);
    assert("artifactId"@[0] != "dependency"@[0]);
    assert("artifactId"@[0] != "exclusions"@[0]);
}

/// The tags that open or close a part of a POM.
pub open spec fn structural_name(n: Seq<char>) -> bool {
    n == "dependencies"@ || n == "dependency"@ || n == "exclusions"@
}

proof fn element_is_read(s: PomScanView, name: Seq<char>, text: Seq<char>)
    requires
        s.in_dependency,
        !s.in_exclusions,
        !structural_name(name),
    ensures
        s.after_all(element(name, text)) == (PomScanView {
            tag: seq![],
            ..(PomScanView { tag: name, ..s }).read_text(text)
        }),
{
    let e = element(name, text);
    reveal_with_fuel(PomScanView::after_all, 4);
    assert(e.drop_last().drop_last().drop_last() =~= seq![]);
    assert(e.drop_last().drop_last().last() == e[0]);
    assert(e.drop_last().last() == e[1]);
}

/// A dependency inside `<dependencies>` is found exactly if it is not
/// optional, its scope is none of those left out, and its coordinate is
/// complete; then it is appended as it stands, and reading goes on as before it.
pub proof fn dependency_block_is_read(
    s: PomScanView,
    c: CoordinateView,
    scope: Seq<char>,
    optional: Seq<char>,
)
    requires
        s.blocks > 0,
        !s.in_dependency,
        !s.in_exclusions,
    ensures
        ({
            let t = s.after_all(dependency_block(c, scope, optional));
            &&& t.deps == (if optional != "true"@ && !scope_left_out(scope) && c.group.len() > 0
                && c.artifact.len() > 0 && c.version.len() > 0 {
                s.deps.push(c)
            } else {
                s.deps
            })
            &&& t.blocks == s.blocks
            &&& !t.in_dependency
            &&& !t.in_exclusions
        }),
{
    pom_names_differ();
    let first = seq![XmlEventView::Start(bare_tag("dependency"@))];
    let last = seq![XmlEventView::End("dependency"@)];
    let e1 = element("groupId"@, c.group);
    let e2 = element("artifactId"@, c.artifact);
    let e3 = element("version"@, c.version);
    let e4 = element("scope"@, scope);
    let e5 = element("optional"@, optional);
    after_all_concat(s, first + e1 + e2 + e3 + e4 + e5, last);
    after_all_concat(s, first + e1 + e2 + e3 + e4, e5);
    after_all_concat(s, first + e1 + e2 + e3, e4);
    after_all_concat(s, first + e1 + e2, e3);
    after_all_concat(s, first + e1, e2);
    after_all_concat(s, first, e1);
    reveal_with_fuel(PomScanView::after_all, 2);
    assert(first.drop_last() =~= seq![]);
    assert(last.drop_last() =~= seq![]);
    let s0 = s.after_all(first);
    assert(s0 == s.open_tag("dependency"@));
    element_is_read(s0, "groupId"@, c.group);
    let s1 = s0.after_all(e1);
    element_is_read(s1, "artifactId"@, c.artifact);
    let s2 = s1.after_all(e2);
    element_is_read(s2, "version"@, c.version);
    let s3 = s2.after_all(e3);
    element_is_read(s3, "scope"@, scope);
    let s4 = s3.after_all(e4);
    element_is_read(s4, "optional"@, optional);
    let s5 = s4.after_all(e5);
    assert(s5.group == c.group && s5.artifact == c.artifact && s5.version == c.version && s5.scope
        == scope && s5.optional == optional);
    assert(s5.after_all(last) == s5.close_tag("dependency"@));
}

/// Text inside `<exclusions>` never changes what is known of a dependency.
pub proof fn exclusions_are_ignored(s: PomScanView, text: Seq<char>)
    requires
        s.in_exclusions,
    ensures
        s.after(XmlEventView::Text(text)) == s,
{
}

// ---------------------------------------------------------------------------
// The transitive closure

/// What an artifact is delivered as.
#[derive(Debug, Clone, Copy, PartialEq, Eq, Structural)]
pub enum Packaging {
    Jar,
    Aar,
}

/// The packaging that a POM declares.
pub open spec fn packaging_of(pom: Seq<char>) -> Packaging {
    if contains_text(pom, "<packaging>aar</packaging>"@) {
        Packaging::Aar
    } else {
        Packaging::Jar
    }
}

/// The packaging that a POM declares: `.aar` where it says so, else `.jar`.
pub fn declared_packaging(pom: &str) -> (r: Packaging)
    ensures
        r == packaging_of(pom@),
{
    if contains(pom, "<packaging>aar</packaging>") {
        Packaging::Aar
    } else {
        Packaging::Jar
    }
}

/// An artifact whose POM has been read, with the dependencies it declares.
#[derive(Debug)]
pub struct Visited {
    pub coordinate: Coordinate,
    pub packaging: Packaging,
    pub dependencies: Vec<Coordinate>,
}

/// The texts of a visited artifact.
pub struct VisitedView {
    pub coordinate: CoordinateView,
    pub packaging: Packaging,
    pub dependencies: Seq<CoordinateView>,
}

impl View for Visited {
    type V = VisitedView;

    open spec fn view(&self) -> VisitedView {
        VisitedView {
            coordinate: self.coordinate@,
            packaging: self.packaging,
            dependencies: coordinate_views(self.dependencies@),
        }
    }
}

/// The texts of a list of visited artifacts.
pub open spec fn visited_views(v: Seq<Visited>) -> Seq<VisitedView> {
    v.map_values(|x: Visited| x@)
}

/// The walk over the dependency graph: every coordinate that has been asked
/// for, in the order of asking, how many of these have been looked at, and the
/// artifacts that have been visited, in the order of the visits.
#[derive(Debug)]
pub struct Resolver {
    pub requests: Vec<Coordinate>,
    pub looked_at: usize,
    pub order: Vec<Visited>,
}

/// Whether the list holds some version of the artifact.
pub open spec fn holds_artifact(s: Seq<CoordinateView>, ga: (Seq<char>, Seq<char>)) -> bool {
    exists|i: int| 0 <= i < s.len() && (#[trigger] s[i]).ga() == ga
}

/// The requests without those for an artifact that was asked for before: of
/// each artifact the version that is requested first.
pub open spec fn first_requests(requests: Seq<CoordinateView>) -> Seq<CoordinateView>
    decreases requests.len(),
{
    if requests.len() == 0 {
        seq![]
    } else {
        let before = first_requests(requests.drop_last());
        if holds_artifact(before, requests.last().ga()) {
            before
        } else {
            before.push(requests.last())
        }
    }
}

/// The coordinates of visited artifacts.
pub open spec fn visited_coordinates(order: Seq<VisitedView>) -> Seq<CoordinateView> {
    order.map_values(|v: VisitedView| v.coordinate)
}

/// What the visited artifacts ask for, in the order of the visits.
pub open spec fn declared_by(order: Seq<VisitedView>) -> Seq<CoordinateView>
    decreases order.len(),
{
    if order.len() == 0 {
        seq![]
    } else {
        declared_by(order.drop_last()) + order.last().dependencies
    }
}

/// The coordinate that a root asks for, where its key is well formed.
pub open spec fn root_at(root: (Seq<char>, Seq<char>)) -> Option<CoordinateView> {
    match split_first(root.0, ':') {
        Some((group, artifact)) => Some(CoordinateView { group, artifact, version: root.1 }),
        None => None,
    }
}

/// The coordinates that the roots ask for.
pub open spec fn root_coordinates(roots: Seq<(Seq<char>, Seq<char>)>) -> Seq<CoordinateView> {
    roots.map_values(|r: (Seq<char>, Seq<char>)| root_at(r)->0)
}

/// Whether the visit at `i` is of a root, or of a dependency that an artifact
/// visited before it declares.
pub open spec fn is_reached(roots: Seq<CoordinateView>, order: Seq<VisitedView>, i: int) -> bool {
    ||| roots.contains(order[i].coordinate)
    ||| exists|j: int|
        0 <= j < i && (#[trigger] order[j]).dependencies.contains(order[i].coordinate)
}

/// Whether only what can be reached from the roots has been visited.
pub open spec fn all_reached(roots: Seq<CoordinateView>, order: Seq<VisitedView>) -> bool {
    forall|i: int| 0 <= i < order.len() ==> #[trigger] is_reached(roots, order, i)
}

/// What visited artifacts ask for, one of them asks for.
proof fn declared_by_one(order: Seq<VisitedView>, c: CoordinateView)
    requires
        declared_by(order).contains(c),
    ensures
        exists|j: int| 0 <= j < order.len() && (#[trigger] order[j]).dependencies.contains(c),
    decreases order.len(),
{
    if order.len() > 0 {
        let rest = order.drop_last();
        let a = declared_by(rest);
        let k = choose|k: int| 0 <= k < declared_by(order).len() && declared_by(order)[k] == c;
        if k < a.len() {
            assert(a[k] == c);
            declared_by_one(rest, c);
            let j = choose|j: int|
                0 <= j < rest.len() && (#[trigger] rest[j]).dependencies.contains(c);
            assert(order[j].dependencies.contains(c));
        } else {
            assert(order[order.len() - 1].dependencies[k - a.len()] == c);
        }
    }
}

/// Visiting what was asked for keeps everything visited within reach.
proof fn requests_are_reached(
    roots: Seq<CoordinateView>,
    order: Seq<VisitedView>,
    visit: VisitedView,
)
    requires
        all_reached(roots, order),
        (roots + declared_by(order)).contains(visit.coordinate),
    ensures
        all_reached(roots, order.push(visit)),
{
    let next = order.push(visit);
    let c = visit.coordinate;
    assert forall|i: int| 0 <= i < next.len() implies #[trigger] is_reached(roots, next, i) by {
        if i < order.len() {
            assert(is_reached(roots, order, i));
            if !roots.contains(order[i].coordinate) {
                let j = choose|j: int|
                    0 <= j < i && (#[trigger] order[j]).dependencies.contains(order[i].coordinate);
                assert(next[j].dependencies.contains(next[i].coordinate));
            }
        } else {
            let all = roots + declared_by(order);
            let k = choose|k: int| 0 <= k < all.len() && all[k] == c;
            if k < roots.len() {
                assert(roots[k] == c);
            } else {
                assert(declared_by(order)[k - roots.len()] == c);
                declared_by_one(order, c);
                let j = choose|j: int|
                    0 <= j < order.len() && (#[trigger] order[j]).dependencies.contains(c);
                assert(next[j].dependencies.contains(c));
            }
        }
    }
}

impl Resolver {
    /// What holds of a walk from `roots` at every moment: what has been asked
    /// for is the roots and what the visited artifacts declare; of the requests
    /// looked at, the first for each artifact has been visited; and everything
    /// visited is a root or declared by what was visited before it.
    pub open spec fn walks_from(&self, roots: Seq<CoordinateView>) -> bool {
        let requests = coordinate_views(self.requests@);
        let order = visited_views(self.order@);
        &&& self.looked_at <= self.requests.len()
        &&& requests == roots + declared_by(order)
        &&& visited_coordinates(order) == first_requests(requests.take(self.looked_at as int))
        &&& all_reached(roots, order)
    }

    /// Whether some version of the artifact that the request at `i` is for has
    /// been visited.
    pub open spec fn request_is_settled(&self, i: int) -> bool {
        holds_artifact(
            visited_coordinates(visited_views(self.order@)),
            self.requests@[i]@.ga(),
        )
    }

    /// Whether `next` is this walk after one more visit: of the artifact of the
    /// first request that is not settled, which declares the dependencies. A
    /// walk without such a request stays where it is.
    pub open spec fn visits(
        &self,
        next: Resolver,
        packaging: Packaging,
        dependencies: Seq<CoordinateView>,
    ) -> bool {
        let order = visited_views(self.order@);
        if exists|i: int|
            self.looked_at <= i < self.requests.len() && !#[trigger] self.request_is_settled(i) {
            &&& self.looked_at < next.looked_at <= self.requests.len()
            &&& !self.request_is_settled(next.looked_at - 1)
            &&& forall|i: int|
                self.looked_at <= i < next.looked_at - 1 ==> #[trigger] self.request_is_settled(i)
            &&& visited_views(next.order@) == order.push(
                VisitedView {
                    coordinate: self.requests@[next.looked_at - 1]@,
                    packaging,
                    dependencies,
                },
            )
            &&& coordinate_views(next.requests@) == coordinate_views(self.requests@) + dependencies
        } else {
            &&& next.order == self.order
            &&& next.requests == self.requests
            &&& next.looked_at == self.requests.len()
        }
    }

    /// Whether some version of the artifact has been visited.
    pub fn has_visited(&self, group: &str, artifact: &str) -> (r: bool)
        ensures
            r == holds_artifact(
                visited_coordinates(visited_views(self.order@)),
                (group@, artifact@),
            ),
    {
        let ghost order = visited_coordinates(visited_views(self.order@));
        for i in 0..self.order.len()
            invariant
                order == visited_coordinates(visited_views(self.order@)),
                forall|j: int| 0 <= j < i ==> (#[trigger] order[j]).ga() != (group@, artifact@),
        {
            assert(order[i as int] == self.order@[i as int].coordinate@);
            if same(&self.order[i].coordinate.group, group) && same(
                &self.order[i].coordinate.artifact,
                artifact,
            ) {
                return true;
            }
        }
        false
    }

    /// Starts a walk at the roots, given as `group:artifact` keys with versions.
    pub fn new(roots: &Vec<(String, String)>) -> (r: Result<Self, JavaDepsError>)
        ensures
            match r {
                Ok(w) => {
                    &&& forall|i: int|
                        0 <= i < roots.len() ==> root_at(#[trigger] pair_views(roots@)[i]) is Some
                    &&& coordinate_views(w.requests@) == root_coordinates(pair_views(roots@))
                    &&& w.order@.len() == 0
                    &&& w.walks_from(root_coordinates(pair_views(roots@)))
                },
                Err(JavaDepsError::BadKey(k)) => exists|i: int|
                    {
                        &&& 0 <= i < roots.len()
                        &&& root_at(#[trigger] pair_views(roots@)[i]) is None
                        &&& pair_views(roots@)[i].0 == k@
                        &&& forall|j: int|
                            0 <= j < i ==> root_at(#[trigger] pair_views(roots@)[j]) is Some
                    },
                Err(_) => false,
            },
    {
        let mut requests: Vec<Coordinate> = Vec::new();
        let ghost all = pair_views(roots@);
        for i in 0..roots.len()
            invariant
                all == pair_views(roots@),
                forall|j: int| 0 <= j < i ==> root_at(#[trigger] all[j]) is Some,
                coordinate_views(requests@) == root_coordinates(all.take(i as int)),
        {
            assert(all[i as int] == (roots@[i as int].0@, roots@[i as int].1@));
            match Coordinate::parse(&roots[i].0, &roots[i].1) {
                Ok(c) => {
                    let ghost so_far = requests@;
                    requests.push(c);
                    proof {
                        assert(coordinate_views(requests@) =~= coordinate_views(so_far).push(c@));
                        assert(root_coordinates(all.take(i + 1)) =~= root_coordinates(
                            all.take(i as int),
                        ).push(root_at(all[i as int])->0));
                    }
                },
                Err(e) => {
                    return Err(e);
                },
            }
        }
        assert(all.take(all.len() as int) =~= all);
        let w = Resolver { requests, looked_at: 0, order: Vec::new() };
        proof {
            let order = visited_views(w.order@);
            assert(order =~= seq![]);
            assert(declared_by(order) =~= seq![]);
            assert(coordinate_views(w.requests@) =~= root_coordinates(all) + declared_by(order));
            assert(visited_coordinates(order) =~= first_requests(
                coordinate_views(w.requests@).take(0),
            ));
        }
        Ok(w)
    }

    /// The artifact whose POM has to be read next, if any is left: that of the
    /// first request for an artifact that has not been visited.
    pub fn next(&mut self) -> (r: Option<Coordinate>)
        requires
            old(self).looked_at <= old(self).requests.len(),
        ensures
            final(self).order == old(self).order,
            final(self).requests == old(self).requests,
            old(self).looked_at <= final(self).looked_at <= final(self).requests.len(),
            forall|i: int|
                old(self).looked_at <= i < final(self).looked_at ==> #[trigger] old(
                    self,
                ).request_is_settled(i),
            match r {
                Some(c) => {
                    &&& final(self).looked_at < final(self).requests.len()
                    &&& c@ == final(self).requests@[final(self).looked_at as int]@
                    &&& !old(self).request_is_settled(final(self).looked_at as int)
                },
                None => final(self).looked_at == final(self).requests.len(),
            },
            forall|roots: Seq<CoordinateView>|
                old(self).walks_from(roots) ==> final(self).walks_from(roots),
    {
        let ghost order = visited_coordinates(visited_views(self.order@));
        let ghost requests = coordinate_views(self.requests@);
        while self.looked_at < self.requests.len()
            invariant
                self.order == old(self).order,
                self.requests == old(self).requests,
                old(self).looked_at <= self.looked_at <= self.requests.len(),
                order == visited_coordinates(visited_views(self.order@)),
                requests == coordinate_views(self.requests@),
                forall|i: int|
                    old(self).looked_at <= i < self.looked_at ==> #[trigger] old(
                        self,
                    ).request_is_settled(i),
                forall|roots: Seq<CoordinateView>|
                    old(self).walks_from(roots) ==> self.walks_from(roots),
            decreases self.requests.len() - self.looked_at,
        {
            let c = self.requests[self.looked_at].clone();
            if !self.has_visited(&c.group, &c.artifact) {
                return Some(c);
            }
            proof {
                let n = self.looked_at as int;
                assert(requests[n] == c@);
                assert(requests.take(n + 1).drop_last() =~= requests.take(n));
            }
            self.looked_at += 1;
        }
        None
    }

    /// Records the artifact that [`Resolver::next`] names as visited, and asks
    /// for its dependencies. Where none is left this does nothing.
    pub fn accept(&mut self, packaging: Packaging, dependencies: Vec<Coordinate>)
        requires
            old(self).looked_at <= old(self).requests.len(),
            old(self).requests.len() + dependencies.len() <= usize::MAX,
        ensures
            final(self).looked_at <= final(self).requests.len(),
            old(self).visits(*final(self), packaging, coordinate_views(dependencies@)),
            forall|roots: Seq<CoordinateView>|
                old(self).walks_from(roots) ==> final(self).walks_from(roots),
    {
        let next = self.next();
        if let Some(coordinate) = next {
            let ghost order = visited_views(self.order@);
            let ghost requests = coordinate_views(self.requests@);
            let ghost n = self.looked_at as int;
            let ghost walk = *self;
            let ghost deps = coordinate_views(dependencies@);
            assert(!old(self).request_is_settled(n));
            let mut more: Vec<Coordinate> = Vec::new();
            for i in 0..dependencies.len()
                invariant
                    deps == coordinate_views(dependencies@),
                    coordinate_views(more@) == deps.take(i as int),
            {
                let ghost so_far = more@;
                let c = dependencies[i].clone();
                more.push(c);
                proof {
                    assert(coordinate_views(more@) =~= coordinate_views(so_far).push(c@));
                    assert(deps.take(i + 1) =~= deps.take(i as int).push(deps[i as int]));
                }
            }
            assert(deps.take(deps.len() as int) =~= deps);
            let visit = Visited { coordinate, packaging, dependencies };
            self.order.push(visit);
            let ghost r0 = self.requests@;
            let ghost m0 = more@;
            self.requests.append(&mut more);
            self.looked_at += 1;
            proof {
                let o = visited_views(self.order@);
                let q = coordinate_views(self.requests@);
                assert(o =~= order.push(visit@));
                assert(q =~= coordinate_views(r0) + coordinate_views(m0));
                assert(o.drop_last() =~= order);
                assert(visited_coordinates(o) =~= visited_coordinates(order).push(coordinate@));
                assert(q.take(n + 1).drop_last() =~= requests.take(n));
                assert(q.take(n + 1).last() == coordinate@);
                assert forall|roots: Seq<CoordinateView>| walk.walks_from(roots) implies self.walks_from(
                    roots,
                ) by {
                    assert(q =~= roots + declared_by(o));
                    assert(requests[n] == coordinate@);
                    requests_are_reached(roots, order, visit@);
                }
            }
        }
    }

    /// Records the artifact that [`Resolver::next`] names, from the text of its POM.
    pub fn accept_pom(&mut self, pom_text: &str) -> (r: bool)
        requires
            old(self).looked_at <= old(self).requests.len(),
        ensures
            final(self).looked_at <= final(self).requests.len(),
            r == (old(self).requests.len() + pom_dependencies(xml_events(pom_text@)).len()
                <= usize::MAX),
            !r ==> *final(self) == *old(self),
            r ==> old(self).visits(
                *final(self),
                packaging_of(pom_text@),
                pom_dependencies(xml_events(pom_text@)),
            ),
            forall|roots: Seq<CoordinateView>|
                old(self).walks_from(roots) ==> final(self).walks_from(roots),
    {
        let deps = parse_pom_dependencies(pom_text);
        assert(deps.len() == coordinate_views(deps@).len());
        if deps.len() > usize::MAX - self.requests.len() {
            return false;
        }
        self.accept(declared_packaging(pom_text), deps);
        true
    }
}

/// What `first_requests` keeps: nothing that was not requested, no artifact
/// twice, every artifact that was requested, and of each the first request.
pub proof fn first_requests_props(requests: Seq<CoordinateView>)
    ensures
        forall|i: int, j: int|
            0 <= i < j < first_requests(requests).len() ==> (#[trigger] first_requests(
                requests,
            )[i]).ga() != (#[trigger] first_requests(requests)[j]).ga(),
        forall|i: int|
            0 <= i < requests.len() ==> holds_artifact(
                first_requests(requests),
                (#[trigger] requests[i]).ga(),
            ),
        forall|i: int|
            0 <= i < first_requests(requests).len() ==> is_first_request(
                requests,
                #[trigger] first_requests(requests)[i],
            ),
    decreases requests.len(),
{
    if requests.len() > 0 {
        let rest = requests.drop_last();
        let x = requests.last();
        let f0 = first_requests(rest);
        let f = first_requests(requests);
        first_requests_props(rest);
        assert forall|i: int| 0 <= i < requests.len() implies holds_artifact(
            f,
            (#[trigger] requests[i]).ga(),
        ) by {
            if i < rest.len() {
                assert(rest[i] == requests[i]);
                let k = choose|k: int| 0 <= k < f0.len() && (#[trigger] f0[k]).ga() == requests[i].ga();
                assert(f[k] == f0[k]);
            } else if !holds_artifact(f0, x.ga()) {
                assert(f[f0.len() as int] == x);
            }
        }
        assert forall|i: int| 0 <= i < f.len() implies is_first_request(
            requests,
            #[trigger] f[i],
        ) by {
            if i < f0.len() {
                assert(f[i] == f0[i]);
                let k = choose|k: int|
                    0 <= k < rest.len() && rest[k] == f0[i] && (forall|j: int|
                        0 <= j < k ==> (#[trigger] rest[j]).ga() != f0[i].ga());
                assert(requests[k] == f[i]);
                assert forall|j: int| 0 <= j < k implies (#[trigger] requests[j]).ga() != f[i].ga() by {
                    assert(rest[j] == requests[j]);
                }
            } else {
                let k = rest.len() as int;
                assert(requests[k] == f[i]);
                assert forall|j: int| 0 <= j < k implies (#[trigger] requests[j]).ga() != f[i].ga() by {
                    assert(rest[j] == requests[j]);
                    assert(holds_artifact(f0, rest[j].ga()));
                }
            }
        }
        assert forall|i: int, j: int| 0 <= i < j < f.len() implies (#[trigger] f[i]).ga() != (
        #[trigger] f[j]).ga() by {
            assert(f[i] == f0[i]);
            if j < f0.len() {
                assert(f[j] == f0[j]);
            }
        }
    }
}

/// Whether the coordinate is requested, and no other version of its artifact
/// is requested before it.
pub open spec fn is_first_request(requests: Seq<CoordinateView>, c: CoordinateView) -> bool {
    exists|k: int|
        0 <= k < requests.len() && #[trigger] requests[k] == c && (forall|j: int|
            0 <= j < k ==> (#[trigger] requests[j]).ga() != c.ga())
}

/// Once every request has been looked at, the visited artifacts are the
/// transitive closure of the roots: each root and each dependency that a
/// visited artifact declares has been visited in some version, nothing has been
/// visited that is neither a root nor declared by what was visited before it, no
/// artifact has been visited twice, and of several requested versions the first
/// one won.
pub proof fn finished_walk_is_closed(w: Resolver, roots: Seq<CoordinateView>)
    requires
        w.walks_from(roots),
        w.looked_at == w.requests.len(),
    ensures
        ({
            let order = visited_views(w.order@);
            let visited = visited_coordinates(order);
            let requests = roots + declared_by(order);
            &&& visited == first_requests(requests)
            &&& forall|i: int| 0 <= i < order.len() ==> #[trigger] is_reached(roots, order, i)
            &&& forall|i: int|
                0 <= i < requests.len() ==> holds_artifact(visited, (#[trigger] requests[i]).ga())
            &&& forall|i: int, j: int|
                0 <= i < j < visited.len() ==> (#[trigger] visited[i]).ga() != (
                #[trigger] visited[j]).ga()
            &&& forall|i: int|
                0 <= i < visited.len() ==> is_first_request(requests, #[trigger] visited[i])
        }),
{
    let requests = coordinate_views(w.requests@);
    assert(requests.take(requests.len() as int) =~= requests);
    first_requests_props(requests);
}

/// A version that a root asks for wins over every other, unless an earlier
/// root asks for the same artifact.
pub proof fn roots_win(
    roots: Seq<CoordinateView>,
    more: Seq<CoordinateView>,
    i: int,
)
    requires
        0 <= i < roots.len(),
        forall|j: int| 0 <= j < i ==> (#[trigger] roots[j]).ga() != roots[i].ga(),
    ensures
        first_requests(roots + more).contains(roots[i]),
{
    let requests = roots + more;
    first_requests_props(requests);
    assert(requests[i] == roots[i]);
    let f = first_requests(requests);
    assert(holds_artifact(f, requests[i].ga()));
    let k = choose|k: int| 0 <= k < f.len() && (#[trigger] f[k]).ga() == roots[i].ga();
    assert(is_first_request(requests, f[k]));
    let n = choose|n: int|
        0 <= n < requests.len() && #[trigger] requests[n] == f[k] && (forall|j: int|
            0 <= j < n ==> (#[trigger] requests[j]).ga() != f[k].ga());
    if n < i {
        assert(requests[n] == roots[n]);
    } else if n > i {
        assert(requests[i].ga() != f[k].ga());
    }
}

// ---------------------------------------------------------------------------
// Fetching

/// Maven Central.
pub const MAVEN_CENTRAL: &'static str = "https://repo1.maven.org/maven2";

/// Google's Maven repository.
pub const GOOGLE_MAVEN: &'static str = "https://dl.google.com/dl/android/maven2";

/// The repositories that are asked, in their order.
pub open spec fn all_repositories(extra: Seq<Seq<char>>) -> Seq<Seq<char>> {
    extra.push(MAVEN_CENTRAL@).push(GOOGLE_MAVEN@)
}

/// The repositories to search, in order: those of the project, then the defaults.
pub fn repositories(extra: &Vec<String>) -> (r: Vec<String>)
    ensures
        views(r@) == all_repositories(views(extra@)),
{
    let mut out = clone_strings(extra);
    let ghost o = out@;
    out.push(MAVEN_CENTRAL.to_owned());
    out.push(GOOGLE_MAVEN.to_owned());
    assert(views(out@) =~= views(o).push(MAVEN_CENTRAL@).push(GOOGLE_MAVEN@));
    out
}

/// Where a repository keeps one of an artifact's files.
pub open spec fn artifact_url(
    repo: Seq<char>,
    c: CoordinateView,
    filename: Seq<char>,
) -> Seq<char> {
    trim_right_char(repo, '/') + "/"@ + c.prefix() + "/"@ + filename
}

/// Where a file of an artifact is looked for, in the order of the repositories.
pub open spec fn addresses_of(
    repos: Seq<Seq<char>>,
    c: CoordinateView,
    filename: Seq<char>,
) -> Seq<Seq<char>> {
    repos.map_values(|repo: Seq<char>| artifact_url(repo, c, filename))
}

/// The addresses to try for one of an artifact's files, in order; the first
/// that answers with success is taken.
pub fn candidate_urls(repos: &Vec<String>, coord: &Coordinate, filename: &str) -> (r: Vec<String>)
    ensures
        views(r@) == addresses_of(views(repos@), coord@, filename@),
{
    let mut out: Vec<String> = Vec::new();
    let ghost f = |repo: Seq<char>| artifact_url(repo, coord@, filename@);
    for i in 0..repos.len()
        invariant
            f == (|repo: Seq<char>| artifact_url(repo, coord@, filename@)),
            views(out@) == views(repos@).take(i as int).map_values(f),
    {
        let mut url = trim_end_char(&repos[i], '/');
        url.append("/");
        url.append(&coord.path_prefix());
        url.append("/");
        url.append(filename);
        let ghost before = out@;
        out.push(url);
        proof {
            assert(views(out@) =~= views(before).push(url@));
            assert(views(repos@).take(i + 1).map_values(f) =~= views(repos@).take(
                i as int,
            ).map_values(f).push(f(views(repos@)[i as int])));
        }
    }
    assert(views(repos@).take(repos@.len() as int) =~= views(repos@));
    out
}

/// The error for an artifact that no repository has.
pub fn not_found(coord: &Coordinate) -> (r: JavaDepsError)
    ensures
        match r {
            JavaDepsError::NotFound { group, artifact, version } => group@ == coord@.group
                && artifact@ == coord@.artifact && version@ == coord@.version,
            _ => false,
        },
{
    JavaDepsError::NotFound {
        group: coord.group.clone(),
        artifact: coord.artifact.clone(),
        version: coord.version.clone(),
    }
}

/// What has been tried to fetch an artifact.
#[derive(Debug, Clone, Copy, PartialEq, Eq, Structural)]
pub enum FetchAttempt {
    Nothing,
    AarFailed,
}

/// What to fetch: the Android archive where the POM declares one and it has not
/// failed, else the plain jar. POMs that mislabel their packaging are thus
/// served from the jar.
pub fn fetch_as(declared: Packaging, tried: FetchAttempt) -> (r: Packaging)
    ensures
        r == Packaging::Aar <==> declared == Packaging::Aar && tried == FetchAttempt::Nothing,
{
    match (declared, tried) {
        (Packaging::Aar, FetchAttempt::Nothing) => Packaging::Aar,
        _ => Packaging::Jar,
    }
}

/// Whether an entry of an Android archive is unpacked: the classes, and the
/// native libraries below `jni/`.
pub open spec fn aar_entry_kept(name: Seq<char>) -> bool {
    name == "classes.jar"@ || ("jni/"@.is_prefix_of(name) && ".so"@.is_suffix_of(name))
}

/// Whether an entry of an Android archive is unpacked.
pub fn wants_aar_entry(name: &str) -> (r: bool)
    ensures
        r == aar_entry_kept(name@),
{
    same(name, "classes.jar") || (starts_with(name, "jni/") && ends_with(name, ".so"))
}

/// Where the parts of an Android archive stand in the cache.
#[derive(Debug)]
pub struct AarPaths {
    pub archive: String,
    pub extract_dir: String,
    pub classes_jar: String,
    pub jni_dir: String,
}

/// Where the parts of an artifact's Android archive stand below its cache directory.
pub fn aar_paths(host: HostOs, coord: &Coordinate, dest_dir: &str) -> (r: AarPaths)
    ensures
        r.archive@ == joined_path(host, dest_dir@, coord@.file(".aar"@)),
        r.extract_dir@ == joined_path(host, dest_dir@, "extracted"@),
        r.classes_jar@ == joined_path(host, r.extract_dir@, "classes.jar"@),
        r.jni_dir@ == joined_path(host, r.extract_dir@, "jni"@),
{
    let extract_dir = join_path(host, dest_dir, "extracted");
    AarPaths {
        archive: join_path(host, dest_dir, &coord.aar_filename()),
        classes_jar: join_path(host, &extract_dir, "classes.jar"),
        jni_dir: join_path(host, &extract_dir, "jni"),
        extract_dir,
    }
}

/// Whether a file name has the extension `so`.
pub open spec fn shared_object(name: Seq<char>) -> bool {
    ".so"@.is_suffix_of(name) && name.len() > 3
}

/// The native libraries among the files of one ABI's directory.
pub open spec fn abi_libs(
    host: HostOs,
    jni_dir: Seq<char>,
    abi: Seq<char>,
    files: Seq<Seq<char>>,
) -> Seq<(Seq<char>, Seq<char>)>
    decreases files.len(),
{
    if files.len() == 0 {
        seq![]
    } else if shared_object(files.last()) {
        abi_libs(host, jni_dir, abi, files.drop_last()).push(
            (abi, joined_path(host, joined_path(host, jni_dir, abi), files.last())),
        )
    } else {
        abi_libs(host, jni_dir, abi, files.drop_last())
    }
}

/// The texts of a listing: directories with the names of their files.
pub open spec fn listing_view(v: Seq<(String, Vec<String>)>) -> Seq<(Seq<char>, Seq<Seq<char>>)> {
    v.map_values(|d: (String, Vec<String>)| (d.0@, views(d.1@)))
}

/// The native libraries in a listing of `jni/`, each with its ABI.
pub open spec fn listed_libs(
    host: HostOs,
    jni_dir: Seq<char>,
    listing: Seq<(Seq<char>, Seq<Seq<char>>)>,
) -> Seq<(Seq<char>, Seq<char>)>
    decreases listing.len(),
{
    if listing.len() == 0 {
        seq![]
    } else {
        listed_libs(host, jni_dir, listing.drop_last()) + abi_libs(
            host,
            jni_dir,
            listing.last().0,
            listing.last().1,
        )
    }
}

fn libs_of_abi(host: HostOs, jni_dir: &str, abi: &String, files: &Vec<String>) -> (r: Vec<
    (String, String),
>)
    ensures
        pair_views(r@) == abi_libs(host, jni_dir@, abi@, views(files@)),
{
    let mut out: Vec<(String, String)> = Vec::new();
    for i in 0..files.len()
        invariant
            pair_views(out@) == abi_libs(host, jni_dir@, abi@, views(files@).take(i as int)),
    {
        proof {
            assert(views(files@).take(i + 1).drop_last() =~= views(files@).take(i as int));
        }
        if ends_with(&files[i], ".so") && files[i].unicode_len() > 3 {
            let path = join_path(host, &join_path(host, jni_dir, abi), &files[i]);
            let ghost before = out@;
            out.push((abi.clone(), path));
            assert(pair_views(out@) =~= pair_views(before).push((abi@, path@)));
        }
    }
    assert(views(files@).take(files@.len() as int) =~= views(files@));
    out
}

/// The native libraries that an unpacked archive brings, each with its ABI, from
/// a listing of the directories below `jni/`.
pub fn native_libs(host: HostOs, jni_dir: &str, listing: &Vec<(String, Vec<String>)>) -> (r: Vec<
    (String, String),
>)
    ensures
        pair_views(r@) == listed_libs(host, jni_dir@, listing_view(listing@)),
{
    let mut out: Vec<(String, String)> = Vec::new();
    for i in 0..listing.len()
        invariant
            pair_views(out@) == listed_libs(
                host,
                jni_dir@,
                listing_view(listing@).take(i as int),
            ),
    {
        let mut libs = libs_of_abi(host, jni_dir, &listing[i].0, &listing[i].1);
        let ghost before = out@;
        let ghost l = libs@;
        out.append(&mut libs);
        proof {
            let all = listing_view(listing@);
            assert(all.take(i + 1).drop_last() =~= all.take(i as int));
            assert(all[i as int] == (listing@[i as int].0@, views(listing@[i as int].1@)));
            assert(pair_views(out@) =~= pair_views(before) + pair_views(l));
        }
    }
    assert(listing_view(listing@).take(listing@.len() as int) =~= listing_view(listing@));
    out
}

/// An artifact that has been fetched: its entry on the class path, that file's
/// size, and the native libraries it brings, each with its ABI.
#[derive(Debug)]
pub struct ResolvedJar {
    pub coordinate: Coordinate,
    pub jar_path: String,
    pub size_bytes: u64,
    pub native_libs: Vec<(String, String)>,
}

/// The result for a plain jar.
pub fn resolved_jar(coord: &Coordinate, jar_path: String, size_bytes: u64) -> (r: ResolvedJar)
    ensures
        r.coordinate@ == coord@,
        r.jar_path == jar_path,
        r.size_bytes == size_bytes,
        r.native_libs@.len() == 0,
{
    ResolvedJar { coordinate: coord.clone(), jar_path, size_bytes, native_libs: Vec::new() }
}

/// The result for an unpacked Android archive. Where it held no `classes.jar`
/// the archive itself stands on the class path. A size that could not be read
/// counts as zero.
pub fn resolved_aar(
    coord: &Coordinate,
    paths: AarPaths,
    classes_present: bool,
    classes_size: Option<u64>,
    archive_size: Option<u64>,
    native_libs: Vec<(String, String)>,
) -> (r: ResolvedJar)
    ensures
        r.coordinate@ == coord@,
        r.jar_path == (if classes_present {
            paths.classes_jar
        } else {
            paths.archive
        }),
        r.size_bytes == (match if classes_present {
            classes_size
        } else {
            archive_size
        } {
            Some(n) => n,
            None => 0,
        }),
        r.native_libs == native_libs,
{
    let size: Option<u64> = if classes_present {
        classes_size
    } else {
        archive_size
    };
    ResolvedJar {
        coordinate: coord.clone(),
        jar_path: if classes_present {
            paths.classes_jar
        } else {
            paths.archive
        },
        size_bytes: match size {
            Some(n) => n,
            None => 0,
        },
        native_libs,
    }
}

/// The text of the line that announces an artifact.
pub open spec fn fetch_line_text(index: nat, total: nat, c: CoordinateView) -> Seq<char> {
    "  ["@ + decimal(index + 1) + "/"@ + decimal(total) + "] "@ + c.group + ":"@ + c.artifact
        + ":"@ + c.version
}

/// The line that announces the artifact at `index` of `total`.
pub fn fetch_line(index: usize, total: usize, coord: &Coordinate) -> (r: String)
    requires
        index < total,
    ensures
        r@ == fetch_line_text(index as nat, total as nat, coord@),
{
    let mut out = "  [".to_owned();
    push_decimal(&mut out, (index + 1) as u64);
    out.append("/");
    push_decimal(&mut out, total as u64);
    out.append("] ");
    out.append(&coord.group);
    out.append(":");
    out.append(&coord.artifact);
    out.append(":");
    out.append(&coord.version);
    out
}

/// One row of the dependency table: `group:artifact`, version, size.
pub open spec fn row_of(jar: ResolvedJar) -> (Seq<char>, Seq<char>, u64) {
    (jar.coordinate@.group + ":"@ + jar.coordinate@.artifact, jar.coordinate@.version, jar.size_bytes)
}

/// The rows of the dependency table.
pub open spec fn row_views(v: Seq<(String, String, u64)>) -> Seq<(Seq<char>, Seq<char>, u64)> {
    v.map_values(|r: (String, String, u64)| (r.0@, r.1@, r.2))
}

/// The rows of the table shown after resolution.
pub fn ui_rows(jars: &Vec<ResolvedJar>) -> (r: Vec<(String, String, u64)>)
    ensures
        row_views(r@) == jars@.map_values(|j: ResolvedJar| row_of(j)),
{
    let mut out: Vec<(String, String, u64)> = Vec::new();
    let ghost f = |j: ResolvedJar| row_of(j);
    for i in 0..jars.len()
        invariant
            f == (|j: ResolvedJar| row_of(j)),
            row_views(out@) == jars@.take(i as int).map_values(f),
    {
        let c = &jars[i].coordinate;
        let row = (concat3(&c.group, ":", &c.artifact), c.version.clone(), jars[i].size_bytes);
        let ghost before = out@;
        out.push(row);
        proof {
            assert(row_views(out@) =~= row_views(before).push((row.0@, row.1@, row.2)));
            assert(jars@.take(i + 1).map_values(f) =~= jars@.take(i as int).map_values(f).push(
                f(jars@[i as int]),
            ));
        }
    }
    assert(jars@.take(jars@.len() as int) =~= jars@);
    out
}

/// Where fetched dependencies are kept.
pub open spec fn cache_dir(host: HostOs, home: Seq<char>) -> Seq<char> {
    joined_path(host, joined_path(host, home, ".rusk"@), "java-cache"@)
}

/// Where artifacts are kept below the user's home.
pub fn cache_root(host: HostOs, home: &str) -> (r: String)
    ensures
        r@ == cache_dir(host, home@),
{
    join_path(host, &join_path(host, home, ".rusk"), "java-cache")
}

/// What has to be done for an Android archive: whether it is downloaded, and
/// whether it is unpacked.
#[derive(Debug, Clone, Copy, PartialEq, Eq, Structural)]
pub struct AarWork {
    pub download: bool,
    pub unpack: bool,
}

/// What has to be done for an Android archive: an archive that is in the cache is
/// not downloaded again, and one whose classes are there is not unpacked again.
pub fn aar_work(archive_is_file: bool, classes_is_file: bool) -> (r: AarWork)
    ensures
        r.download == !archive_is_file,
        r.unpack == !classes_is_file,
{
    AarWork { download: !archive_is_file, unpack: !classes_is_file }
}

/// A key made of a group without colons and an artifact is read back as these.
pub proof fn key_read_back(group: Seq<char>, artifact: Seq<char>)
    requires
        !group.contains(':'),
    ensures
        split_first(group + ":"@ + artifact, ':') == Some((group, artifact)),
{
    reveal_strlit(":");
    assert(":"@ =~= seq![':']);
    assert(group + ":"@ + artifact =~= group.push(':') + artifact);
    split_first_of_joined(group, artifact, ':');
}

// ---------------------------------------------------------------------------
// What holds of every dependency

/// Whether a file is a shared library, by the extension of its name.
pub open spec fn is_library(host: HostOs, file: Seq<char>) -> bool {
    extension_of(host, file) == Some("so"@)
}

/// A file's name with the extension `so` is one that ends in `.so` and has something
/// before that.
proof fn library_by_name(host: HostOs, file: Seq<char>)
    requires
        one_name(file),
    ensures
        is_library(host, file) == shared_object(file),
{
    reveal_strlit("so");
    reveal_strlit(".so");
    assert("so"@ =~= seq!['s', 'o']);
    assert(".so"@ =~= seq!['.', 's', 'o']);
    name_is_file_name(host, file);
    let n = file.len() as int;
    find_last_props(file, '.', n);
    let k = stem_end(file, 0, n);
    if is_library(host, file) {
        let ext = file.subrange(k + 1, n);
        assert(ext.len() == 2);
        assert(ext[0] == file[k + 1] && ext[1] == file[k + 2]);
        assert(file.subrange(n - 3, n) =~= ".so"@);
    }
    if shared_object(file) {
        let end = file.subrange(n - 3, n);
        assert(end == ".so"@);
        assert(end[0] == file[n - 3] && end[1] == file[n - 2] && end[2] == file[n - 1]);
        assert(file.subrange(n - 2, n) =~= "so"@);
    }
}

/// Of the files in the directory of an ABI exactly the shared libraries are taken,
/// each as often as it is listed and in the order of the listing, with that ABI and
/// the path of the file.
pub proof fn every_library_is_taken(
    host: HostOs,
    jni_dir: Seq<char>,
    abi: Seq<char>,
    files: Seq<Seq<char>>,
)
    requires
        forall|i: int| 0 <= i < files.len() ==> one_name(#[trigger] files[i]),
    ensures
        abi_libs(host, jni_dir, abi, files).len() == files.filter(
            |f: Seq<char>| is_library(host, f),
        ).len(),
        forall|i: int|
            0 <= i < abi_libs(host, jni_dir, abi, files).len() ==> {
                &&& (#[trigger] abi_libs(host, jni_dir, abi, files)[i]).0 == abi
                &&& steady(host, jni_dir) && one_name(abi) ==> components(
                    host,
                    abi_libs(host, jni_dir, abi, files)[i].1,
                ) == components(host, jni_dir) + seq![
                    abi,
                    files.filter(|f: Seq<char>| is_library(host, f))[i],
                ]
            },
    decreases files.len(),
{
    reveal(Seq::filter);
    let p = |f: Seq<char>| is_library(host, f);
    if files.len() > 0 {
        let rest = files.drop_last();
        let last = files.last();
        assert(files[files.len() - 1] == last);
        assert forall|i: int| 0 <= i < rest.len() implies one_name(#[trigger] rest[i]) by {
            assert(rest[i] == files[i]);
        }
        every_library_is_taken(host, jni_dir, abi, rest);
        library_by_name(host, last);
        if steady(host, jni_dir) && one_name(abi) {
            joined_2(host, jni_dir, abi, last);
        }
        let before = abi_libs(host, jni_dir, abi, rest);
        let now = abi_libs(host, jni_dir, abi, files);
        let kept = files.filter(p);
        assert forall|i: int| 0 <= i < now.len() implies {
            &&& (#[trigger] now[i]).0 == abi
            &&& steady(host, jni_dir) && one_name(abi) ==> components(host, now[i].1)
                == components(host, jni_dir) + seq![abi, kept[i]]
        } by {
            if i < before.len() {
                assert(now[i] == before[i]);
                assert(kept[i] == rest.filter(p)[i]);
            }
        }
    }
}

/// The libraries of a listing are those of its parts, one after another, so none of
/// an ABI's is left out for another's sake.
pub proof fn every_abi_is_taken(
    host: HostOs,
    jni_dir: Seq<char>,
    a: Seq<(Seq<char>, Seq<Seq<char>>)>,
    b: Seq<(Seq<char>, Seq<Seq<char>>)>,
)
    ensures
        listed_libs(host, jni_dir, a + b) == listed_libs(host, jni_dir, a) + listed_libs(
            host,
            jni_dir,
            b,
        ),
        b.len() == 1 ==> listed_libs(host, jni_dir, b) == abi_libs(
            host,
            jni_dir,
            b[0].0,
            b[0].1,
        ),
    decreases b.len(),
{
    if b.len() == 0 {
        assert(a + b =~= a);
        assert(listed_libs(host, jni_dir, a) + listed_libs(host, jni_dir, b) =~= listed_libs(
            host,
            jni_dir,
            a,
        ));
    } else {
        every_abi_is_taken(host, jni_dir, a, b.drop_last());
        assert((a + b).drop_last() =~= a + b.drop_last());
        assert(listed_libs(host, jni_dir, a + b) =~= listed_libs(host, jni_dir, a) + listed_libs(
            host,
            jni_dir,
            b,
        ));
        if b.len() == 1 {
            assert(b.drop_last() =~= seq![]);
            assert(listed_libs(host, jni_dir, b.drop_last()) =~= seq![]);
            assert(listed_libs(host, jni_dir, b) =~= abi_libs(host, jni_dir, b[0].0, b[0].1));
        }
    }
}

/// A dependency in any scope is followed but for those of tests, those that the
/// device provides and those of the system, and unless it is optional.
pub proof fn scopes_are_followed(c: CoordinateView, scope: Seq<char>, optional: Seq<char>, s: PomScanView)
    requires
        s.group == c.group && s.artifact == c.artifact && s.version == c.version,
        s.scope == scope && s.optional == optional,
        s.in_dependency,
        c.group.len() > 0 && c.artifact.len() > 0 && c.version.len() > 0,
    ensures
        s.after(XmlEventView::End("dependency"@)).deps == (if scope == "test"@ || scope
            == "provided"@ || scope == "system"@ || optional == "true"@ {
            s.deps
        } else {
            s.deps.push(c)
        }),
{
    reveal_strlit("dependency");
    reveal_strlit("dependencies");
    reveal_strlit("exclusions");
    assert("dependency"@.len() == 10 && "dependencies"@.len() == 12);
    assert("dependency"@[0] == 'd' && "exclusions"@[0] == 'e');
}

/// Maven keeps an artifact in a directory for each part of its group, then one for
/// the artifact and one for the version: splitting where it is kept gives all of
/// these back.
pub proof fn maven_layout_read_back(c: CoordinateView)
    requires
        !c.group.contains('/') && !c.artifact.contains('/') && !c.version.contains('/'),
    ensures
        split_all(c.prefix(), '/') == split_all(c.group, '.').push(c.artifact).push(c.version),
{
    reveal_strlit("/");
    assert("/"@ =~= seq!['/']);
    let g = replaced(c.group, '.', "/"@);
    let a = g.push('/') + c.artifact;
    assert(c.prefix() =~= a.push('/') + c.version);
    split_all_of_joined(a, c.version, '/');
    split_all_without(c.version, '/');
    split_all_of_joined(g, c.artifact, '/');
    split_all_without(c.artifact, '/');
    split_replaced(c.group, 0);
    assert(split_all(g, '/').push(c.artifact).push(c.version) =~= split_all(g, '/') + seq![
        c.artifact,
    ] + seq![c.version]);
}

/// Slashes for dots split a text where the dots did.
proof fn split_replaced(s: Seq<char>, start: int)
    requires
        0 <= start <= s.len(),
        !s.contains('/'),
    ensures
        split_from(replaced(s, '.', seq!['/']), '/', start) == split_from(s, '.', start),
    decreases s.len() - start,
{
    let t = replaced(s, '.', seq!['/']);
    replaced_one_for_one(s, '.', '/');
    find_char_props(s, '.', start);
    find_char_props(t, '/', start);
    let e = find_char(s, '.', start);
    let f = find_char(t, '/', start);
    if e < s.len() {
        assert(t[e] == '/');
    }
    if f < t.len() {
        assert(s[f] == '.') by {
            if s[f] != '.' {
                assert(t[f] == s[f]);
                assert(s.contains('/'));
            }
        }
    }
    assert(e == f);
    assert(t.subrange(start, e) =~= s.subrange(start, e)) by {
        assert forall|k: int| start <= k < e implies t[k] == s[k] by {
            assert(s[k] != '.');
        }
    }
    if e < s.len() {
        split_replaced(s, e + 1);
    } else {
        assert(t.skip(start) =~= s.skip(start)) by {
            assert forall|k: int| start <= k < s.len() implies t[k] == s[k] by {
                assert(s[k] != '.');
            }
        }
    }
}

/// The address of a file is below its repository, whether or not that is written with
/// a slash at its end, in the artifact's directory, under the file's name.
pub proof fn address_is_below_repository(repo: Seq<char>, c: CoordinateView, filename: Seq<char>)
    requires
        repo.len() > 0 && repo.last() != '/',
    ensures
        artifact_url(repo, c, filename) == repo.push('/') + c.prefix().push('/') + filename,
        artifact_url(repo.push('/'), c, filename) == artifact_url(repo, c, filename),
{
    reveal_strlit("/");
    assert("/"@ =~= seq!['/']);
    assert(repo.push('/').drop_last() =~= repo);
    assert(trim_right_char(repo, '/') == repo);
    assert(trim_right_char(repo.push('/'), '/') == repo);
    assert(artifact_url(repo, c, filename) =~= repo.push('/') + c.prefix().push('/') + filename);
}

/// Every file of an artifact is named after it and its version.
pub proof fn files_are_named_after_artifact(c: CoordinateView, extension: Seq<char>)
    ensures
        c.file(extension).len() == c.artifact.len() + 1 + c.version.len() + extension.len(),
        c.file(extension).take(c.artifact.len() as int) == c.artifact,
        c.file(extension)[c.artifact.len() as int] == '-',
        contains_text(c.file(extension), c.version),
        extension.is_suffix_of(c.file(extension)),
{
    reveal_strlit("-");
    let f = c.file(extension);
    assert(f.take(c.artifact.len() as int) =~= c.artifact);
    contains_in_middle(c.artifact + "-"@, c.version, extension);
    assert(f.subrange(f.len() - extension.len(), f.len() as int) =~= extension);
}

/// A row of the table shows the artifact, its version and its size.
pub proof fn row_shows_artifact(jar: ResolvedJar)
    requires
        !jar.coordinate@.group.contains(':'),
    ensures
        split_first(row_of(jar).0, ':') == Some(
            (jar.coordinate@.group, jar.coordinate@.artifact),
        ),
        row_of(jar).1 == jar.coordinate@.version,
        row_of(jar).2 == jar.size_bytes,
{
    reveal_strlit(":");
    assert(":"@ =~= seq![':']);
    let c = jar.coordinate@;
    split_first_of_joined(c.group, c.artifact, ':');
    assert(row_of(jar).0 =~= c.group.push(':') + c.artifact);
}

/// Of an archive exactly its classes and the shared libraries below `jni` are kept.
pub proof fn kept_entries(name: Seq<char>)
    ensures
        aar_entry_kept(name) ==> name == "classes.jar"@ || name[0] == 'j' && name[1] == 'n'
            && name[2] == 'i' && name[3] == '/' && name.last() == 'o',
        name.len() >= 3 && name.skip(name.len() - 3) == ".so"@ ==> aar_entry_kept("jni/"@ + name),
        aar_entry_kept("classes.jar"@),
        !aar_entry_kept("AndroidManifest.xml"@),
{
    reveal_strlit("jni/");
    reveal_strlit(".so");
    reveal_strlit("classes.jar");
    reveal_strlit("AndroidManifest.xml");
    assert("AndroidManifest.xml"@[0] == 'A' && "classes.jar"@[0] == 'c' && "jni/"@[0] == 'j');
    if "jni/"@.is_prefix_of(name) && ".so"@.is_suffix_of(name) {
        assert(name.subrange(0, 4)[0] == name[0] && name.subrange(0, 4)[1] == name[1]);
        assert(name.subrange(0, 4)[2] == name[2] && name.subrange(0, 4)[3] == name[3]);
        assert(name.subrange(name.len() - 3, name.len() as int)[2] == name.last());
    }
    if "jni/"@.is_prefix_of("AndroidManifest.xml"@) {
        assert("AndroidManifest.xml"@.subrange(0, 4)[0] == 'A');
    }
    let s = "jni/"@ + name;
    assert(s.subrange(0, 4) =~= "jni/"@);
    if name.len() >= 3 && name.skip(name.len() - 3) == ".so"@ {
        assert(s.subrange(s.len() - 3, s.len() as int) =~= name.skip(name.len() - 3));
    }
}

/// The message of an error tells what it is about.
#[verifier::rlimit(40)]
pub proof fn message_tells_all(e: JavaDepsError)
    ensures
        match e {
            JavaDepsError::BadKey(key) => contains_text(e.text(), key@),
            JavaDepsError::NotFound { group, artifact, version } => contains_text(e.text(), group@) && contains_text(e.text(), ":"@ + artifact@) && contains_text(e.text(), ":"@ + version@),
        },
{
    match e {
        JavaDepsError::BadKey(key) => {
            tells("invalid dependency key \""@, key@);
            tells_more("invalid dependency key \""@ + key@, "\"; expected \"group:artifact\""@, key@);
        },
        JavaDepsError::NotFound { group, artifact, version } => {
            tells(seq![], group@);
            assert(seq![] + group@ =~= group@);
            tells_more(group@, ":"@, group@);
            tells_more(group@ + ":"@, artifact@, group@);
            tells_more(group@ + ":"@ + artifact@, ":"@, group@);
            tells_more(group@ + ":"@ + artifact@ + ":"@, version@, group@);
            tells_more(group@ + ":"@ + artifact@ + ":"@ + version@, " was not found in any configured repository"@, group@);
            assert(seq![] + ":"@ =~= ":"@);
            tells_behind(group@, seq![], ":"@, artifact@);
            tells_more(group@ + ":"@ + artifact@, ":"@, ":"@ + artifact@);
            tells_more(group@ + ":"@ + artifact@ + ":"@, version@, ":"@ + artifact@);
            tells_more(group@ + ":"@ + artifact@ + ":"@ + version@, " was not found in any configured repository"@, ":"@ + artifact@);
            assert(seq![] + ":"@ =~= ":"@);
            tells_behind(group@ + ":"@ + artifact@, seq![], ":"@, version@);
            tells_more(group@ + ":"@ + artifact@ + ":"@ + version@, " was not found in any configured repository"@, ":"@ + version@);
        },
    }
}

/// A package is an archive exactly where its description says so; all else is a jar.
pub proof fn packaging_is_declared(a: Seq<char>, b: Seq<char>)
    ensures
        packaging_of(a + "<packaging>aar</packaging>"@ + b) == Packaging::Aar,
        !contains_text(a, "<packaging>aar</packaging>"@) ==> packaging_of(a) == Packaging::Jar,
{
    contains_in_middle(a, "<packaging>aar</packaging>"@, b);
}

/// What is fetched is shown with its coordinate behind its number, from one on, of all.
pub proof fn fetch_is_shown(index: nat, total: nat, c: CoordinateView)
    ensures
        contains_text(
            fetch_line_text(index, total, c),
            seq!['['] + decimal(index + 1) + seq!['/'] + decimal(total) + seq![']'],
        ),
        (c.group + seq![':'] + c.artifact + seq![':'] + c.version).is_suffix_of(
            fetch_line_text(index, total, c),
        ),
{
    reveal_strlit("  [");
    reveal_strlit("/");
    reveal_strlit("] ");
    reveal_strlit(":");
    let t = fetch_line_text(index, total, c);
    let n = seq!['['] + decimal(index + 1) + seq!['/'] + decimal(total) + seq![']'];
    let k = c.group + seq![':'] + c.artifact + seq![':'] + c.version;
    contains_in_middle(seq![' ', ' '], n, seq![' '] + k);
    assert(seq![' ', ' '] + n + (seq![' '] + k) =~= t);
    assert(t.subrange(t.len() - k.len(), t.len() as int) =~= k);
}

/// The repositories of the project are asked before the common ones, in the order that
/// the project names them; then Maven Central, and Google's behind it.
pub proof fn own_repositories_come_first(extra: Seq<Seq<char>>, c: CoordinateView, file: Seq<char>)
    ensures
        all_repositories(extra).len() == extra.len() + 2,
        all_repositories(extra).take(extra.len() as int) == extra,
        all_repositories(extra)[extra.len() as int] == "https://repo1.maven.org/maven2"@,
        all_repositories(extra)[(extra.len() + 1) as int] == "https://dl.google.com/dl/android/maven2"@,
        addresses_of(all_repositories(extra), c, file).len() == extra.len() + 2,
        forall|i: int|
            0 <= i < extra.len() ==> trim_right_char(extra[i], '/').push('/').is_prefix_of(
                #[trigger] addresses_of(all_repositories(extra), c, file)[i],
            ),
{
    let all = all_repositories(extra);
    assert(all.take(extra.len() as int) =~= extra);
    let urls = addresses_of(all, c, file);
    reveal_strlit("/");
    assert forall|i: int| 0 <= i < extra.len() implies trim_right_char(extra[i], '/').push(
        '/',
    ).is_prefix_of(#[trigger] urls[i]) by {
        let p = trim_right_char(extra[i], '/').push('/');
        assert(all[i] == extra[i]);
        assert(urls[i].subrange(0, p.len() as int) =~= p);
    }
}

/// What is fetched is kept below the user's home.
#[verifier::rlimit(40)]
pub proof fn cache_lies_below_home(host: HostOs, home: Seq<char>)
    requires
        steady(host, home),
    ensures
        components(host, cache_dir(host, home)) == components(host, home) + seq![
            ".rusk"@,
            "java-cache"@,
        ],
{
    assert(one_name(".rusk"@)) by {
        reveal_strlit(".rusk");
        long_name_is_one_name(".rusk"@);
    }
    assert(one_name("java-cache"@)) by {
        reveal_strlit("java-cache");
        long_name_is_one_name("java-cache"@);
    }
    joined_2(host, home, ".rusk"@, "java-cache"@);
}

/// A key without a colon is none; one with a colon names the group before the first and
/// the artifact behind it, in the version that is asked for.
pub proof fn roots_are_read(group: Seq<char>, artifact: Seq<char>, version: Seq<char>)
    requires
        !group.contains(':'),
    ensures
        root_at((group.push(':') + artifact, version)) == Some(
            CoordinateView { group, artifact, version },
        ),
        root_at((group, version)) is None,
{
    split_first_of_joined(group, artifact, ':');
    find_char_props(group, ':', 0);
    let k = find_char(group, ':', 0);
    if k < group.len() {
        assert(group[k] == ':');
    }
}

} // verus!
