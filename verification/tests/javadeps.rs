use rusk::javadeps::{
    aar_paths, aar_work, cache_root, candidate_urls, declared_packaging, dependencies_in, fetch_as, fetch_line, native_libs, not_found, parse_pom_dependencies, repositories, resolved_aar, resolved_jar, ui_rows, wants_aar_entry, AarWork, Coordinate, FetchAttempt, JavaDepsError, Packaging, Resolver,
};
use rusk::path::HostOs;
use rusk::xml::{XmlEvent, XmlTag};

fn coord(s: &str) -> Coordinate {
    let mut parts = s.split(':');
    Coordinate {
        group: parts.next().unwrap().to_string(),
        artifact: parts.next().unwrap().to_string(),
        version: parts.next().unwrap().to_string(),
    }
}

fn show(c: &Coordinate) -> String {
    format!("{}:{}:{}", c.group, c.artifact, c.version)
}

fn root(key: &str, version: &str) -> (String, String) {
    (key.to_string(), version.to_string())
}

#[test]
fn coordinates_are_read() {
    let c = Coordinate::parse("androidx.core:core-ktx", "1.13.1").unwrap();
    assert_eq!(show(&c), "androidx.core:core-ktx:1.13.1");
    assert_eq!(c.path_prefix(), "androidx/core/core-ktx/1.13.1");
    assert_eq!(c.pom_filename(), "core-ktx-1.13.1.pom");
    assert_eq!(c.jar_filename(), "core-ktx-1.13.1.jar");
    assert_eq!(c.aar_filename(), "core-ktx-1.13.1.aar");
    let c = Coordinate::parse("g:a:b", "1").unwrap();
    assert_eq!(c.artifact, "a:b");
}

#[test]
fn a_key_without_colon_is_bad() {
    let e = Coordinate::parse("gson", "2").unwrap_err();
    assert!(matches!(&e, JavaDepsError::BadKey(k) if k == "gson"));
    assert_eq!(e.message(), "invalid dependency key \"gson\"; expected \"group:artifact\"");
}

const POM: &str = r#"<?xml version="1.0"?>
<project>
  <packaging>jar</packaging>
  <dependencies>
    <dependency>
      <groupId>g</groupId><artifactId>plain</artifactId><version>1</version>
      <exclusions><exclusion><groupId>x</groupId><artifactId>y</artifactId></exclusion></exclusions>
    </dependency>
    <dependency>
      <groupId>g</groupId><artifactId>tested</artifactId><version>1</version><scope>test</scope>
    </dependency>
    <dependency>
      <groupId>g</groupId><artifactId>provided</artifactId><version>1</version><scope>provided</scope>
    </dependency>
    <dependency>
      <groupId>g</groupId><artifactId>sys</artifactId><version>1</version><scope>system</scope>
    </dependency>
    <dependency>
      <groupId>g</groupId><artifactId>runtime</artifactId><version>&lt;2</version><scope>runtime</scope>
    </dependency>
    <dependency>
      <groupId>g</groupId><artifactId>maybe</artifactId><version>1</version><optional>true</optional>
    </dependency>
    <dependency>
      <groupId>g</groupId><artifactId>unversioned</artifactId>
    </dependency>
    <dependency>
      <groupId> g </groupId><artifactId>notoptional</artifactId><version>${v}</version><optional>false</optional>
    </dependency>
  </dependencies>
  <build><dependency><groupId>no</groupId><artifactId>no</artifactId><version>1</version></dependency></build>
</project>"#;

#[test]
fn dependencies_of_a_pom() {
    let deps: Vec<String> = parse_pom_dependencies(POM).iter().map(show).collect();
    assert_eq!(deps, ["g:plain:1", "g:runtime:<2", "g:notoptional:${v}"]);
}

#[test]
fn a_broken_pom_yields_what_came_before() {
    let text = "<a><dependencies><dependency><groupId>g</groupId><artifactId>a</artifactId><version>1</version></dependency></wrong>";
    let deps: Vec<String> = parse_pom_dependencies(text).iter().map(show).collect();
    assert_eq!(deps, ["g:a:1"]);
    assert!(parse_pom_dependencies("").is_empty());
    assert!(parse_pom_dependencies("not xml").is_empty());
}

fn start(name: &str) -> XmlEvent {
    XmlEvent::Start(XmlTag { name: name.to_string(), attributes: vec![] })
}

fn end(name: &str) -> XmlEvent {
    XmlEvent::End(name.to_string())
}

fn element(name: &str, text: &str) -> Vec<XmlEvent> {
    vec![start(name), XmlEvent::Text(text.to_string()), end(name)]
}

#[test]
fn a_dependency_block_among_events() {
    let mut events = vec![start("dependencies"), start("dependency")];
    events.extend(element("groupId", "g"));
    events.extend(element("artifactId", "a"));
    events.extend(element("version", "1"));
    events.extend(element("scope", "compile"));
    events.extend(element("optional", "no"));
    events.push(end("dependency"));
    let deps: Vec<String> = dependencies_in(&events).iter().map(show).collect();
    assert_eq!(deps, ["g:a:1"]);
}

#[test]
fn packaging_is_declared() {
    assert_eq!(declared_packaging("<packaging>aar</packaging>"), Packaging::Aar);
    assert_eq!(declared_packaging("<packaging>jar</packaging>"), Packaging::Jar);
    assert_eq!(declared_packaging(""), Packaging::Jar);
}

#[test]
fn a_mislabelled_archive_is_fetched_as_a_jar() {
    assert_eq!(fetch_as(Packaging::Aar, FetchAttempt::Nothing), Packaging::Aar);
    assert_eq!(fetch_as(Packaging::Aar, FetchAttempt::AarFailed), Packaging::Jar);
    assert_eq!(fetch_as(Packaging::Jar, FetchAttempt::Nothing), Packaging::Jar);
}

fn walk(roots: Vec<(String, String)>, graph: &[(&str, &[&str])]) -> Vec<String> {
    let mut w = Resolver::new(&roots).unwrap();
    while let Some(c) = w.next() {
        let deps = graph
            .iter()
            .find(|(n, _)| *n == show(&c))
            .map(|(_, d)| d.iter().map(|s| coord(s)).collect())
            .unwrap_or_default();
        w.accept(Packaging::Jar, deps);
    }
    w.order.iter().map(|v| show(&v.coordinate)).collect()
}

#[test]
fn the_closure_of_the_roots_is_visited_once() {
    let graph: &[(&str, &[&str])] =
        &[("g:a:1", &["g:b:1", "g:c:1"]), ("g:b:1", &["g:c:1", "g:a:1"]), ("g:c:1", &["g:d:1"])];
    assert_eq!(walk(vec![root("g:a", "1")], graph), ["g:a:1", "g:b:1", "g:c:1", "g:d:1"]);
}

#[test]
fn the_first_version_requested_wins() {
    let graph: &[(&str, &[&str])] = &[("g:a:1", &["g:x:1", "g:y:1"]), ("g:y:1", &["g:x:2"])];
    assert_eq!(walk(vec![root("g:a", "1")], graph), ["g:a:1", "g:x:1", "g:y:1"]);
}

#[test]
fn a_version_pinned_by_a_root_wins() {
    let graph: &[(&str, &[&str])] = &[("g:a:1", &["g:z:9"])];
    assert_eq!(walk(vec![root("g:a", "1"), root("g:z", "1")], graph), ["g:a:1", "g:z:1"]);
}

#[test]
fn a_bad_root_stops_the_walk() {
    let e = Resolver::new(&vec![root("g:a", "1"), root("bad", "1"), root("worse", "1")]).unwrap_err();
    assert!(matches!(e, JavaDepsError::BadKey(k) if k == "bad"));
}

#[test]
fn poms_are_accepted() {
    let mut w = Resolver::new(&vec![root("g:a", "1")]).unwrap();
    assert_eq!(show(&w.next().unwrap()), "g:a:1");
    assert!(w.accept_pom(&POM.replace("<packaging>jar", "<packaging>aar").replace("jar</packaging>", "aar</packaging>")));
    assert_eq!(w.order[0].packaging, Packaging::Aar);
    assert_eq!(w.order[0].dependencies.len(), 3);
    assert_eq!(show(&w.next().unwrap()), "g:plain:1");
    assert!(w.has_visited("g", "a"));
    assert!(!w.has_visited("g", "plain"));
}

#[test]
fn repositories_are_searched_in_order() {
    let repos = repositories(&vec!["https://my.repo//".to_string()]);
    assert_eq!(repos.len(), 3);
    let urls = candidate_urls(&repos, &coord("a.b:c:1"), "c-1.pom");
    assert_eq!(
        urls,
        [
            "https://my.repo/a/b/c/1/c-1.pom",
            "https://repo1.maven.org/maven2/a/b/c/1/c-1.pom",
            "https://dl.google.com/dl/android/maven2/a/b/c/1/c-1.pom",
        ]
    );
    assert_eq!(
        not_found(&coord("a.b:c:1")).message(),
        "a.b:c:1 was not found in any configured repository"
    );
}

#[test]
fn entries_of_an_archive() {
    assert!(wants_aar_entry("classes.jar"));
    assert!(wants_aar_entry("jni/arm64-v8a/libx.so"));
    assert!(!wants_aar_entry("libs/classes.jar"));
    assert!(!wants_aar_entry("res/x.so"));
    assert!(!wants_aar_entry("jni/readme"));
}

#[test]
fn an_unpacked_archive() {
    let c = coord("g:a:1");
    let p = aar_paths(HostOs::Linux, &c, "/cache");
    assert_eq!(p.archive, "/cache/a-1.aar");
    assert_eq!(p.classes_jar, "/cache/extracted/classes.jar");
    let listing = vec![
        ("x86".to_string(), vec!["liba.so".to_string(), "notes.txt".to_string(), ".so".to_string()]),
        ("arm64-v8a".to_string(), vec!["liba.so".to_string()]),
    ];
    let libs = native_libs(HostOs::Linux, &p.jni_dir, &listing);
    assert_eq!(
        libs,
        [
            ("x86".to_string(), "/cache/extracted/jni/x86/liba.so".to_string()),
            ("arm64-v8a".to_string(), "/cache/extracted/jni/arm64-v8a/liba.so".to_string()),
        ]
    );
    let r = resolved_aar(&c, p, true, Some(7), Some(9), libs);
    assert_eq!((r.jar_path.as_str(), r.size_bytes, r.native_libs.len()), ("/cache/extracted/classes.jar", 7, 2));
    let p = aar_paths(HostOs::Linux, &c, "/cache");
    let r = resolved_aar(&c, p, false, None, None, vec![]);
    assert_eq!((r.jar_path.as_str(), r.size_bytes), ("/cache/a-1.aar", 0));
}

#[test]
fn rows_of_the_table() {
    let jars = vec![resolved_jar(&coord("g:a:1"), "/x.jar".to_string(), 5)];
    assert_eq!(ui_rows(&jars), [("g:a".to_string(), "1".to_string(), 5)]);
    assert_eq!(fetch_line(0, 12, &coord("g:a:1")), "  [1/12] g:a:1");
}

#[test]
fn what_is_in_the_cache_is_kept() {
    assert_eq!(cache_root(HostOs::Linux, "/home/u"), "/home/u/.rusk/java-cache");
    assert_eq!(aar_work(false, false), AarWork { download: true, unpack: true });
    assert_eq!(aar_work(true, false), AarWork { download: false, unpack: true });
    assert_eq!(aar_work(true, true), AarWork { download: false, unpack: false });
}

#[test]
fn a_key_is_read_back() {
    let c = Coordinate::parse("androidx.core:core-ktx", "1.13.1").ok().unwrap();
    assert_eq!(show(&c), "androidx.core:core-ktx:1.13.1");
}
