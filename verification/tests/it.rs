use std::cell::Cell;

use maven_toolbox::ArtifactFqn;
use maven_toolbox::Dependency;
use maven_toolbox::DependencyManagement;
use maven_toolbox::DependencyMap;
use maven_toolbox::PomParser;
use maven_toolbox::Project;
use maven_toolbox::PropertyMap;
use maven_toolbox::Resolver;
use maven_toolbox::ResolverError;
use maven_toolbox::UrlFetcher;

/// A fetcher that hands the requested location back as the document
/// text, counting its calls; the fake parser then dispatches on it.
struct EchoFetcher {
    calls: Cell<usize>,
}

impl EchoFetcher {
    fn new() -> Self {
        EchoFetcher { calls: Cell::new(0) }
    }
}

impl UrlFetcher for EchoFetcher {
    fn fetch(&self, url: &str) -> Result<String, ResolverError> {
        self.calls.set(self.calls.get() + 1);
        Ok(url.to_owned())
    }
}

fn dep(group: &str, artifact: &str, version: Option<&str>, scope: Option<&str>) -> Dependency {
    Dependency {
        artifact_fqn: ArtifactFqn {
            group_id: Some(group.to_owned()),
            artifact_id: Some(artifact.to_owned()),
            version: version.map(|v| v.to_owned()),
            packaging: None,
            classifier: None,
        },
        scope: scope.map(|s| s.to_owned()),
    }
}

fn dep_map(deps: Vec<Dependency>) -> DependencyMap {
    let mut m = DependencyMap::new();
    for d in deps {
        let k = d.get_key();
        m.insert(k, d);
    }
    m
}

fn project(
    fqn: ArtifactFqn,
    parent: Option<ArtifactFqn>,
    deps: Vec<Dependency>,
    managed: Option<Vec<Dependency>>,
) -> Project {
    Project {
        parent: parent.map(|artifact_fqn| maven_toolbox::Parent { artifact_fqn }),
        artifact_fqn: fqn,
        dependency_management: managed.map(|entries| DependencyManagement {
            dependencies: dep_map(entries),
        }),
        dependencies: dep_map(deps),
        properties: PropertyMap::new(),
    }
}

/// A parser that serves hand-built descriptors, dispatching on the text
/// the echo fetcher handed through (the location string), counting its
/// calls.
struct TableParser {
    calls: Cell<usize>,
}

impl TableParser {
    fn new() -> Self {
        TableParser { calls: Cell::new(0) }
    }
}

impl PomParser for TableParser {
    fn parse(&self, input: String) -> Result<Project, ResolverError> {
        self.calls.set(self.calls.get() + 1);
        if input.contains("/smtp-tasks/") {
            return Ok(project(
                ArtifactFqn {
                    group_id: Some("com.walmartlabs.concord.plugins.basic".to_owned()),
                    artifact_id: Some("smtp-tasks".to_owned()),
                    version: Some("1.76.1".to_owned()),
                    packaging: None,
                    classifier: None,
                },
                Some(ArtifactFqn::pom(
                    "com.walmartlabs.concord.plugins.basic",
                    "parent",
                    "1.76.1",
                )),
                vec![dep("x", "y", None, None)],
                None,
            ));
        }
        if input.contains("/parent/") {
            return Ok(project(
                ArtifactFqn {
                    group_id: Some("com.walmartlabs.concord.plugins.basic".to_owned()),
                    artifact_id: Some("parent".to_owned()),
                    version: Some("1.76.1".to_owned()),
                    packaging: None,
                    classifier: None,
                },
                None,
                vec![dep("x", "y", Some("2.0"), None), dep("p", "q", Some("3.0"), None)],
                None,
            ));
        }
        Err(ResolverError::invalid_data("unknown document"))
    }
}

#[test]
fn test_fetch_project() {
    let root = ArtifactFqn::pom(
        "com.walmartlabs.concord.plugins.basic",
        "smtp-tasks",
        "1.76.1",
    );

    let mut resolver = Resolver::default();
    let url_fetcher = EchoFetcher::new();
    let pom_parser = TableParser::new();

    let project = resolver
        .fetch_project(&root, &url_fetcher, &pom_parser)
        .unwrap();

    assert!(project.parent.is_some());
    assert_eq!("pom", project.artifact_fqn.packaging.as_deref().unwrap());
    assert_eq!(1, resolver.project_cache.len());

    let parent = resolver
        .fetch_project(
            &project.parent.unwrap().artifact_fqn.with_packaging("pom"),
            &url_fetcher,
            &pom_parser,
        )
        .unwrap();

    assert_eq!("parent", parent.artifact_fqn.artifact_id.unwrap());
    assert_eq!(2, resolver.project_cache.len());
}

#[test]
fn test_build_effective_pom() {
    let root = ArtifactFqn::pom(
        "com.walmartlabs.concord.plugins.basic",
        "smtp-tasks",
        "1.76.1",
    );

    let mut resolver = Resolver::default();
    let url_fetcher = EchoFetcher::new();
    let pom_parser = TableParser::new();

    let effective = resolver
        .build_effective_pom(&root, &url_fetcher, &pom_parser)
        .unwrap();

    assert!(effective.parent.is_some());
    assert_eq!("pom", effective.artifact_fqn.packaging.as_deref().unwrap());

    // The child's own x:y entry is kept; the parent's p:q is merged in.
    let xy = effective
        .dependencies
        .get(&dep("x", "y", None, None).get_key())
        .unwrap()
        .clone();
    assert_eq!(Some("1.76.1"), xy.artifact_fqn.version.as_deref());
    let pq = effective
        .dependencies
        .get(&dep("p", "q", None, None).get_key())
        .unwrap()
        .clone();
    assert_eq!(Some("3.0"), pq.artifact_fqn.version.as_deref());
}

#[test]
fn fetch_project_caches_per_coordinate() {
    let root = ArtifactFqn::pom(
        "com.walmartlabs.concord.plugins.basic",
        "smtp-tasks",
        "1.76.1",
    );

    let mut resolver = Resolver::default();
    let url_fetcher = EchoFetcher::new();
    let pom_parser = TableParser::new();

    resolver
        .fetch_project(&root, &url_fetcher, &pom_parser)
        .unwrap();
    assert_eq!(1, url_fetcher.calls.get());
    assert_eq!(1, pom_parser.calls.get());
    assert_eq!(1, resolver.project_cache.len());

    // The same coordinate again: no new fetch/parse, no new cache entry.
    resolver
        .fetch_project(&root, &url_fetcher, &pom_parser)
        .unwrap();
    assert_eq!(1, url_fetcher.calls.get());
    assert_eq!(1, pom_parser.calls.get());
    assert_eq!(1, resolver.project_cache.len());

    // A jar request for the same artifact is the same descriptor
    // coordinate, so it is served from the cache too.
    let jar = root.with_packaging("jar");
    resolver
        .fetch_project(&jar, &url_fetcher, &pom_parser)
        .unwrap();
    assert_eq!(1, url_fetcher.calls.get());
    assert_eq!(1, resolver.project_cache.len());

    // A distinct coordinate grows the cache by exactly one.
    let parent = ArtifactFqn::pom("com.walmartlabs.concord.plugins.basic", "parent", "1.76.1");
    resolver
        .fetch_project(&parent, &url_fetcher, &pom_parser)
        .unwrap();
    assert_eq!(2, url_fetcher.calls.get());
    assert_eq!(2, resolver.project_cache.len());
}

#[test]
fn normalization_inherits_only_missing_fields() {
    let parent = ArtifactFqn::pom("a", "parent", "1.0");

    // No group/artifact/version of its own: all three come from the parent.
    let bare = Dependency {
        artifact_fqn: ArtifactFqn {
            group_id: None,
            artifact_id: None,
            version: None,
            packaging: None,
            classifier: None,
        },
        scope: None,
    };
    let n = bare.normalize(&parent, "jar");
    assert_eq!(Some("a"), n.artifact_fqn.group_id.as_deref());
    assert_eq!(Some("parent"), n.artifact_fqn.artifact_id.as_deref());
    assert_eq!(Some("1.0"), n.artifact_fqn.version.as_deref());
    assert_eq!(Some("jar"), n.artifact_fqn.packaging.as_deref());
    assert_eq!(Some("compile"), n.scope.as_deref());

    // An explicit version is never overwritten by the parent's.
    let versioned = dep("x", "y", Some("7.7"), Some("test"));
    let n2 = versioned.normalize(&parent, "jar");
    assert_eq!(Some("7.7"), n2.artifact_fqn.version.as_deref());
    assert_eq!(Some("x"), n2.artifact_fqn.group_id.as_deref());
    assert_eq!(Some("test"), n2.scope.as_deref());
}

#[test]
fn normalize_defaults_packaging() {
    let parent = ArtifactFqn::pom("g", "p", "2.0");
    let coordinate = ArtifactFqn {
        group_id: Some("g".to_owned()),
        artifact_id: Some("a".to_owned()),
        version: Some("1.0".to_owned()),
        packaging: None,
        classifier: None,
    };
    let n = coordinate.normalize(&parent, "jar");
    assert_eq!(Some("jar"), n.packaging.as_deref());

    let explicit = ArtifactFqn::new("g", "a", "1.0", "war", "");
    let n2 = explicit.normalize(&parent, "jar");
    assert_eq!(Some("war"), n2.packaging.as_deref());
}

#[test]
fn interpolate_substitutes_bound_placeholder() {
    let mut props = PropertyMap::new();
    props.insert("foo".to_owned(), "1.2.3".to_owned());

    let coordinate = ArtifactFqn {
        group_id: Some("g".to_owned()),
        artifact_id: Some("a".to_owned()),
        version: Some("${foo}".to_owned()),
        packaging: None,
        classifier: None,
    };
    let done = coordinate.interpolate(&props);
    assert_eq!(Some("1.2.3"), done.version.as_deref());
    assert_eq!(Some("g"), done.group_id.as_deref());

    // Placeholders inside a larger version string are replaced in place.
    let embedded = ArtifactFqn {
        version: Some("v${foo}-final".to_owned()),
        ..coordinate
    };
    let done2 = embedded.interpolate(&props);
    assert_eq!(Some("v1.2.3-final"), done2.version.as_deref());
}

#[test]
fn interpolate_leaves_plain_and_unbound_versions_alone() {
    let mut props = PropertyMap::new();
    props.insert("foo".to_owned(), "1.2.3".to_owned());

    let plain = ArtifactFqn::pom("g", "a", "9.9");
    assert_eq!(Some("9.9"), plain.interpolate(&props).version.as_deref());

    let unbound = ArtifactFqn {
        group_id: Some("g".to_owned()),
        artifact_id: Some("a".to_owned()),
        version: Some("${bar}".to_owned()),
        packaging: None,
        classifier: None,
    };
    assert_eq!(Some("${bar}"), unbound.interpolate(&props).version.as_deref());

    let malformed = ArtifactFqn {
        version: Some("${foo".to_owned()),
        ..unbound
    };
    assert_eq!(Some("${foo"), malformed.interpolate(&props).version.as_deref());
}

/// The P6-style scenario: the child declares x:y without a version, the
/// parent declares x:y:2.0 and p:q:3.0.  The child's entry wins for x:y
/// by key presence alone — its version comes from its own normalization
/// against the parent coordinate, never from the parent's x:y entry —
/// and p:q:3.0 is inherited unchanged.
struct ScenarioParser;

impl PomParser for ScenarioParser {
    fn parse(&self, input: String) -> Result<Project, ResolverError> {
        if input.contains("/child/") {
            return Ok(project(
                ArtifactFqn {
                    group_id: Some("a".to_owned()),
                    artifact_id: Some("child".to_owned()),
                    version: Some("1.0".to_owned()),
                    packaging: None,
                    classifier: None,
                },
                Some(ArtifactFqn::pom("a", "parent", "1.0")),
                vec![dep("x", "y", None, None)],
                None,
            ));
        }
        if input.contains("/parent/") {
            return Ok(project(
                ArtifactFqn {
                    group_id: Some("a".to_owned()),
                    artifact_id: Some("parent".to_owned()),
                    version: Some("1.0".to_owned()),
                    packaging: None,
                    classifier: None,
                },
                None,
                vec![dep("x", "y", Some("2.0"), None), dep("p", "q", Some("3.0"), None)],
                None,
            ));
        }
        Err(ResolverError::invalid_data("unknown document"))
    }
}

#[test]
fn child_dependency_wins_over_parent_entry() {
    let root = ArtifactFqn::pom("a", "child", "1.0");
    let mut resolver = Resolver::default();
    let url_fetcher = EchoFetcher::new();
    let pom_parser = ScenarioParser;

    let effective = resolver
        .build_effective_pom(&root, &url_fetcher, &pom_parser)
        .unwrap();

    let xy = effective
        .dependencies
        .get(&dep("x", "y", None, None).get_key())
        .unwrap()
        .clone();
    // The parent's x:y:2.0 never shows through.
    assert_ne!(Some("2.0"), xy.artifact_fqn.version.as_deref());
    assert_eq!(Some("1.0"), xy.artifact_fqn.version.as_deref());
    assert_eq!(Some("compile"), xy.scope.as_deref());

    let pq = effective
        .dependencies
        .get(&dep("p", "q", None, None).get_key())
        .unwrap()
        .clone();
    assert_eq!(Some("3.0"), pq.artifact_fqn.version.as_deref());
}

/// A root whose dependency-management block imports two BOMs; the BOMs
/// share one managed key, so the later import must win for it.
struct BomParser;

impl PomParser for BomParser {
    fn parse(&self, input: String) -> Result<Project, ResolverError> {
        if input.contains("/root/") {
            return Ok(project(
                ArtifactFqn {
                    group_id: Some("g".to_owned()),
                    artifact_id: Some("root".to_owned()),
                    version: Some("1.0".to_owned()),
                    packaging: None,
                    classifier: None,
                },
                None,
                vec![],
                Some(vec![
                    dep("boms", "alpha", Some("${project.version}"), Some("import")),
                    dep("boms", "beta", Some("1.0"), Some("import")),
                ]),
            ));
        }
        if input.contains("/alpha/") {
            return Ok(project(
                ArtifactFqn {
                    group_id: Some("boms".to_owned()),
                    artifact_id: Some("alpha".to_owned()),
                    version: Some("1.0".to_owned()),
                    packaging: None,
                    classifier: None,
                },
                None,
                vec![],
                Some(vec![
                    dep("m", "shared", Some("10"), None),
                    dep("m", "only-alpha", Some("11"), None),
                ]),
            ));
        }
        if input.contains("/beta/") {
            return Ok(project(
                ArtifactFqn {
                    group_id: Some("boms".to_owned()),
                    artifact_id: Some("beta".to_owned()),
                    version: Some("1.0".to_owned()),
                    packaging: None,
                    classifier: None,
                },
                None,
                vec![],
                Some(vec![dep("m", "shared", Some("20"), None)]),
            ));
        }
        Err(ResolverError::invalid_data("unknown document"))
    }
}

#[test]
fn bom_imports_fold_into_dependency_management() {
    let root = ArtifactFqn::pom("g", "root", "1.0");
    let mut resolver = Resolver::default();
    let url_fetcher = EchoFetcher::new();
    let pom_parser = BomParser;

    let effective = resolver
        .build_effective_pom(&root, &url_fetcher, &pom_parser)
        .unwrap();

    let dm = effective.dependency_management.unwrap();
    let shared = dm
        .dependencies
        .get(&dep("m", "shared", None, None).get_key())
        .unwrap()
        .clone();
    // The later BOM's entry overwrites the earlier one's.
    assert_eq!(Some("20"), shared.artifact_fqn.version.as_deref());

    let only_alpha = dm
        .dependencies
        .get(&dep("m", "only-alpha", None, None).get_key())
        .unwrap()
        .clone();
    assert_eq!(Some("11"), only_alpha.artifact_fqn.version.as_deref());

    // The interpolated import entry itself is still there, with the
    // project.version property substituted into its version.
    let alpha_ref = dm
        .dependencies
        .get(&dep("boms", "alpha", None, None).get_key())
        .unwrap()
        .clone();
    assert_eq!(Some("1.0"), alpha_ref.artifact_fqn.version.as_deref());
}

/// A descriptor that names itself as its parent.
struct CycleParser;

impl PomParser for CycleParser {
    fn parse(&self, input: String) -> Result<Project, ResolverError> {
        if input.contains("/loop/") {
            return Ok(project(
                ArtifactFqn {
                    group_id: Some("g".to_owned()),
                    artifact_id: Some("loop".to_owned()),
                    version: Some("1.0".to_owned()),
                    packaging: None,
                    classifier: None,
                },
                Some(ArtifactFqn::pom("g", "loop", "1.0")),
                vec![],
                None,
            ));
        }
        Err(ResolverError::invalid_data("unknown document"))
    }
}

#[test]
fn self_parent_fails_with_cycle_error() {
    let root = ArtifactFqn::pom("g", "loop", "1.0");
    let mut resolver = Resolver::default();
    let url_fetcher = EchoFetcher::new();
    let pom_parser = CycleParser;

    let err = resolver
        .build_effective_pom(&root, &url_fetcher, &pom_parser)
        .unwrap_err();
    assert!(err.msg.contains("cycle"));
}

#[test]
fn create_url_lays_out_the_repository_path() {
    let resolver = Resolver::default();

    let id = ArtifactFqn {
        group_id: Some("com.example".to_owned()),
        artifact_id: Some("lib".to_owned()),
        version: Some("1.0".to_owned()),
        packaging: Some("jar".to_owned()),
        classifier: None,
    };
    let url = resolver.create_url(&id).unwrap();
    assert_eq!(
        "https://repo.maven.apache.org/maven2/com/example/lib/1.0/lib-1.0.jar",
        url
    );

    let with_classifier = ArtifactFqn::new("com.example", "lib", "1.0", "jar", "sources");
    let url2 = resolver.create_url(&with_classifier).unwrap();
    assert_eq!(
        "https://repo.maven.apache.org/maven2/com/example/lib/1.0/lib-1.0-sources.jar",
        url2
    );
}

#[test]
fn create_url_names_the_first_missing_field() {
    let resolver = Resolver::default();

    let no_version = ArtifactFqn {
        group_id: Some("g".to_owned()),
        artifact_id: Some("a".to_owned()),
        version: None,
        packaging: Some("jar".to_owned()),
        classifier: None,
    };
    let err = resolver.create_url(&no_version).unwrap_err();
    assert_eq!("'version' is missing from g:a:?:jar:?", err.msg);

    let empty = ArtifactFqn {
        group_id: None,
        artifact_id: None,
        version: None,
        packaging: None,
        classifier: None,
    };
    let err2 = resolver.create_url(&empty).unwrap_err();
    assert_eq!("'groupId' is missing from ?:?:?:?:?", err2.msg);
}

#[test]
fn error_constructors_carry_their_messages() {
    let err = ResolverError::invalid_data("invalid XML content, no project tag");
    assert_eq!(
        "Invalid input data: invalid XML content, no project tag",
        err.msg
    );

    let fqn = ArtifactFqn::pom("g", "a", "1.0");
    let err2 = ResolverError::cant_resolve(&fqn, "boom");
    assert_eq!("Can't resolve g:a:1.0:pom:?: boom", err2.msg);
}

#[test]
fn display_strings_show_question_marks_for_missing_fields() {
    let fqn = ArtifactFqn::pom("g", "a", "1.0");
    assert_eq!("g:a:1.0:pom:?", fqn.to_display_string());

    let key = dep("g", "a", None, None).get_key();
    assert_eq!("g:a", key.to_display_string());

    let full = ArtifactFqn::new("g", "a", "1.0", "jar", "sources");
    assert_eq!("g:a:1.0:jar:sources", full.to_display_string());
}

#[test]
fn same_ga_compares_group_and_artifact_only() {
    let a = ArtifactFqn::pom("g", "a", "1.0");
    let b = ArtifactFqn::new("g", "a", "2.0", "jar", "sources");
    let c = ArtifactFqn::pom("g", "other", "1.0");
    assert!(a.same_ga(&b));
    assert!(!a.same_ga(&c));
}

#[test]
fn with_packaging_replaces_only_the_packaging() {
    let a = ArtifactFqn::new("g", "a", "1.0", "jar", "sources");
    let b = a.with_packaging("pom");
    assert_eq!(Some("pom"), b.packaging.as_deref());
    assert_eq!(Some("g"), b.group_id.as_deref());
    assert_eq!(Some("a"), b.artifact_id.as_deref());
    assert_eq!(Some("1.0"), b.version.as_deref());
    assert_eq!(Some("sources"), b.classifier.as_deref());
}

#[test]
fn incomplete_coordinates_are_rejected_before_any_fetch() {
    let mut resolver = Resolver::default();
    let url_fetcher = EchoFetcher::new();
    let pom_parser = TableParser::new();

    let no_version = ArtifactFqn {
        group_id: Some("g".to_owned()),
        artifact_id: Some("a".to_owned()),
        version: None,
        packaging: None,
        classifier: None,
    };

    let err = resolver
        .fetch_project(&no_version, &url_fetcher, &pom_parser)
        .unwrap_err();
    assert_eq!("'version' is missing from g:a:?:pom:?", err.msg);
    assert_eq!(0, url_fetcher.calls.get());
    assert_eq!(0, pom_parser.calls.get());
    assert_eq!(0, resolver.project_cache.len());

    let err2 = resolver
        .build_effective_pom(&no_version, &url_fetcher, &pom_parser)
        .unwrap_err();
    assert_eq!("'version' is missing from g:a:?:pom:?", err2.msg);
    assert_eq!(0, url_fetcher.calls.get());
}

#[test]
fn normalize_parsed_rederives_the_coordinate_and_dependencies() {
    let parsed = project(
        ArtifactFqn {
            group_id: None,
            artifact_id: Some("child".to_owned()),
            version: None,
            packaging: Some("jar".to_owned()),
            classifier: None,
        },
        Some(ArtifactFqn::pom("a", "parent", "1.0")),
        vec![dep("x", "y", None, None)],
        None,
    );

    let n = maven_toolbox::normalize_parsed(parsed);

    // Own coordinate: packaging re-derived as pom, group and version
    // inherited from the pom-forced parent.
    assert_eq!(Some("a"), n.artifact_fqn.group_id.as_deref());
    assert_eq!(Some("child"), n.artifact_fqn.artifact_id.as_deref());
    assert_eq!(Some("1.0"), n.artifact_fqn.version.as_deref());
    assert_eq!(Some("pom"), n.artifact_fqn.packaging.as_deref());

    // The parent reference now carries the pom-forced parent coordinate.
    let parent = n.parent.unwrap().artifact_fqn;
    assert_eq!(Some("pom"), parent.packaging.as_deref());

    // The dependency is normalized against the parent with default jar.
    let xy = n
        .dependencies
        .get(&dep("x", "y", None, None).get_key())
        .unwrap()
        .clone();
    assert_eq!(Some("1.0"), xy.artifact_fqn.version.as_deref());
    assert_eq!(Some("jar"), xy.artifact_fqn.packaging.as_deref());
    assert_eq!(Some("compile"), xy.scope.as_deref());
}
