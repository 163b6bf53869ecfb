//! The resolution engine: a repository location rule, a session-scoped
//! descriptor cache keyed by normalized coordinate, the single-descriptor
//! fetch-and-normalize step, and the recursive parent/BOM merge that
//! yields an effective descriptor.

use vstd::prelude::*;
use vstd::string::StringExecFns;

use crate::deps::{normalize_gavs, normalized_from};
use crate::errors::{missing_parameter_msg, ErrorKind, ResolverError};
use crate::maps::{lemma_map_of_contains, lemma_map_of_index, lemma_map_of_len, lemma_map_of_push,
    lemma_map_of_remove, map_of, unique_keys};
use crate::model::{norm_fqn, ArtifactFqn, FqnView, Parent};
use crate::project::{DependencyManagement, Project, ProjectView};
use crate::text;

verus! {

/// A coordinate with its packaging forced to `pom`: descriptors are
/// always POM documents, whatever the requested artifact's packaging.
pub open spec fn pom_fqn(f: FqnView) -> FqnView {
    FqnView { packaging: Some("pom"@), ..f }
}

/// The deterministic repository location of a fully-given coordinate:
/// the dotted group as a path, then artifact and version directories,
/// then `artifact-version[-classifier].packaging`.
pub open spec fn url_of(base: Seq<char>, f: FqnView) -> Seq<char>
    recommends
        f.group_id is Some,
        f.artifact_id is Some,
        f.version is Some,
        f.packaging is Some,
{
    base + "/"@ + text::dots_to_slashes(f.group_id->0) + "/"@ + f.artifact_id->0 + "/"@
        + f.version->0 + "/"@ + f.artifact_id->0 + "-"@ + f.version->0 + (match f.classifier {
        Some(c) => "-"@ + c,
        None => Seq::<char>::empty(),
    }) + "."@ + f.packaging->0
}

/// The first absent field a location string needs, checked in the order
/// group, artifact, version, packaging; the classifier is optional.
pub open spec fn first_missing(f: FqnView) -> Option<Seq<char>> {
    if f.group_id is None {
        Some("groupId"@)
    } else if f.artifact_id is None {
        Some("artifactId"@)
    } else if f.version is None {
        Some("version"@)
    } else if f.packaging is None {
        Some("packaging"@)
    } else {
        None
    }
}

/// The views of a sequence of coordinate/descriptor pairs.
pub open spec fn cache_pairs(entries: Seq<(ArtifactFqn, Project)>) -> Seq<(FqnView, ProjectView)> {
    entries.map(|i: int, p: (ArtifactFqn, Project)| (p.0@, p.1@))
}

/// The session cache: each descriptor seen so far, filed under its
/// normalized coordinate; it only ever grows.
pub struct ProjectCache {
    entries: Vec<(ArtifactFqn, Project)>,
}

impl View for ProjectCache {
    type V = Map<FqnView, ProjectView>;

    closed spec fn view(&self) -> Map<FqnView, ProjectView> {
        map_of(cache_pairs(self.entries@))
    }
}

impl ProjectCache {
    #[verifier::type_invariant]
    spec fn wf(self) -> bool {
        unique_keys(cache_pairs(self.entries@))
    }

    /// An empty cache.
    pub fn new() -> (m: Self)
        ensures
            m@ == Map::<FqnView, ProjectView>::empty(),
    {
        let m = ProjectCache { entries: Vec::new() };
        proof {
            assert(cache_pairs(m.entries@) =~= Seq::<(FqnView, ProjectView)>::empty());
        }
        m
    }

    /// How many descriptors are cached.
    pub fn len(&self) -> (n: usize)
        ensures
            n == self@.len(),
    {
        proof {
            use_type_invariant(&*self);
            lemma_map_of_len(cache_pairs(self.entries@));
        }
        self.entries.len()
    }

    /// The index of the entry filed under `key`, if any.
    fn find_index(&self, key: &ArtifactFqn) -> (r: Option<usize>)
        ensures
            match r {
                Some(i) => i < self.entries@.len() && self.entries@[i as int].0@ == key@,
                None => forall|j: int|
                    0 <= j < self.entries@.len() ==> (#[trigger] self.entries@[j]).0@ != key@,
            },
    {
        let n = self.entries.len();
        let mut i: usize = 0;
        while i < n
            invariant
                i <= n,
                n == self.entries@.len(),
                forall|j: int| 0 <= j < i ==> (#[trigger] self.entries@[j]).0@ != key@,
            decreases n - i,
        {
            if self.entries[i].0 == *key {
                return Some(i);
            }
            i = i + 1;
        }
        None
    }

    /// The cached descriptor for `key`, if any.
    pub fn get(&self, key: &ArtifactFqn) -> (r: Option<&Project>)
        ensures
            match r {
                Some(p) => self@.contains_key(key@) && p@ == self@[key@],
                None => !self@.contains_key(key@),
            },
    {
        proof {
            use_type_invariant(&*self);
        }
        let r = self.find_index(key);
        proof {
            lemma_map_of_contains(cache_pairs(self.entries@), key@);
            if let Some(i) = r {
                assert(cache_pairs(self.entries@)[i as int].0 == key@);
                lemma_map_of_index(cache_pairs(self.entries@), i as int);
            } else {
                assert forall|j: int| 0 <= j < cache_pairs(self.entries@).len() implies (#[trigger]
                cache_pairs(self.entries@)[j]).0 != key@ by {
                    assert(self.entries@[j].0@ != key@);
                }
            }
        }
        match r {
            Some(i) => Some(&self.entries[i].1),
            None => None,
        }
    }

    /// File `value` under `key`, replacing any earlier entry.
    pub fn insert(&mut self, key: ArtifactFqn, value: Project)
        ensures
            final(self)@ == old(self)@.insert(key@, value@),
    {
        proof {
            use_type_invariant(&*self);
        }
        let ghost s0 = cache_pairs(self.entries@);
        let idx = self.find_index(&key);
        let mut entries: Vec<(ArtifactFqn, Project)> = Vec::new();
        std::mem::swap(&mut entries, &mut self.entries);
        if let Some(i) = idx {
            let _replaced = entries.remove(i);
            proof {
                assert(cache_pairs(entries@) =~= s0.remove(i as int));
                lemma_map_of_remove(s0, i as int);
                assert(forall|j: int|
                    0 <= j < s0.remove(i as int).len() ==> (#[trigger] s0.remove(i as int)[j]).0
                        != key@);
            }
        }
        let ghost s1 = cache_pairs(entries@);
        entries.push((key, value));
        proof {
            assert(cache_pairs(entries@) =~= s1.push((key@, value@)));
            lemma_map_of_push(s1, key@, value@);
            assert(map_of(cache_pairs(entries@)) =~= map_of(s0).insert(key@, value@));
        }
        self.entries = entries;
    }
}

/// The repository a resolver fetches from.
pub struct Repository {
    pub base_url: String,
}

/// The fetch capability: given a location string, the raw document text,
/// or a failure.  Nothing further is promised of it.
pub trait UrlFetcher {
    fn fetch(&self, url: &str) -> Result<String, ResolverError>;
}

/// The parse capability: given raw document text, a descriptor, or a
/// failure.  Nothing further is promised of it.
pub trait PomParser {
    fn parse(&self, input: String) -> Result<Project, ResolverError>;
}

/// How many levels of parents and BOM imports one resolution will walk
/// before giving up.
pub const MAX_RESOLUTION_DEPTH: u32 = 64;

/// The resolution engine: a repository and a session cache.
pub struct Resolver {
    pub repository: Repository,
    pub project_cache: ProjectCache,
}

impl Default for Resolver {
    /// A resolver over the central repository, with an empty cache.
    fn default() -> (r: Self)
        ensures
            r.repository.base_url@ == "https://repo.maven.apache.org/maven2"@,
            r.project_cache@ == Map::<FqnView, ProjectView>::empty(),
            r.wf(),
    {
        Resolver {
            repository: Repository { base_url: "https://repo.maven.apache.org/maven2".to_owned() },
            project_cache: ProjectCache::new(),
        }
    }
}

/// The own coordinate a parsed descriptor resolves to: packaging forced
/// to `pom`, then normalized against the pom-forced parent where one is
/// declared.
pub open spec fn parsed_own_fqn(q: ProjectView) -> FqnView {
    match q.parent {
        Some(par) => norm_fqn(pom_fqn(q.artifact_fqn), pom_fqn(par), "pom"@),
        None => pom_fqn(q.artifact_fqn),
    }
}

/// Per-coordinate normalization of a freshly parsed descriptor, applied
/// exactly once, before caching: the descriptor's own coordinate is
/// re-derived with packaging `pom`; where a parent is declared, the own
/// coordinate is normalized against the pom-forced parent, every direct
/// dependency and every dependency-management entry is normalized
/// against it with default packaging `jar`, and the stored parent
/// reference is updated to the pom-forced parent coordinate.  The
/// property table passes through untouched.
pub fn normalize_parsed(project: Project) -> (r: Project)
    ensures
        r@.artifact_fqn == parsed_own_fqn(project@),
        r@.properties == project@.properties,
        project@.parent is None ==> r@.parent is None && r@.dependencies == project@.dependencies
            && r@.dependency_management == project@.dependency_management,
        project@.parent is Some ==> {
            &&& r@.parent == Some(pom_fqn(project@.parent->0))
            &&& normalized_from(
                r@.dependencies,
                project@.dependencies,
                pom_fqn(project@.parent->0),
                "jar"@,
            )
            &&& (project@.dependency_management is None <==> r@.dependency_management is None)
            &&& (project@.dependency_management is Some ==> normalized_from(
                r@.dependency_management->0,
                project@.dependency_management->0,
                pom_fqn(project@.parent->0),
                "jar"@,
            ))
        },
{
    let mut project = project;
    let mut new_id = project.artifact_fqn.with_packaging("pom");
    let parent_fqn_opt = match &project.parent {
        Some(par) => Some(par.artifact_fqn.with_packaging("pom")),
        None => None,
    };
    if let Some(parent_fqn) = parent_fqn_opt {
        new_id = new_id.normalize(&parent_fqn, "pom");
        let deps = project.dependencies;
        project.dependencies = normalize_gavs(deps, &parent_fqn, "jar");
        let dm_opt = project.dependency_management;
        project.dependency_management = match dm_opt {
            Some(dm) => Some(
                DependencyManagement {
                    dependencies: normalize_gavs(dm.dependencies, &parent_fqn, "jar"),
                },
            ),
            None => None,
        };
        project.parent = Some(Parent { artifact_fqn: parent_fqn });
    }
    project.artifact_fqn = new_id;
    project
}

/// Whether the coordinate is already on the resolution stack.
fn contains_fqn(list: &Vec<ArtifactFqn>, fqn: &ArtifactFqn) -> (r: bool)
    ensures
        r == (exists|i: int| 0 <= i < list@.len() && (#[trigger] list@[i])@ == fqn@),
{
    let n = list.len();
    let mut i: usize = 0;
    while i < n
        invariant
            i <= n,
            n == list@.len(),
            forall|j: int| 0 <= j < i ==> (#[trigger] list@[j])@ != fqn@,
        decreases n - i,
    {
        if list[i] == *fqn {
            return true;
        }
        i = i + 1;
    }
    false
}

impl Resolver {
    /// Every cached descriptor is filed under its own coordinate, and
    /// every cache key has packaging `pom`.
    pub open spec fn wf(&self) -> bool {
        forall|k: FqnView|
            (#[trigger] self.project_cache@.contains_key(k)) ==> self.project_cache@[k].artifact_fqn
                == k && k.packaging == Some("pom"@)
    }

    /// The repository location of `id`, or a missing-parameter failure
    /// naming the first absent required field.
    pub fn create_url(&self, id: &ArtifactFqn) -> (r: Result<String, ResolverError>)
        ensures
            match r {
                Ok(u) => first_missing(id@) is None && u@ == url_of(self.repository.base_url@, id@),
                Err(e) => first_missing(id@) is Some && e.kind == ErrorKind::ClientError && e.msg@
                    == missing_parameter_msg(id@, first_missing(id@)->0),
            },
    {
        let group_id = match &id.group_id {
            Some(g) => g,
            None => {
                return Err(ResolverError::missing_parameter(id, "groupId"));
            },
        };
        let artifact_id = match &id.artifact_id {
            Some(a) => a,
            None => {
                return Err(ResolverError::missing_parameter(id, "artifactId"));
            },
        };
        let version = match &id.version {
            Some(v) => v,
            None => {
                return Err(ResolverError::missing_parameter(id, "version"));
            },
        };
        let packaging = match &id.packaging {
            Some(p) => p,
            None => {
                return Err(ResolverError::missing_parameter(id, "packaging"));
            },
        };
        let mut url = self.repository.base_url.clone();
        url.append("/");
        let group_path = text::slashed(group_id.as_str());
        url.append(group_path.as_str());
        url.append("/");
        url.append(artifact_id.as_str());
        url.append("/");
        url.append(version.as_str());
        url.append("/");
        url.append(artifact_id.as_str());
        url.append("-");
        url.append(version.as_str());
        if let Some(classifier) = &id.classifier {
            url.append("-");
            url.append(classifier.as_str());
        }
        url.append(".");
        url.append(packaging.as_str());
        proof {
            assert(url@ =~= url_of(self.repository.base_url@, id@));
        }
        Ok(url)
    }

    /// Fetch and normalize the descriptor of one coordinate.
    ///
    /// The requested packaging is forced to `pom`.  A cache hit returns a
    /// copy of the cached descriptor and touches nothing.  On a miss, the
    /// document is fetched and parsed, the descriptor's own coordinate
    /// and its dependencies are normalized against its declared parent
    /// (defaults `pom` for the descriptor itself and `jar` for
    /// dependencies), and the result is cached under the coordinate so
    /// derived before a copy is returned.  Any fetch or parse failure is
    /// surfaced unchanged and leaves the cache as it was.
    pub fn fetch_project<UF: UrlFetcher, P: PomParser>(
        &mut self,
        project_id: &ArtifactFqn,
        url_fetcher: &UF,
        pom_parser: &P,
    ) -> (r: Result<Project, ResolverError>)
        requires
            old(self).wf(),
        ensures
            final(self).wf(),
            final(self).repository == old(self).repository,
            forall|k: FqnView|
                (#[trigger] old(self).project_cache@.contains_key(k))
                    ==> final(self).project_cache@.contains_key(k),
            old(self).project_cache@.contains_key(pom_fqn(project_id@)) ==> r is Ok,
            (!old(self).project_cache@.contains_key(pom_fqn(project_id@)) && first_missing(
                pom_fqn(project_id@),
            ) is Some) ==> match r {
                Ok(_) => false,
                Err(e) => e.kind == ErrorKind::ClientError && e.msg@ == missing_parameter_msg(
                    pom_fqn(project_id@),
                    first_missing(pom_fqn(project_id@))->0,
                ),
            },
            match r {
                Ok(p) => {
                    &&& p@.artifact_fqn.packaging == Some("pom"@)
                    &&& final(self).project_cache@.contains_key(p@.artifact_fqn)
                    &&& final(self).project_cache@[p@.artifact_fqn] == p@
                    &&& (old(self).project_cache@.contains_key(pom_fqn(project_id@)) ==> {
                        &&& final(self).project_cache@ == old(self).project_cache@
                        &&& p@ == old(self).project_cache@[pom_fqn(project_id@)]
                        &&& p@.artifact_fqn == pom_fqn(project_id@)
                    })
                    &&& (!old(self).project_cache@.contains_key(pom_fqn(project_id@))
                        ==> final(self).project_cache@ == old(self).project_cache@.insert(
                        p@.artifact_fqn,
                        p@,
                    ))
                },
                Err(_) => final(self).project_cache@ == old(self).project_cache@,
            },
    {
        let pid = project_id.with_packaging("pom");
        let cached = match self.project_cache.get(&pid) {
            Some(cached_project) => Some(cached_project.clone()),
            None => None,
        };
        if let Some(cached_project) = cached {
            return Ok(cached_project);
        }
        let url = match self.create_url(&pid) {
            Ok(u) => u,
            Err(e) => {
                return Err(e);
            },
        };
        let text = match url_fetcher.fetch(url.as_str()) {
            Ok(t) => t,
            Err(e) => {
                return Err(e);
            },
        };
        let parsed = match pom_parser.parse(text) {
            Ok(p) => p,
            Err(e) => {
                return Err(e);
            },
        };
        let project = normalize_parsed(parsed);
        proof {
            assert(project.artifact_fqn@.packaging == Some("pom"@));
        }
        let new_id = project.artifact_fqn.clone();
        self.project_cache.insert(new_id, project.clone());
        Ok(project)
    }

    /// Build the effective descriptor of `project_id`: the descriptor
    /// itself, the direct dependencies of its whole parent chain merged
    /// in (entries the child declares always win), and its
    /// dependency-management block interpolated and unioned with the
    /// blocks of every imported BOM (later BOM entries win).
    ///
    /// A coordinate met again while it is still being resolved fails
    /// with a cycle error, and a chain deeper than
    /// `MAX_RESOLUTION_DEPTH` with a depth error; any fetch or parse
    /// failure anywhere in the recursion aborts the whole call.
    pub fn build_effective_pom<UF: UrlFetcher, P: PomParser>(
        &mut self,
        project_id: &ArtifactFqn,
        url_fetcher: &UF,
        pom_parser: &P,
    ) -> (r: Result<Project, ResolverError>)
        requires
            old(self).wf(),
        ensures
            final(self).wf(),
            final(self).repository == old(self).repository,
            forall|k: FqnView|
                (#[trigger] old(self).project_cache@.contains_key(k))
                    ==> final(self).project_cache@.contains_key(k),
            (!old(self).project_cache@.contains_key(pom_fqn(project_id@)) && first_missing(
                pom_fqn(project_id@),
            ) is Some) ==> match r {
                Ok(_) => false,
                Err(e) => e.kind == ErrorKind::ClientError && e.msg@ == missing_parameter_msg(
                    pom_fqn(project_id@),
                    first_missing(pom_fqn(project_id@))->0,
                ),
            },
            (old(self).project_cache@.contains_key(pom_fqn(project_id@)) && old(
                self,
            ).project_cache@[pom_fqn(project_id@)].parent is None && old(
                self,
            ).project_cache@[pom_fqn(project_id@)].dependency_management is None) ==> r is Ok,
            match r {
                Ok(p) => {
                    &&& p@.artifact_fqn.packaging == Some("pom"@)
                    &&& final(self).project_cache@.contains_key(p@.artifact_fqn)
                    &&& (project_id@.version is Some ==> p@.properties.contains_key(
                        "project.version"@,
                    ) && p@.properties["project.version"@] == project_id@.version->0)
                },
                Err(_) => true,
            },
    {
        let mut in_progress: Vec<ArtifactFqn> = Vec::new();
        self.build_effective_pom_rec(
            project_id,
            url_fetcher,
            pom_parser,
            &mut in_progress,
            MAX_RESOLUTION_DEPTH,
        )
    }

    fn build_effective_pom_rec<UF: UrlFetcher, P: PomParser>(
        &mut self,
        project_id: &ArtifactFqn,
        url_fetcher: &UF,
        pom_parser: &P,
        in_progress: &mut Vec<ArtifactFqn>,
        fuel: u32,
    ) -> (r: Result<Project, ResolverError>)
        requires
            old(self).wf(),
        ensures
            final(self).wf(),
            final(self).repository == old(self).repository,
            forall|k: FqnView|
                (#[trigger] old(self).project_cache@.contains_key(k))
                    ==> final(self).project_cache@.contains_key(k),
            r is Ok ==> final(in_progress)@ == old(in_progress)@,
            (old(in_progress)@.len() == 0 && fuel > 0 && !old(self).project_cache@.contains_key(
                pom_fqn(project_id@),
            ) && first_missing(pom_fqn(project_id@)) is Some) ==> match r {
                Ok(_) => false,
                Err(e) => e.kind == ErrorKind::ClientError && e.msg@ == missing_parameter_msg(
                    pom_fqn(project_id@),
                    first_missing(pom_fqn(project_id@))->0,
                ),
            },
            (old(in_progress)@.len() == 0 && fuel > 0 && old(self).project_cache@.contains_key(
                pom_fqn(project_id@),
            ) && old(self).project_cache@[pom_fqn(project_id@)].parent is None && old(
                self,
            ).project_cache@[pom_fqn(project_id@)].dependency_management is None) ==> r is Ok,
            match r {
                Ok(p) => {
                    &&& p@.artifact_fqn.packaging == Some("pom"@)
                    &&& final(self).project_cache@.contains_key(p@.artifact_fqn)
                    &&& (project_id@.version is Some ==> p@.properties.contains_key(
                        "project.version"@,
                    ) && p@.properties["project.version"@] == project_id@.version->0)
                },
                Err(_) => true,
            },
        decreases fuel,
    {
        let pid = project_id.with_packaging("pom");
        if contains_fqn(in_progress, &pid) {
            return Err(ResolverError::cant_resolve(&pid, "dependency cycle detected"));
        }
        if fuel == 0 {
            return Err(ResolverError::cant_resolve(&pid, "resolution depth limit exceeded"));
        }
        let mut project = match self.fetch_project(&pid, url_fetcher, pom_parser) {
            Ok(p) => p,
            Err(e) => {
                return Err(e);
            },
        };
        let ghost fetched = project@;
        if let Some(version) = &pid.version {
            project.properties.insert("project.version".to_owned(), version.clone());
        }
        in_progress.push(pid);
        let ghost stacked = in_progress@;

        // Parent merge: the parent's own effective descriptor is built
        // first, then its dependencies fill only the keys the child
        // leaves open.
        let parent_fqn_opt = match &project.parent {
            Some(par) => Some(par.artifact_fqn.clone()),
            None => None,
        };
        if let Some(parent_fqn) = parent_fqn_opt {
            let parent_project = match self.build_effective_pom_rec(
                &parent_fqn,
                url_fetcher,
                pom_parser,
                in_progress,
                fuel - 1,
            ) {
                Ok(p) => p,
                Err(e) => {
                    return Err(e);
                },
            };
            project.dependencies.merge_missing(&parent_project.dependencies);
        }

        // BOM merge: managed entries are interpolated, every
        // `import`-scoped entry is resolved as a BOM of its own, and the
        // BOMs' managed entries are folded in, later ones winning.
        let dm_opt = project.dependency_management;
        project.dependency_management = None;
        if let Some(mut dm) = dm_opt {
            proof {
                assert(fetched.dependency_management is Some);
            }
            dm.dependencies.interpolate_versions(&project.properties);
            let boms = dm.dependencies.imports();
            let nb = boms.len();
            let mut bi: usize = 0;
            while bi < nb
                invariant
                    bi <= nb,
                    nb == boms@.len(),
                    fuel >= 1,
                    fetched.dependency_management is Some,
                    self.project_cache@.contains_key(fetched.artifact_fqn),
                    old(self).project_cache@.contains_key(pom_fqn(project_id@)) ==> fetched == old(
                        self,
                    ).project_cache@[pom_fqn(project_id@)],
                    !(!old(self).project_cache@.contains_key(pom_fqn(project_id@))
                        && first_missing(pom_fqn(project_id@)) is Some),
                    self.wf(),
                    self.repository == old(self).repository,
                    forall|k: FqnView|
                        (#[trigger] old(self).project_cache@.contains_key(k))
                            ==> self.project_cache@.contains_key(k),
                    in_progress@ == stacked,
                decreases nb - bi,
            {
                let bom_fqn = boms[bi].artifact_fqn.clone();
                let bom_project = match self.build_effective_pom_rec(
                    &bom_fqn,
                    url_fetcher,
                    pom_parser,
                    in_progress,
                    fuel - 1,
                ) {
                    Ok(p) => p,
                    Err(e) => {
                        return Err(e);
                    },
                };
                if let Some(bom_dm) = bom_project.dependency_management {
                    dm.dependencies.extend_override(&bom_dm.dependencies);
                }
                bi = bi + 1;
            }
            project.dependency_management = Some(dm);
        }
        let _popped = in_progress.pop();
        proof {
            assert(in_progress@ =~= old(in_progress)@);
        }
        Ok(project)
    }
}

} // verus!
