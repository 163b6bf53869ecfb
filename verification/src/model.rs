//! The value types of the resolver: artifact coordinates, dependencies
//! and their keys, and the parent reference of a descriptor.

use vstd::prelude::*;
use vstd::string::StrSliceExecFns;
use vstd::string::StringExecFns;

use crate::maps::PropertyMap;
use crate::text;

verus! {

/// Ghost image of an `ArtifactFqn`: each field as an optional character
/// sequence.
pub struct FqnView {
    pub group_id: Option<Seq<char>>,
    pub artifact_id: Option<Seq<char>>,
    pub version: Option<Seq<char>>,
    pub packaging: Option<Seq<char>>,
    pub classifier: Option<Seq<char>>,
}

/// Ghost image of a `DependencyKey`.
pub struct KeyView {
    pub group_id: Option<Seq<char>>,
    pub artifact_id: Option<Seq<char>>,
}

/// Ghost image of a `Dependency`.
pub struct DepView {
    pub artifact_fqn: FqnView,
    pub scope: Option<Seq<char>>,
}

/// The view of an optional string.
pub open spec fn view_opt(o: Option<String>) -> Option<Seq<char>> {
    match o {
        Some(s) => Some(s@),
        None => None,
    }
}

/// `a` if present, else `b`.
pub open spec fn or_opt(a: Option<Seq<char>>, b: Option<Seq<char>>) -> Option<Seq<char>> {
    if a is Some {
        a
    } else {
        b
    }
}

/// The field, or `?` where it is absent.
pub open spec fn or_question(o: Option<Seq<char>>) -> Seq<char> {
    match o {
        Some(s) => s,
        None => "?"@,
    }
}

/// Coordinate normalization against a parent coordinate: group, artifact
/// and version are inherited where absent, packaging falls back to the
/// given default, and the classifier is never carried over — it is local
/// to an artifact and neither inherited nor kept through normalization.
pub open spec fn norm_fqn(f: FqnView, parent: FqnView, default_packaging: Seq<char>) -> FqnView {
    FqnView {
        group_id: or_opt(f.group_id, parent.group_id),
        artifact_id: or_opt(f.artifact_id, parent.artifact_id),
        version: or_opt(f.version, parent.version),
        packaging: if f.packaging is Some {
            f.packaging
        } else {
            Some(default_packaging)
        },
        classifier: None,
    }
}

/// The key (group and artifact) of a dependency.
pub open spec fn key_of(d: DepView) -> KeyView {
    KeyView { group_id: d.artifact_fqn.group_id, artifact_id: d.artifact_fqn.artifact_id }
}

/// Dependency normalization: the coordinate is normalized and the scope
/// falls back to `compile`.
pub open spec fn norm_dep(d: DepView, parent: FqnView, default_packaging: Seq<char>) -> DepView {
    DepView {
        artifact_fqn: norm_fqn(d.artifact_fqn, parent, default_packaging),
        scope: if d.scope is Some {
            d.scope
        } else {
            Some("compile"@)
        },
    }
}

/// The version field after property interpolation; other fields are
/// never interpolated.
pub open spec fn interp_opt(
    v: Option<Seq<char>>,
    props: Map<Seq<char>, Seq<char>>,
) -> Option<Seq<char>> {
    match v {
        Some(s) => Some(text::interpolated(s, props)),
        None => None,
    }
}

/// A coordinate after interpolation of its version field.
pub open spec fn interp_fqn(f: FqnView, props: Map<Seq<char>, Seq<char>>) -> FqnView {
    FqnView { version: interp_opt(f.version, props), ..f }
}

/// A dependency after interpolation of its coordinate.
pub open spec fn interp_dep(d: DepView, props: Map<Seq<char>, Seq<char>>) -> DepView {
    DepView { artifact_fqn: interp_fqn(d.artifact_fqn, props), ..d }
}

/// The display form of a coordinate: the five fields joined by `:`, with
/// `?` for an absent field.
pub open spec fn fqn_display(f: FqnView) -> Seq<char> {
    or_question(f.group_id) + ":"@ + or_question(f.artifact_id) + ":"@ + or_question(f.version)
        + ":"@ + or_question(f.packaging) + ":"@ + or_question(f.classifier)
}

/// The display form of a dependency key: group and artifact joined by
/// `:`, with `?` for an absent field.
pub open spec fn key_display(k: KeyView) -> Seq<char> {
    or_question(k.group_id) + ":"@ + or_question(k.artifact_id)
}

/// A copy of an optional string.
pub fn clone_opt(o: &Option<String>) -> (r: Option<String>)
    ensures
        r == *o,
{
    match o {
        Some(s) => Some(s.clone()),
        None => None,
    }
}

/// Whether two optional strings hold the same text.
pub fn opt_str_eq(a: &Option<String>, b: &Option<String>) -> (r: bool)
    ensures
        r == (view_opt(*a) == view_opt(*b)),
{
    match (a, b) {
        (Some(x), Some(y)) => text::str_eq(x.as_str(), y.as_str()),
        (None, None) => true,
        _ => false,
    }
}

/// Append the text of `o`, or `?` where it is absent.
fn append_or_question(out: &mut String, o: &Option<String>)
    ensures
        final(out)@ == old(out)@ + or_question(view_opt(*o)),
{
    match o {
        Some(s) => out.append(s.as_str()),
        None => out.append("?"),
    }
}

/// The five-field coordinate (group, artifact, version, packaging,
/// classifier) identifying an artifact; every field may be absent.
#[derive(Debug, Eq, Hash)]
pub struct ArtifactFqn {
    pub group_id: Option<String>,
    pub artifact_id: Option<String>,
    pub version: Option<String>,
    pub packaging: Option<String>,
    pub classifier: Option<String>,
}

impl View for ArtifactFqn {
    type V = FqnView;

    open spec fn view(&self) -> FqnView {
        FqnView {
            group_id: view_opt(self.group_id),
            artifact_id: view_opt(self.artifact_id),
            version: view_opt(self.version),
            packaging: view_opt(self.packaging),
            classifier: view_opt(self.classifier),
        }
    }
}

impl Clone for ArtifactFqn {
    /// A copy with the same fields.
    fn clone(&self) -> (r: Self)
        ensures
            r == *self,
    {
        ArtifactFqn {
            group_id: clone_opt(&self.group_id),
            artifact_id: clone_opt(&self.artifact_id),
            version: clone_opt(&self.version),
            packaging: clone_opt(&self.packaging),
            classifier: clone_opt(&self.classifier),
        }
    }
}

impl PartialEq for ArtifactFqn {
    /// Field-by-field equality of the five coordinates.
    fn eq(&self, other: &Self) -> (r: bool) {
        opt_str_eq(&self.group_id, &other.group_id) && opt_str_eq(
            &self.artifact_id,
            &other.artifact_id,
        ) && opt_str_eq(&self.version, &other.version) && opt_str_eq(
            &self.packaging,
            &other.packaging,
        ) && opt_str_eq(&self.classifier, &other.classifier)
    }
}

impl vstd::std_specs::cmp::PartialEqSpecImpl for ArtifactFqn {
    open spec fn obeys_eq_spec() -> bool {
        true
    }

    open spec fn eq_spec(&self, other: &Self) -> bool {
        self@ == other@
    }
}

impl Default for ArtifactFqn {
    /// A coordinate with every field absent.
    fn default() -> (r: Self)
        ensures
            r@ == (FqnView {
                group_id: None,
                artifact_id: None,
                version: None,
                packaging: None,
                classifier: None,
            }),
    {
        ArtifactFqn {
            group_id: None,
            artifact_id: None,
            version: None,
            packaging: None,
            classifier: None,
        }
    }
}

impl ArtifactFqn {
    /// A coordinate with all five fields given.
    pub fn new(
        group_id: &str,
        artifact_id: &str,
        version: &str,
        packaging: &str,
        classifier: &str,
    ) -> (r: Self)
        ensures
            r@ == (FqnView {
                group_id: Some(group_id@),
                artifact_id: Some(artifact_id@),
                version: Some(version@),
                packaging: Some(packaging@),
                classifier: Some(classifier@),
            }),
    {
        ArtifactFqn {
            group_id: Some(group_id.to_owned()),
            artifact_id: Some(artifact_id.to_owned()),
            version: Some(version.to_owned()),
            packaging: Some(packaging.to_owned()),
            classifier: Some(classifier.to_owned()),
        }
    }

    /// The coordinate of a descriptor document: packaging `pom`, no
    /// classifier.
    pub fn pom(group_id: &str, artifact_id: &str, version: &str) -> (r: Self)
        ensures
            r@ == (FqnView {
                group_id: Some(group_id@),
                artifact_id: Some(artifact_id@),
                version: Some(version@),
                packaging: Some("pom"@),
                classifier: None,
            }),
    {
        ArtifactFqn {
            group_id: Some(group_id.to_owned()),
            artifact_id: Some(artifact_id.to_owned()),
            version: Some(version.to_owned()),
            packaging: Some("pom".to_owned()),
            classifier: None,
        }
    }

    /// The same coordinate with the packaging replaced.
    pub fn with_packaging(&self, packaging: &str) -> (r: Self)
        ensures
            r@ == (FqnView { packaging: Some(packaging@), ..self@ }),
    {
        ArtifactFqn {
            group_id: clone_opt(&self.group_id),
            artifact_id: clone_opt(&self.artifact_id),
            version: clone_opt(&self.version),
            packaging: Some(packaging.to_owned()),
            classifier: clone_opt(&self.classifier),
        }
    }

    /// Whether two coordinates share group and artifact.
    pub fn same_ga(&self, other: &Self) -> (r: bool)
        ensures
            r == (self@.group_id == other@.group_id && self@.artifact_id == other@.artifact_id),
    {
        opt_str_eq(&self.group_id, &other.group_id) && opt_str_eq(
            &self.artifact_id,
            &other.artifact_id,
        )
    }

    /// Normalize against a parent coordinate: group, artifact and version
    /// are taken from `self` where present and inherited from `parent`
    /// otherwise; packaging falls back to `default_packaging`; the
    /// classifier is dropped.
    pub fn normalize(self, parent: &Self, default_packaging: &str) -> (r: Self)
        ensures
            r@ == norm_fqn(self@, parent@, default_packaging@),
    {
        ArtifactFqn {
            group_id: match self.group_id {
                Some(g) => Some(g),
                None => clone_opt(&parent.group_id),
            },
            artifact_id: match self.artifact_id {
                Some(a) => Some(a),
                None => clone_opt(&parent.artifact_id),
            },
            version: match self.version {
                Some(v) => Some(v),
                None => clone_opt(&parent.version),
            },
            packaging: match self.packaging {
                Some(p) => Some(p),
                None => Some(default_packaging.to_owned()),
            },
            classifier: None,
        }
    }

    /// Interpolate the version field against a property table: a single
    /// `${name}` placeholder, first occurrence only, is replaced by the
    /// bound value; a malformed placeholder or an unbound name leaves the
    /// version unchanged; all other fields pass through.
    pub fn interpolate(&self, properties: &PropertyMap) -> (r: Self)
        ensures
            r@ == interp_fqn(self@, properties@),
    {
        ArtifactFqn {
            group_id: clone_opt(&self.group_id),
            artifact_id: clone_opt(&self.artifact_id),
            version: match &self.version {
                Some(v) => Some(interpolate_str(v.as_str(), properties)),
                None => None,
            },
            packaging: clone_opt(&self.packaging),
            classifier: clone_opt(&self.classifier),
        }
    }

    /// The display form `group:artifact:version:packaging:classifier`,
    /// with `?` for each absent field.
    pub fn to_display_string(&self) -> (r: String)
        ensures
            r@ == fqn_display(self@),
    {
        let mut out = String::new();
        append_or_question(&mut out, &self.group_id);
        out.append(":");
        append_or_question(&mut out, &self.artifact_id);
        out.append(":");
        append_or_question(&mut out, &self.version);
        out.append(":");
        append_or_question(&mut out, &self.packaging);
        out.append(":");
        append_or_question(&mut out, &self.classifier);
        out
    }
}

/// One `${name}` substitution on `v`, per `crate::text::interpolated`.
fn interpolate_str(v: &str, properties: &PropertyMap) -> (r: String)
    ensures
        r@ == text::interpolated(v@, properties@),
{
    let n = v.unicode_len();
    proof {
        text::lemma_find_marker_bounds(v@, 0);
    }
    let st = match text::find_marker(v) {
        Some(st) => st,
        None => {
            return v.to_owned();
        },
    };
    proof {
        text::lemma_find_close_bounds(v@, st + 2);
    }
    let en = match text::find_close(v, st + 2) {
        Some(en) => en,
        None => {
            return v.to_owned();
        },
    };
    let key = v.substring_char(st + 2, en);
    let value = match properties.get(key) {
        Some(value) => value,
        None => {
            return v.to_owned();
        },
    };
    let mut out = v.substring_char(0, st).to_owned();
    out.append(value.as_str());
    out.append(v.substring_char(en + 1, n));
    proof {
        assert(out@ =~= text::interpolated(v@, properties@));
    }
    out
}

/// The group/artifact pair that identifies a dependency slot, whatever
/// its version.
#[derive(Debug, Eq, Hash)]
pub struct DependencyKey {
    pub group_id: Option<String>,
    pub artifact_id: Option<String>,
}

impl View for DependencyKey {
    type V = KeyView;

    open spec fn view(&self) -> KeyView {
        KeyView { group_id: view_opt(self.group_id), artifact_id: view_opt(self.artifact_id) }
    }
}

impl Clone for DependencyKey {
    /// A copy with the same fields.
    fn clone(&self) -> (r: Self)
        ensures
            r == *self,
    {
        DependencyKey {
            group_id: clone_opt(&self.group_id),
            artifact_id: clone_opt(&self.artifact_id),
        }
    }
}

impl PartialEq for DependencyKey {
    /// Field-by-field equality of group and artifact.
    fn eq(&self, other: &Self) -> (r: bool) {
        opt_str_eq(&self.group_id, &other.group_id) && opt_str_eq(
            &self.artifact_id,
            &other.artifact_id,
        )
    }
}

impl vstd::std_specs::cmp::PartialEqSpecImpl for DependencyKey {
    open spec fn obeys_eq_spec() -> bool {
        true
    }

    open spec fn eq_spec(&self, other: &Self) -> bool {
        self@ == other@
    }
}

impl DependencyKey {
    /// The display form `group:artifact`, with `?` for each absent field.
    pub fn to_display_string(&self) -> (r: String)
        ensures
            r@ == key_display(self@),
    {
        let mut out = String::new();
        append_or_question(&mut out, &self.group_id);
        out.append(":");
        append_or_question(&mut out, &self.artifact_id);
        out
    }
}

/// A declared dependency: a coordinate plus an optional scope.
#[derive(Debug)]
pub struct Dependency {
    pub artifact_fqn: ArtifactFqn,
    pub scope: Option<String>,
}

impl View for Dependency {
    type V = DepView;

    open spec fn view(&self) -> DepView {
        DepView { artifact_fqn: self.artifact_fqn@, scope: view_opt(self.scope) }
    }
}

impl Clone for Dependency {
    /// A copy with the same fields.
    fn clone(&self) -> (r: Self)
        ensures
            r == *self,
    {
        Dependency { artifact_fqn: self.artifact_fqn.clone(), scope: clone_opt(&self.scope) }
    }
}

impl Dependency {
    /// The group/artifact key under which this dependency is filed.
    pub fn get_key(&self) -> (r: DependencyKey)
        ensures
            r@ == key_of(self@),
    {
        DependencyKey {
            group_id: clone_opt(&self.artifact_fqn.group_id),
            artifact_id: clone_opt(&self.artifact_fqn.artifact_id),
        }
    }

    /// The same dependency with its coordinate's version interpolated
    /// against a property table.
    pub fn interpolate_fqn(&self, properties: &PropertyMap) -> (r: Self)
        ensures
            r@ == interp_dep(self@, properties@),
    {
        Dependency {
            artifact_fqn: self.artifact_fqn.interpolate(properties),
            scope: clone_opt(&self.scope),
        }
    }

    /// Normalize the coordinate against a parent and default the scope
    /// to `compile`.
    pub fn normalize(self, parent_id: &ArtifactFqn, default_packaging: &str) -> (r: Self)
        ensures
            r@ == norm_dep(self@, parent_id@, default_packaging@),
    {
        Dependency {
            artifact_fqn: self.artifact_fqn.normalize(parent_id, default_packaging),
            scope: match self.scope {
                Some(s) => Some(s),
                None => Some("compile".to_owned()),
            },
        }
    }
}

/// The parent reference of a descriptor.
#[derive(Debug)]
pub struct Parent {
    pub artifact_fqn: ArtifactFqn,
}

impl View for Parent {
    type V = FqnView;

    open spec fn view(&self) -> FqnView {
        self.artifact_fqn@
    }
}

impl Clone for Parent {
    /// A copy with the same coordinate.
    fn clone(&self) -> (r: Self)
        ensures
            r == *self,
    {
        Parent { artifact_fqn: self.artifact_fqn.clone() }
    }
}

/// Normalization inherits exactly the absent fields: an absent group,
/// artifact or version is taken from the parent, a present one is never
/// overwritten, and an absent packaging falls back to the default.
pub proof fn lemma_normalize_inheritance(f: FqnView, parent: FqnView, dp: Seq<char>)
    ensures
        f.group_id is None ==> norm_fqn(f, parent, dp).group_id == parent.group_id,
        f.artifact_id is None ==> norm_fqn(f, parent, dp).artifact_id == parent.artifact_id,
        f.version is None ==> norm_fqn(f, parent, dp).version == parent.version,
        f.group_id is Some ==> norm_fqn(f, parent, dp).group_id == f.group_id,
        f.artifact_id is Some ==> norm_fqn(f, parent, dp).artifact_id == f.artifact_id,
        f.version is Some ==> norm_fqn(f, parent, dp).version == f.version,
        f.packaging is None ==> norm_fqn(f, parent, dp).packaging == Some(dp),
        f.packaging is Some ==> norm_fqn(f, parent, dp).packaging == f.packaging,
{
}

} // verus!
