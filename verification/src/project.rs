//! The parsed descriptor of one artifact: its own coordinate, an
//! optional parent reference, an optional dependency-management block,
//! its direct dependencies, and a property table.

use vstd::prelude::*;

use crate::deps::DependencyMap;
use crate::maps::PropertyMap;
use crate::model::{ArtifactFqn, DepView, FqnView, KeyView, Parent};

verus! {

/// Ghost image of a `Project`.
pub struct ProjectView {
    pub parent: Option<FqnView>,
    pub artifact_fqn: FqnView,
    pub dependency_management: Option<Map<KeyView, DepView>>,
    pub dependencies: Map<KeyView, DepView>,
    pub properties: Map<Seq<char>, Seq<char>>,
}

/// The view of an optional parent reference.
pub open spec fn view_opt_parent(o: Option<Parent>) -> Option<FqnView> {
    match o {
        Some(p) => Some(p@),
        None => None,
    }
}

/// The view of an optional dependency-management block.
pub open spec fn view_opt_dm(o: Option<DependencyManagement>) -> Option<Map<KeyView, DepView>> {
    match o {
        Some(dm) => Some(dm@),
        None => None,
    }
}

/// Declared version and scope overrides, filed by dependency key.  An
/// entry whose scope is `import` is a BOM reference rather than a direct
/// override.
#[derive(Debug)]
pub struct DependencyManagement {
    pub dependencies: DependencyMap,
}

impl View for DependencyManagement {
    type V = Map<KeyView, DepView>;

    open spec fn view(&self) -> Map<KeyView, DepView> {
        self.dependencies@
    }
}

impl Clone for DependencyManagement {
    /// A copy with the same entries.
    fn clone(&self) -> (r: Self)
        ensures
            r@ == self@,
    {
        DependencyManagement { dependencies: self.dependencies.clone() }
    }
}

/// A descriptor as the parse capability hands it over and as the
/// resolver refines it.
#[derive(Debug)]
pub struct Project {
    pub parent: Option<Parent>,
    pub artifact_fqn: ArtifactFqn,
    pub dependency_management: Option<DependencyManagement>,
    pub dependencies: DependencyMap,
    pub properties: PropertyMap,
}

impl View for Project {
    type V = ProjectView;

    open spec fn view(&self) -> ProjectView {
        ProjectView {
            parent: view_opt_parent(self.parent),
            artifact_fqn: self.artifact_fqn@,
            dependency_management: view_opt_dm(self.dependency_management),
            dependencies: self.dependencies@,
            properties: self.properties@,
        }
    }
}

impl Clone for Project {
    /// A copy whose view is the same.
    fn clone(&self) -> (r: Self)
        ensures
            r@ == self@,
    {
        Project {
            parent: match &self.parent {
                Some(p) => Some(p.clone()),
                None => None,
            },
            artifact_fqn: self.artifact_fqn.clone(),
            dependency_management: match &self.dependency_management {
                Some(dm) => Some(dm.clone()),
                None => None,
            },
            dependencies: self.dependencies.clone(),
            properties: self.properties.clone(),
        }
    }
}

} // verus!
