//! Resolution of effective Maven project descriptors (effective POMs).
//!
//! Given the coordinates of an artifact, the [`Resolver`] fetches its
//! descriptor through a pluggable [`UrlFetcher`], parses it through a
//! pluggable [`PomParser`], normalizes coordinates against the declared
//! parent, merges the parent chain and imported BOMs, and caches every
//! descriptor it has seen for the lifetime of the session.

pub mod deps;
pub mod errors;
pub mod maps;
pub mod model;
pub mod project;
pub mod resolver;
pub mod text;

pub use deps::normalize_gavs;
pub use deps::DependencyMap;
pub use errors::ErrorKind;
pub use errors::ResolverError;
pub use maps::PropertyMap;
pub use model::ArtifactFqn;
pub use model::Dependency;
pub use model::DependencyKey;
pub use model::Parent;
pub use project::DependencyManagement;
pub use project::Project;
pub use resolver::normalize_parsed;
pub use resolver::PomParser;
pub use resolver::ProjectCache;
pub use resolver::Repository;
pub use resolver::Resolver;
pub use resolver::UrlFetcher;
