//! Record-management core for a single `user` entity.
//!
//! The crate verifies the data-access logic of a small user service: the
//! pagination / filter / sort query builder with its whitelist validation,
//! the repository operations (list, paged list, fetch by id, create, update,
//! delete) over an explicit store model, and the translation of repository
//! outcomes into a small error taxonomy. Transport, process bootstrap and the
//! database driver are adapters that live outside this crate and only hand
//! plain values in and out.

pub mod errors;
pub mod model;
pub mod query;
pub mod repo;
pub mod sorting;
pub mod text;

pub use errors::RepoError;
pub use model::{PaginationRequest, Respuesta, User, UserRequest, UserTable};
pub use query::{SortColumn, SortOrder, ValidatedQuery};
pub use repo::Store;
