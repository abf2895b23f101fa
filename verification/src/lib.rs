//! A small layered application core managing `Client` records: a domain
//! entity, a repository capability contract with an in-memory
//! implementation, four use-case handlers (create, get, list, edit), and
//! read-only result projections.

pub mod dtos;
pub mod entities;
pub mod handler;
pub mod handlers_impl;
pub mod presenters;
pub mod repositories;
pub mod repositories_impl;
pub mod requests;

pub use entities::Client;
pub use repositories::ClientRepository;
pub use repositories::RepositoryError;
pub use repositories_impl::InMemoryClientRepository;
