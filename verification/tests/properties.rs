//! Scenario tests for the stated behaviour of the repository and the
//! handlers: identifier uniqueness, write-then-read consistency, lookup
//! failure, enumeration, editing, the seeded store, and projection.

use client_registry::dtos::ClientDto;
use client_registry::entities::Client;
use client_registry::handler::Handler;
use client_registry::handlers_impl::EditClientUseCaseHandler;
use client_registry::repositories::{ClientRepository, RepositoryError};
use client_registry::repositories_impl::InMemoryClientRepository;
use client_registry::requests::EditClientUseCaseRequest;

fn fresh_id() -> u128 {
    uuid::Uuid::new_v4().as_u128()
}

#[test]
fn next_identity_is_unique() {
    let mut repository = InMemoryClientRepository::new();
    let i1 = repository.next_identity();
    let i2 = repository.next_identity();
    assert_ne!(i1, i2);
}

#[test]
fn next_identity_avoids_saved_ids() {
    let mut repository = InMemoryClientRepository::new();
    // Occupy a dense block of small identifiers, so that even the probing
    // fallback must skip over them.
    for id in 0..8u128 {
        repository.save(Client::new(id, "a".to_string(), "b".to_string()));
    }
    let fresh = repository.next_identity();
    assert!(repository.by_id(fresh).is_err());
}

#[test]
fn save_then_by_id_returns_equal_record() {
    let mut repository = InMemoryClientRepository::new();
    let client = Client::new(fresh_id(), "Hanako".to_string(), "Kyoto".to_string());
    repository.save(client.clone());
    let found = repository.by_id(client.id()).unwrap();
    assert_eq!(found, client);
}

#[test]
fn by_id_of_never_saved_id_is_not_found() {
    let mut repository = InMemoryClientRepository::new();
    repository.save(Client::new(1, "Hanako".to_string(), "Kyoto".to_string()));
    assert_eq!(repository.by_id(2), Err(RepositoryError::NotFound));
}

#[test]
fn all_of_fresh_repository_is_empty() {
    let repository = InMemoryClientRepository::new();
    assert!(repository.all().is_empty());
}

#[test]
fn all_returns_exactly_the_saved_id_set() {
    let mut repository = InMemoryClientRepository::new();
    let mut ids: Vec<u128> = Vec::new();
    for i in 0..5u128 {
        let id = repository.next_identity();
        ids.push(id);
        repository.save(Client::new(id, format!("name{}", i), format!("loc{}", i)));
    }
    let mut listed: Vec<u128> = repository.all().iter().map(|c| c.id()).collect();
    ids.sort();
    listed.sort();
    assert_eq!(ids, listed);
}

#[test]
fn save_with_equal_id_replaces_the_record() {
    let mut repository = InMemoryClientRepository::new();
    let id = fresh_id();
    repository.save(Client::new(id, "first".to_string(), "here".to_string()));
    repository.save(Client::new(id, "second".to_string(), "there".to_string()));
    assert_eq!(repository.all().len(), 1);
    let found = repository.by_id(id).unwrap();
    assert_eq!(found.name(), "second");
    assert_eq!(found.location(), "there");
}

#[test]
fn edit_then_by_id_shows_the_new_fields() {
    let mut repository = InMemoryClientRepository::new();
    let id = repository.next_identity();
    repository.save(Client::new(id, "Hanako".to_string(), "Kyoto".to_string()));

    let mut handler = EditClientUseCaseHandler::new(repository);
    let res = handler.execute(EditClientUseCaseRequest::new(
        id,
        "Sakura".to_string(),
        "Nara".to_string(),
    ));
    assert_eq!(res, Ok(()));

    let found = handler.into_repository().by_id(id).unwrap();
    assert_eq!(found.id(), id);
    assert_eq!(found.name(), "Sakura");
    assert_eq!(found.location(), "Nara");
}

#[test]
fn edit_of_missing_id_changes_nothing() {
    let mut repository = InMemoryClientRepository::new();
    let id = repository.next_identity();
    repository.save(Client::new(id, "Hanako".to_string(), "Kyoto".to_string()));
    let before: Vec<Client> = repository.all();

    let mut handler = EditClientUseCaseHandler::new(repository);
    let res = handler.execute(EditClientUseCaseRequest::new(
        id.wrapping_add(1),
        "Sakura".to_string(),
        "Nara".to_string(),
    ));
    assert_eq!(res, Err(RepositoryError::NotFound));

    let mut after = handler.into_repository().all();
    let mut before = before;
    before.sort_by_key(|c| c.id());
    after.sort_by_key(|c| c.id());
    assert_eq!(before, after);
}

#[test]
fn seeded_repository_end_to_end() {
    let mut repository = InMemoryClientRepository::new_with_clients();

    let mut seeded = repository.all();
    assert_eq!(seeded.len(), 2);
    seeded.sort_by_key(|c| c.name().to_string());
    assert_eq!(seeded[0].name(), "Jiro");
    assert_eq!(seeded[0].location(), "Tokyo");
    assert_eq!(seeded[1].name(), "Taro");
    assert_eq!(seeded[1].location(), "Tokyo");
    assert_ne!(seeded[0].id(), seeded[1].id());

    let taro_id = seeded[1].id();
    let jiro_id = seeded[0].id();

    let mut handler = EditClientUseCaseHandler::new(repository);
    let res = handler.execute(EditClientUseCaseRequest::new(
        taro_id,
        "Taro2".to_string(),
        "Osaka".to_string(),
    ));
    assert_eq!(res, Ok(()));
    repository = handler.into_repository();

    let edited = repository.by_id(taro_id).unwrap();
    assert_eq!(edited.name(), "Taro2");
    assert_eq!(edited.location(), "Osaka");

    let untouched = repository.by_id(jiro_id).unwrap();
    assert_eq!(untouched.name(), "Jiro");
    assert_eq!(untouched.location(), "Tokyo");
}

#[test]
fn repeated_projection_is_stable() {
    let client = Client::new(fresh_id(), "Hanako".to_string(), "Kyoto".to_string());
    let first: ClientDto = client.clone().into();
    let second: ClientDto = client.clone().into();
    assert_eq!(first, second);
    assert_eq!(first.id(), client.id());
    assert_eq!(first.name(), client.name());
    assert_eq!(first.location(), client.location());
}

#[test]
fn render_uses_the_canonical_hyphenated_identifier() {
    let id: u128 = 0xa1a2a3a4b1b2c1c2d1d2d3d4d5d6d7d8;
    let dto = ClientDto::from(Client::new(id, "Hanako".to_string(), "Kyoto".to_string()));
    assert_eq!(
        dto.render(),
        "Client #a1a2a3a4-b1b2-c1c2-d1d2-d3d4d5d6d7d8: Hanako, from Kyoto"
    );
}
