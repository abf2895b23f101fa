//! The four use-case handlers: create, get, list, and edit. Each is bound
//! to a repository at construction and is otherwise stateless.

use crate::dtos::{lemma_projection_preserves_fields, ClientDto, DtoList};
use crate::entities::{Client, ClientView};
use crate::handler::Handler;
use crate::repositories::{enumerates, ClientRepository, RepositoryError};
use crate::requests::{
    CreateClientUseCaseRequest, EditClientUseCaseRequest, GetClientUseCaseRequest, NoneRequest,
};
use vstd::prelude::*;

verus! {

/// Creates a record: draws a fresh identifier from the repository, builds
/// the record, and persists it. The identifier is not returned.
pub struct CreateClientUseCaseHandler<T: ClientRepository> {
    client_repo: T,
}

impl<T: ClientRepository> CreateClientUseCaseHandler<T> {
    /// The repository this handler is bound to.
    pub closed spec fn repository(&self) -> T {
        self.client_repo
    }

    /// Releases the repository the handler was bound to.
    pub fn into_repository(self) -> (repository: T)
        ensures
            repository == self.repository(),
    {
        self.client_repo
    }
}

impl<T: ClientRepository> Handler<T> for CreateClientUseCaseHandler<T> {
    type Request = CreateClientUseCaseRequest;

    type Output = ();

    closed spec fn inv(&self) -> bool {
        self.client_repo.inv()
    }

    fn new(client_repository: T) -> (handler: Self)
        ensures
            handler.repository() == client_repository,
    {
        CreateClientUseCaseHandler { client_repo: client_repository }
    }

    /// Always succeeds: a record with the requested name and location is
    /// stored under an identifier that was in use nowhere before.
    fn execute(&mut self, request: CreateClientUseCaseRequest) -> (output: ())
        ensures
            exists|id: u128|
                #![auto]
                !old(self).repository().contents().dom().contains(id) && !old(self).repository().issued().contains(id) && final(self).repository().contents() == old(self).repository().contents().insert(
                    id,
                    (ClientView { id, name: request.name@, location: request.location@ }),
                ) && final(self).repository().issued() == old(self).repository().issued().insert(
                    id,
                ),
    {
        let id = self.client_repo.next_identity();
        let client = Client::new(id, request.name, request.location);
        self.client_repo.save(client);
        proof {
            let stored = ClientView { id: id, name: request.name@, location: request.location@ };
            assert(!old(self).repository().contents().dom().contains(id));
            assert(!old(self).repository().issued().contains(id));
            assert(self.repository().contents() == old(self).repository().contents().insert(
                id,
                stored,
            ));
            assert(self.repository().issued() == old(self).repository().issued().insert(id));
        }
    }
}

/// Fetches one record by identifier and projects it; a missing record is
/// reported unchanged as [`RepositoryError::NotFound`].
pub struct GetClientUseCaseHandler<T: ClientRepository> {
    client_repo: T,
}

impl<T: ClientRepository> GetClientUseCaseHandler<T> {
    /// The repository this handler is bound to.
    pub closed spec fn repository(&self) -> T {
        self.client_repo
    }

    /// Releases the repository the handler was bound to.
    pub fn into_repository(self) -> (repository: T)
        ensures
            repository == self.repository(),
    {
        self.client_repo
    }
}

impl<T: ClientRepository> Handler<T> for GetClientUseCaseHandler<T> {
    type Request = GetClientUseCaseRequest;

    type Output = Result<ClientDto, RepositoryError>;

    closed spec fn inv(&self) -> bool {
        self.client_repo.inv()
    }

    fn new(client_repository: T) -> (handler: Self)
        ensures
            handler.repository() == client_repository,
    {
        GetClientUseCaseHandler { client_repo: client_repository }
    }

    /// Succeeds exactly when a record with the requested identifier is
    /// stored, and then returns its projection; the store is never
    /// changed.
    fn execute(&mut self, request: GetClientUseCaseRequest) -> (output: Result<
        ClientDto,
        RepositoryError,
    >)
        ensures
            *final(self) == *old(self),
            match output {
                Ok(dto) => old(self).repository().contents().dom().contains(request.id) && dto@
                    == old(self).repository().contents()[request.id],
                Err(err) => !old(self).repository().contents().dom().contains(request.id) && err
                    == RepositoryError::NotFound,
            },
    {
        match self.client_repo.by_id(request.id) {
            Ok(client) => {
                proof {
                    lemma_projection_preserves_fields(client);
                }
                Ok(ClientDto::from(client))
            },
            Err(err) => Err(err),
        }
    }
}

/// Lists every stored record, each projected, in the order the repository
/// enumerated them.
pub struct GetAllClientUseCaseHandler<T: ClientRepository> {
    client_repo: T,
}

impl<T: ClientRepository> GetAllClientUseCaseHandler<T> {
    /// The repository this handler is bound to.
    pub closed spec fn repository(&self) -> T {
        self.client_repo
    }

    /// Releases the repository the handler was bound to.
    pub fn into_repository(self) -> (repository: T)
        ensures
            repository == self.repository(),
    {
        self.client_repo
    }
}

impl<T: ClientRepository> Handler<T> for GetAllClientUseCaseHandler<T> {
    type Request = NoneRequest;

    type Output = DtoList<ClientDto>;

    closed spec fn inv(&self) -> bool {
        self.client_repo.inv()
    }

    fn new(client_repository: T) -> (handler: Self)
        ensures
            handler.repository() == client_repository,
    {
        GetAllClientUseCaseHandler { client_repo: client_repository }
    }

    /// The output lists exactly the stored records, projected one for one;
    /// an empty store yields an empty, not absent, list. The store is
    /// never changed.
    fn execute(&mut self, request: NoneRequest) -> (output: DtoList<ClientDto>)
        ensures
            *final(self) == *old(self),
            enumerates(
                old(self).repository().contents(),
                output@.map_values(|dto: ClientDto| dto@),
            ),
    {
        let records = self.client_repo.all();
        let mut dtos: Vec<ClientDto> = Vec::new();
        let mut i: usize = 0;
        while i < records.len()
            invariant
                i <= records@.len(),
                dtos@.len() == i,
                forall|j: int| 0 <= j < i ==> #[trigger] dtos@[j]@ == records@[j]@,
            decreases records@.len() - i,
        {
            let client = records[i].clone();
            proof {
                lemma_projection_preserves_fields(client);
            }
            dtos.push(ClientDto::from(client));
            i = i + 1;
        }
        proof {
            assert(dtos@.map_values(|dto: ClientDto| dto@) =~= records@.map_values(
                |c: Client| c@,
            ));
        }
        DtoList::new(dtos)
    }
}

/// Edits one record: looks it up, replaces its two descriptive fields, and
/// writes it back under the same identifier. A missing record is reported
/// unchanged as [`RepositoryError::NotFound`] and nothing is written.
pub struct EditClientUseCaseHandler<T: ClientRepository> {
    client_repo: T,
}

impl<T: ClientRepository> EditClientUseCaseHandler<T> {
    /// The repository this handler is bound to.
    pub closed spec fn repository(&self) -> T {
        self.client_repo
    }

    /// Releases the repository the handler was bound to.
    pub fn into_repository(self) -> (repository: T)
        ensures
            repository == self.repository(),
    {
        self.client_repo
    }
}

impl<T: ClientRepository> Handler<T> for EditClientUseCaseHandler<T> {
    type Request = EditClientUseCaseRequest;

    type Output = Result<(), RepositoryError>;

    closed spec fn inv(&self) -> bool {
        self.client_repo.inv()
    }

    fn new(client_repository: T) -> (handler: Self)
        ensures
            handler.repository() == client_repository,
    {
        EditClientUseCaseHandler { client_repo: client_repository }
    }

    /// Succeeds exactly when a record with the requested identifier is
    /// stored; then that record, and no other, now carries the requested
    /// name and location, under its unchanged identifier. On a missing
    /// record nothing at all is written.
    fn execute(&mut self, request: EditClientUseCaseRequest) -> (output: Result<
        (),
        RepositoryError,
    >)
        ensures
            final(self).repository().issued() == old(self).repository().issued(),
            match output {
                Ok(unit) => old(self).repository().contents().dom().contains(request.id) && final(self).repository().contents() == old(self).repository().contents().insert(
                    request.id,
                    (ClientView {
                        id: request.id,
                        name: request.name@,
                        location: request.location@,
                    }),
                ),
                Err(err) => err == RepositoryError::NotFound && !old(self).repository().contents().dom().contains(request.id) && *final(self) == *old(self),
            },
    {
        let looked_up = self.client_repo.by_id(request.id);
        match looked_up {
            Ok(client) => {
                let mut client = client;
                client.edit(request.name, request.location);
                self.client_repo.save(client);
                Ok(())
            },
            Err(err) => Err(err),
        }
    }
}

} // verus!
