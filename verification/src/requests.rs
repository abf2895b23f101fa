//! The request values the presentation shell builds and passes to the
//! use-case handlers.

use vstd::prelude::*;

verus! {

/// The inputs of the create operation: the two descriptive fields of the
/// record to create. The identifier is chosen by the repository.
pub struct CreateClientUseCaseRequest {
    pub name: String,
    pub location: String,
}

impl CreateClientUseCaseRequest {
    pub fn new(name: String, location: String) -> (request: Self)
        ensures
            request.name == name,
            request.location == location,
    {
        CreateClientUseCaseRequest { name, location }
    }
}

/// The input of the get operation: the identifier to look up.
pub struct GetClientUseCaseRequest {
    pub id: u128,
}

impl GetClientUseCaseRequest {
    pub fn new(id: u128) -> (request: Self)
        ensures
            request.id == id,
    {
        GetClientUseCaseRequest { id }
    }
}

/// The inputs of the edit operation: the identifier of the record to edit
/// and the new values of its two descriptive fields.
pub struct EditClientUseCaseRequest {
    pub id: u128,
    pub name: String,
    pub location: String,
}

impl EditClientUseCaseRequest {
    pub fn new(id: u128, name: String, location: String) -> (request: Self)
        ensures
            request.id == id,
            request.name == name,
            request.location == location,
    {
        EditClientUseCaseRequest { id, name, location }
    }
}

/// The empty input of the list operation.
pub struct NoneRequest;

} // verus!
