//! Read-only result projections: what the use-case handlers hand back to
//! callers in place of live entities.

use crate::entities::{Client, ClientView};
use vstd::prelude::*;
use vstd::std_specs::iter::IteratorSpec;

verus! {

/// A read-only projection of a [`Client`]. It is constructed only from an
/// existing record (a one-directional conversion) and offers no path back
/// to a mutable entity.
#[derive(Debug, PartialEq, Eq)]
pub struct ClientDto(Client);

impl View for ClientDto {
    type V = ClientView;

    closed spec fn view(&self) -> ClientView {
        self.0@
    }
}

impl ClientDto {
    pub fn id(&self) -> (id: u128)
        ensures
            id == self@.id,
    {
        self.0.id()
    }

    pub fn name(&self) -> (name: &str)
        ensures
            name@ == self@.name,
    {
        self.0.name()
    }

    pub fn location(&self) -> (location: &str)
        ensures
            location@ == self@.location,
    {
        self.0.location()
    }
}

impl From<Client> for ClientDto {
    /// Projects a record: the resulting view shows the record's fields
    /// unchanged.
    fn from(client: Client) -> (dto: ClientDto) {
        ClientDto(client)
    }
}

impl vstd::std_specs::convert::FromSpecImpl<Client> for ClientDto {
    open spec fn obeys_from_spec() -> bool {
        true
    }

    closed spec fn from_spec(client: Client) -> ClientDto {
        ClientDto(client)
    }
}

impl Clone for ClientDto {
    /// An independent copy, equal to the original in every field.
    fn clone(&self) -> (other: Self)
        ensures
            other == *self,
    {
        ClientDto(self.0.clone())
    }
}

/// Projection preserves every field: the projection of a record shows the
/// record's identifier, name and location exactly, and projecting the same
/// record twice yields equal projections, since the projection is a
/// function of the record alone.
pub proof fn lemma_projection_preserves_fields(client: Client)
    ensures
        <ClientDto as vstd::std_specs::convert::FromSpec<Client>>::from_spec(client)@ == client@,
{
}

/// A list of projections, in the order the repository enumerated the
/// underlying records.
#[derive(Debug, PartialEq, Eq)]
pub struct DtoList<T>(Vec<T>);

impl<T> View for DtoList<T> {
    type V = Seq<T>;

    closed spec fn view(&self) -> Seq<T> {
        self.0@
    }
}

impl<T> DtoList<T> {
    pub fn new(vec: Vec<T>) -> (list: Self)
        ensures
            list@ == vec@,
    {
        DtoList(vec)
    }

    pub fn is_empty(&self) -> (empty: bool)
        ensures
            empty == (self@.len() == 0),
    {
        self.0.is_empty()
    }

    pub fn len(&self) -> (n: usize)
        ensures
            n == self@.len(),
    {
        self.0.len()
    }

    /// The element at the given position.
    pub fn get(&self, i: usize) -> (element: &T)
        requires
            i < self@.len(),
        ensures
            *element == self@[i as int],
    {
        &self.0[i]
    }

    /// An iterator over the elements, in order.
    pub fn iter(&self) -> (iter: std::slice::Iter<'_, T>)
        ensures
            iter.remaining() == self@.as_ref(),
            iter.remaining().unref() == self@,
    {
        let iter = self.0.as_slice().iter();
        proof {
            assert(iter.remaining().unref() =~= self@);
        }
        iter
    }
}

} // verus!
