//! The domain entity: a `Client` record with a stable identity and two
//! mutable descriptive fields.

use vstd::prelude::*;

verus! {

/// The mathematical value of a [`Client`]: the identifier together with the
/// character sequences of the two descriptive fields.
pub struct ClientView {
    pub id: u128,
    pub name: Seq<char>,
    pub location: Seq<char>,
}

/// The domain record. The identifier is assigned once, at construction, and
/// never changes; the name and the location may be replaced through
/// [`Client::edit`]. Two records describe the same stored entry exactly when
/// their identifiers are equal.
#[derive(Debug, PartialEq, Eq)]
pub struct Client {
    id: u128,
    name: String,
    location: String,
}

impl View for Client {
    type V = ClientView;

    closed spec fn view(&self) -> ClientView {
        ClientView { id: self.id, name: self.name@, location: self.location@ }
    }
}

impl Client {
    /// Builds a record from an identifier (handed out by a repository) and
    /// the two descriptive fields.
    pub fn new(id: u128, name: String, location: String) -> (client: Client)
        ensures
            client@ == (ClientView { id, name: name@, location: location@ }),
    {
        Client { id, name, location }
    }

    pub fn id(&self) -> (id: u128)
        ensures
            id == self@.id,
    {
        self.id
    }

    pub fn name(&self) -> (name: &str)
        ensures
            name@ == self@.name,
    {
        self.name.as_str()
    }

    pub fn location(&self) -> (location: &str)
        ensures
            location@ == self@.location,
    {
        self.location.as_str()
    }

    /// Replaces the descriptive fields with the given values; the identity
    /// is left untouched.
    pub fn edit(&mut self, name: String, location: String)
        ensures
            final(self)@ == (ClientView { id: old(self)@.id, name: name@, location: location@ }),
    {
        self.name = name;
        self.location = location;
    }
}

impl Clone for Client {
    /// An independent copy, equal to the original in every field.
    fn clone(&self) -> (other: Self)
        ensures
            other == *self,
    {
        Client { id: self.id, name: self.name.clone(), location: self.location.clone() }
    }
}

} // verus!
