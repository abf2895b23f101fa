//! The generic dispatch abstraction: every use-case handler executes one
//! kind of request against the repository it was bound to at construction.

use crate::repositories::ClientRepository;
use vstd::prelude::*;

verus! {

/// A use-case handler over any repository satisfying the storage contract.
/// A handler is bound to its repository at construction and holds no other
/// state; each implementation states what its `execute` does in a
/// contract of its own, stronger than the generic one given here.
pub trait Handler<T: ClientRepository>: Sized {
    type Request;

    type Output;

    /// Well-formedness of the handler, established by `new` and preserved
    /// by `execute`.
    spec fn inv(&self) -> bool;

    /// Binds a handler to the repository it works against for its
    /// lifetime.
    fn new(client_repository: T) -> (handler: Self)
        requires
            client_repository.inv(),
        ensures
            handler.inv(),
    ;

    /// Executes the handler's one operation.
    fn execute(&mut self, request: Self::Request) -> (output: Self::Output)
        requires
            old(self).inv(),
        ensures
            final(self).inv(),
    ;
}

} // verus!
