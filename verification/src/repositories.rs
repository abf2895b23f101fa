//! The storage capability contract: identity generation, persistence,
//! lookup, and full enumeration, polymorphic over implementations.

use crate::entities::{Client, ClientView};
use vstd::prelude::*;

verus! {

/// The single failure signal of the core: a lookup found no record for the
/// given identifier.
#[derive(Clone, Copy, Debug, PartialEq, Eq, Structural)]
pub enum RepositoryError {
    NotFound,
}

/// What handing out an identifier does: the identifier is not in use by any
/// stored record, was never handed out before, the stored records are left
/// untouched, and the identifier is remembered as handed out.
pub open spec fn next_identity_post<T: ClientRepository>(pre: T, post: T, id: u128) -> bool {
    &&& !pre.contents().dom().contains(id)
    &&& !pre.issued().contains(id)
    &&& post.contents() == pre.contents()
    &&& post.issued() == pre.issued().insert(id)
}

/// What saving does: the record is inserted under its own identifier,
/// fully replacing any prior record with that identifier, and nothing else
/// changes.
pub open spec fn save_post<T: ClientRepository>(pre: T, post: T, client: ClientView) -> bool {
    &&& post.contents() == pre.contents().insert(client.id, client)
    &&& post.issued() == pre.issued()
}

/// The sequence lists exactly the records of the mapping: every element is a
/// stored record under its own identifier, every stored record appears, and
/// no identifier appears twice. The order is left unspecified.
pub open spec fn enumerates(m: Map<u128, ClientView>, s: Seq<ClientView>) -> bool {
    &&& s.len() == m.dom().len()
    &&& forall|i: int|
        0 <= i < s.len() ==> m.dom().contains(#[trigger] s[i].id) && m[s[i].id] == s[i]
    &&& forall|k: u128| #[trigger]
        m.dom().contains(k) ==> exists|i: int| 0 <= i < s.len() && s[i].id == k
    &&& forall|i: int, j: int|
        #![trigger s[i].id, s[j].id]
        0 <= i < j < s.len() ==> s[i].id != s[j].id
}

/// The capability set a storage implementation offers: identity generation,
/// persistence, retrieval, and full enumeration.
pub trait ClientRepository: Sized {
    /// The stored records, as a mapping from identifier to record value.
    spec fn contents(&self) -> Map<u128, ClientView>;

    /// Every identifier this repository has handed out so far.
    spec fn issued(&self) -> Set<u128>;

    /// Well-formedness of the repository state, established at construction
    /// and preserved by every operation.
    spec fn inv(&self) -> bool;

    /// Produces a fresh identifier: one not currently in use by any stored
    /// record and never handed out by this repository before.
    fn next_identity(&mut self) -> (id: u128)
        requires
            old(self).inv(),
        ensures
            final(self).inv(),
            !old(self).contents().dom().contains(id),
            !old(self).issued().contains(id),
            final(self).contents() == old(self).contents(),
            final(self).issued() == old(self).issued().insert(id),
    ;

    /// Inserts or overwrites the record keyed by the record's identifier.
    /// Always succeeds.
    fn save(&mut self, client: Client)
        requires
            old(self).inv(),
        ensures
            final(self).inv(),
            final(self).contents() == old(self).contents().insert(client@.id, client@),
            final(self).issued() == old(self).issued(),
    ;

    /// The stored record with the given identifier, as an independent copy,
    /// or [`RepositoryError::NotFound`] exactly when no record has that
    /// identifier.
    fn by_id(&self, id: u128) -> (found: Result<Client, RepositoryError>)
        requires
            self.inv(),
        ensures
            match found {
                Ok(client) => self.contents().dom().contains(id) && client@ == self.contents()[id]
                    && client@.id == id,
                Err(err) => !self.contents().dom().contains(id) && err == RepositoryError::NotFound,
            },
    ;

    /// Every stored record, each as an independent copy, in an unspecified
    /// order; an empty store yields an empty vector.
    fn all(&self) -> (records: Vec<Client>)
        requires
            self.inv(),
        ensures
            enumerates(self.contents(), records@.map_values(|c: Client| c@)),
    ;
}

/// Identifier uniqueness: two identifiers handed out one after the other by
/// the same repository, with nothing saved in between, are distinct.
pub proof fn lemma_next_identity_distinct<T: ClientRepository>(
    s0: T,
    s1: T,
    s2: T,
    i1: u128,
    i2: u128,
)
    requires
        next_identity_post(s0, s1, i1),
        next_identity_post(s1, s2, i2),
    ensures
        i1 != i2,
{
    assert(s1.issued().contains(i1));
}

/// Write-then-read consistency: immediately after a record is saved, the
/// store holds, under the record's identifier, a value equal to the record
/// in all fields — which is what a lookup of that identifier then returns.
pub proof fn lemma_save_then_by_id<T: ClientRepository>(pre: T, post: T, client: ClientView)
    requires
        save_post(pre, post, client),
    ensures
        post.contents().dom().contains(client.id),
        post.contents()[client.id] == client,
{
}

/// An identifier that was never saved stays absent: saving a record with a
/// different identifier cannot make a lookup of this identifier succeed,
/// and handing out identifiers does not change the store at all.
pub proof fn lemma_unsaved_id_stays_absent<T: ClientRepository>(
    pre: T,
    post: T,
    client: ClientView,
    id: u128,
)
    requires
        save_post(pre, post, client),
        client.id != id,
        !pre.contents().dom().contains(id),
    ensures
        !post.contents().dom().contains(id),
{
}

/// A save adds exactly its own identifier to the set of stored identifiers.
pub proof fn lemma_save_dom<T: ClientRepository>(pre: T, post: T, client: ClientView)
    requires
        save_post(pre, post, client),
    ensures
        post.contents().dom() =~= pre.contents().dom().insert(client.id),
{
}

/// Enumeration after saves: starting from an empty store, a chain of saves
/// leaves the set of stored identifiers exactly equal to the set of saved
/// identifiers; with pairwise distinct identifiers the store then holds
/// exactly as many records as were saved — which is what a full
/// enumeration returns.
pub proof fn lemma_stored_ids_after_saves<T: ClientRepository>(states: Seq<T>, saved: Seq<ClientView>)
    requires
        states.len() == saved.len() + 1,
        states[0].contents().dom() == Set::<u128>::empty(),
        forall|i: int|
            0 <= i < saved.len() ==> save_post(states[i], states[i + 1], #[trigger] saved[i]),
    ensures
        states.last().contents().dom() == saved.map_values(|c: ClientView| c.id).to_set(),
        saved.map_values(|c: ClientView| c.id).no_duplicates() ==> states.last().contents().len()
            == saved.len(),
    decreases saved.len(),
{
    broadcast use vstd::seq_lib::seq_to_set_is_finite;

    let ids = saved.map_values(|c: ClientView| c.id);
    if saved.len() == 0 {
        assert(ids.to_set() =~= Set::<u128>::empty());
        assert(states.last().contents().dom() =~= Set::<u128>::empty());
    } else {
        let shorter_states = states.drop_last();
        let shorter_saved = saved.drop_last();
        assert(forall|i: int|
            0 <= i < shorter_saved.len() ==> save_post(
                shorter_states[i],
                shorter_states[i + 1],
                #[trigger] shorter_saved[i],
            ));
        lemma_stored_ids_after_saves(shorter_states, shorter_saved);
        let shorter_ids = shorter_saved.map_values(|c: ClientView| c.id);
        assert(save_post(states[states.len() - 2], states.last(), saved.last()));
        assert(states.last().contents().dom() =~= shorter_ids.to_set().insert(saved.last().id));
        assert(ids =~= shorter_ids.push(saved.last().id));
        shorter_ids.lemma_push_to_set_commute(saved.last().id);
        assert(states.last().contents().dom() =~= ids.to_set());
        if ids.no_duplicates() {
            ids.unique_seq_to_set();
        }
    }
}

} // verus!
