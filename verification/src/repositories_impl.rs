//! The in-memory reference implementation of the storage contract: a
//! volatile, single-process store backed by an identity-keyed hash map.

use crate::entities::{Client, ClientView};
use crate::repositories::{enumerates, ClientRepository, RepositoryError};
use std::collections::HashMap;
use vstd::prelude::*;

verus! {

broadcast use vstd::std_specs::hash::group_hash_axioms, vstd::seq_lib::seq_to_set_is_finite;

/// Relies on `uuid::Uuid::new_v4` (read back through `Uuid::as_u128`): a
/// freshly generated random version-4 identifier. The value is random, so
/// nothing is assumed of it; the caller checks it against the identifiers
/// already in use.
#[verifier::external_body]
fn random_identity() -> (id: u128) {
    uuid::Uuid::new_v4().as_u128()
}

/// The identifiers strictly below `n`.
spec fn ids_below(n: int) -> Set<u128> {
    Set::new(|j: u128| j < n)
}

proof fn lemma_ids_below_len(n: int)
    requires
        0 <= n <= u128::MAX + 1,
    ensures
        ids_below(n).finite(),
        ids_below(n).len() == n,
    decreases n,
{
    if n == 0 {
        assert(ids_below(0) =~= Set::<u128>::empty());
    } else {
        lemma_ids_below_len(n - 1);
        assert(ids_below(n) =~= ids_below(n - 1).insert((n - 1) as u128));
    }
}

/// The reference repository. Records live in an identity-keyed map; every
/// identifier ever handed out by [`ClientRepository::next_identity`] is
/// remembered, so none is handed out twice.
pub struct InMemoryClientRepository {
    clients: HashMap<u128, Client>,
    issued_ids: Vec<u128>,
}

impl InMemoryClientRepository {
    /// A fresh repository holding no records.
    pub fn new() -> (repository: Self)
        ensures
            repository.inv(),
            repository.contents() == Map::<u128, ClientView>::empty(),
            repository.issued() == Set::<u128>::empty(),
    {
        let repository = InMemoryClientRepository {
            clients: HashMap::new(),
            issued_ids: Vec::new(),
        };
        proof {
            assert(repository.contents() =~= Map::<u128, ClientView>::empty());
            assert(repository.issued() =~= Set::<u128>::empty());
        }
        repository
    }

    /// A repository pre-populated with two example records, handy for
    /// demonstrations: "Taro" from "Tokyo" and "Jiro" from "Tokyo", each
    /// under its own fresh identifier.
    pub fn new_with_clients() -> (repository: Self)
        ensures
            repository.inv(),
            exists|i1: u128, i2: u128|
                #![auto]
                i1 != i2 && repository.contents() == Map::<u128, ClientView>::empty().insert(
                    i1,
                    (ClientView { id: i1, name: "Taro"@, location: "Tokyo"@ }),
                ).insert(i2, (ClientView { id: i2, name: "Jiro"@, location: "Tokyo"@ })),
    {
        let mut repository = Self::new();
        let id1 = repository.next_identity();
        repository.save(Client::new(id1, "Taro".to_owned(), "Tokyo".to_owned()));
        let id2 = repository.next_identity();
        repository.save(Client::new(id2, "Jiro".to_owned(), "Tokyo".to_owned()));
        proof {
            assert(repository.contents() == Map::<u128, ClientView>::empty().insert(
                id1,
                (ClientView { id: id1, name: "Taro"@, location: "Tokyo"@ }),
            ).insert(id2, (ClientView { id: id2, name: "Jiro"@, location: "Tokyo"@ })));
        }
        repository
    }

    /// Every identifier that is either a key of a stored record or was
    /// already handed out.
    closed spec fn used_ids(&self) -> Set<u128> {
        self.clients@.dom().union(self.issued_ids@.to_set())
    }

    proof fn lemma_used_ids_bound(&self)
        ensures
            self.used_ids().finite(),
            self.used_ids().len() <= self.clients@.dom().len() + self.issued_ids@.len(),
    {
        self.issued_ids@.lemma_cardinality_of_set();
        vstd::set_lib::lemma_len_union(self.clients@.dom(), self.issued_ids@.to_set());
    }

    /// Whether the identifier is a key of a stored record or was already
    /// handed out.
    fn is_used(&self, id: u128) -> (used: bool)
        ensures
            used == self.used_ids().contains(id),
    {
        if self.clients.contains_key(&id) {
            return true;
        }
        let mut i: usize = 0;
        while i < self.issued_ids.len()
            invariant
                i <= self.issued_ids@.len(),
                forall|j: int| 0 <= j < i ==> self.issued_ids@[j] != id,
            decreases self.issued_ids@.len() - i,
        {
            if self.issued_ids[i] == id {
                assert(self.issued_ids@.to_set().contains(id));
                return true;
            }
            i = i + 1;
        }
        assert(!self.issued_ids@.contains(id));
        false
    }

    /// The smallest identifier not in use at all: linear probing from zero
    /// must find one, because fewer identifiers are in use than there are
    /// identifiers.
    fn probe_unused(&self) -> (id: u128)
        ensures
            !self.used_ids().contains(id),
    {
        let bound: u128 = self.clients.len() as u128 + self.issued_ids.len() as u128;
        proof {
            self.lemma_used_ids_bound();
        }
        let mut candidate: u128 = 0;
        while self.is_used(candidate)
            invariant
                candidate <= bound,
                bound == self.clients@.dom().len() + self.issued_ids@.len(),
                self.used_ids().finite(),
                self.used_ids().len() <= bound,
                forall|j: u128| j < candidate ==> self.used_ids().contains(j),
            decreases bound - candidate,
        {
            proof {
                assert forall|j: u128| j < candidate + 1 implies self.used_ids().contains(
                    j,
                ) by {
                    if j < candidate {
                    } else {
                        assert(j == candidate);
                    }
                }
                assert(ids_below(candidate + 1).subset_of(self.used_ids()));
                lemma_ids_below_len(candidate + 1);
                vstd::set_lib::lemma_len_subset(ids_below(candidate + 1), self.used_ids());
                assert(candidate + 1 <= self.used_ids().len());
            }
            candidate = candidate + 1;
        }
        candidate
    }
}

impl ClientRepository for InMemoryClientRepository {
    closed spec fn contents(&self) -> Map<u128, ClientView> {
        Map::new(|k: u128| self.clients@.dom().contains(k), |k: u128| self.clients@[k]@)
    }

    closed spec fn issued(&self) -> Set<u128> {
        self.issued_ids@.to_set()
    }

    closed spec fn inv(&self) -> bool {
        forall|k: u128| #[trigger] self.clients@.dom().contains(k) ==> self.clients@[k]@.id == k
    }

    fn next_identity(&mut self) -> (id: u128) {
        let candidate = random_identity();
        let id: u128 = if !self.is_used(candidate) {
            candidate
        } else {
            self.probe_unused()
        };
        proof {
            assert(!old(self).contents().dom().contains(id));
        }
        self.issued_ids.push(id);
        proof {
            old(self).issued_ids@.lemma_push_to_set_commute(id);
            assert(self.issued() =~= old(self).issued().insert(id));
            assert(self.contents() =~= old(self).contents());
        }
        id
    }

    fn save(&mut self, client: Client) {
        let id = client.id();
        self.clients.insert(id, client);
        proof {
            assert(self.contents() =~= old(self).contents().insert(client@.id, client@));
        }
    }

    fn by_id(&self, id: u128) -> (found: Result<Client, RepositoryError>) {
        match self.clients.get(&id) {
            Some(client) => {
                proof {
                    assert(self.contents().dom().contains(id));
                    assert(self.contents()[id] == self.clients@[id]@);
                }
                Ok(client.clone())
            },
            None => {
                proof {
                    assert(!self.contents().dom().contains(id));
                }
                Err(RepositoryError::NotFound)
            },
        }
    }

    fn all(&self) -> (records: Vec<Client>) {
        let mut records: Vec<Client> = Vec::new();
        for k in it: self.clients.keys()
            invariant
                it.seq().unref().to_set() == self.clients@.dom(),
                it.seq().no_duplicates(),
                it.seq().len() == self.clients@.dom().len(),
                records@.len() == it.index(),
                forall|j: int|
                    0 <= j < it.index() ==> #[trigger] records@[j]@.id == it.seq().unref()[j],
                forall|j: int|
                    0 <= j < records@.len()
                        ==> self.clients@.dom().contains(#[trigger] records@[j]@.id)
                        && records@[j]@ == self.contents()[records@[j]@.id],
                self.inv(),
        {
            proof {
                assert(k == it.seq()[it.index()]);
                assert(it.seq().unref()[it.index()] == *k);
                assert(it.seq().unref().to_set().contains(it.seq().unref()[it.index()]));
                assert(self.clients@.dom().contains(*k));
            }
            let client = self.clients.get(k).unwrap();
            records.push(client.clone());
        }
        proof {
            let records_view = records@.map_values(|c: Client| c@);
            let ids = records_view.map_values(|v: ClientView| v.id);
            assert(self.contents().dom() =~= self.clients@.dom());
            assert(records@.len() == self.clients@.dom().len());
            assert(ids.no_duplicates());
            ids.unique_seq_to_set();
            assert(ids.to_set().subset_of(self.contents().dom()));
            vstd::set_lib::lemma_subset_equality(ids.to_set(), self.contents().dom());
            assert forall|k: u128| #[trigger]
                self.contents().dom().contains(k) implies exists|i: int|
                0 <= i < records_view.len() && records_view[i].id == k by {
                assert(ids.to_set().contains(k));
                let i = choose|i: int| 0 <= i < ids.len() && ids[i] == k;
                assert(records_view[i].id == k);
            }
            assert(enumerates(self.contents(), records_view));
        }
        records
    }
}

} // verus!
