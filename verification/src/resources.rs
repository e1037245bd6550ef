use std::collections::HashMap;
use vstd::prelude::*;
use vstd::std_specs::iter::IteratorSpec;

verus! {

broadcast use vstd::std_specs::hash::group_hash_axioms;

/// The identifier under which a resource is stored (the 128 bits of its UUID).
pub type Id = u128;

/// An in-memory store of resources of one kind, keyed by their [`Id`].
pub struct Resources<R> {
    column: HashMap<Id, R>,
}

impl<R> View for Resources<R> {
    type V = Map<Id, R>;

    closed spec fn view(&self) -> Map<Id, R> {
        self.column@
    }
}

/// The resource stored under `id` in `store`, if any.
pub open spec fn stored<R>(store: Map<Id, R>, id: Id) -> Option<R> {
    if store.contains_key(id) {
        Some(store[id])
    } else {
        None
    }
}

impl<R> Resources<R> {
    /// Creates an empty store.
    pub fn new() -> (resources: Self)
        ensures
            resources@ == Map::<Id, R>::empty(),
    {
        Resources { column: HashMap::new() }
    }

    /// Stores `resource` under `id`, replacing whatever was stored there.
    pub fn insert(&mut self, id: Id, resource: R)
        ensures
            final(self)@ == old(self)@.insert(id, resource),
    {
        self.column.insert(id, resource);
    }

    /// Starts an update of the resource stored under `id`.
    pub fn update(&mut self, id: Id) -> (update: Update<'_, R>)
        ensures
            update.id == id,
            *update.resources == *old(self),
            *final(self) == *final(update.resources),
    {
        Update { id, resources: self }
    }

    /// Removes the resource stored under `id` and hands it back.
    pub fn remove(&mut self, id: Id) -> (removed: Option<R>)
        ensures
            removed == stored(old(self)@, id),
            final(self)@ == old(self)@.remove(id),
    {
        self.column.remove(&id)
    }

    /// A copy of the resource stored under `id`, if any.
    pub fn get(&self, id: Id) -> (resource: Option<R>)
        where R: Clone,
        ensures
            resource is Some <==> self@.contains_key(id),
            resource matches Some(r) ==> cloned(self@[id], r),
    {
        match self.column.get(&id) {
            Some(r) => Some(r.clone()),
            None => None,
        }
    }

    /// Whether a resource is stored under `id`.
    pub fn contains(&self, id: Id) -> (contained: bool)
        ensures
            contained == self@.contains_key(id),
    {
        self.column.contains_key(&id)
    }

    /// Whether the store holds no resource at all.
    pub fn is_empty(&self) -> (empty: bool)
        ensures
            empty == (self@.dom() == Set::<Id>::empty()),
    {
        proof {
            assert(self.column@.dom().finite());
            if self.column@.dom().len() == 0 {
                assert(self.column@.dom() =~= Set::<Id>::empty());
            }
        }
        self.column.is_empty()
    }

    /// References to all stored resources, each exactly once, in no particular order.
    pub fn iter(&self) -> (resources: Vec<&R>)
        ensures
            exists|ids: Seq<Id>|
                #![trigger ids.len()]
                {
                    &&& ids.no_duplicates()
                    &&& ids.to_set() == self@.dom()
                    &&& ids.len() == resources@.len()
                    &&& forall|i: int| 0 <= i < ids.len() ==> *resources@[i] == self@[#[trigger] ids[i]]
                },
    {
        let ids = self.ids();
        let mut resources: Vec<&R> = Vec::new();
        let mut i: usize = 0;
        while i < ids.len()
            invariant
                ids@.no_duplicates(),
                ids@.to_set() == self@.dom(),
                i <= ids.len(),
                resources@.len() == i,
                forall|j: int| 0 <= j < i ==> *resources@[j] == self@[#[trigger] ids@[j]],
            decreases ids.len() - i,
        {
            proof {
                assert(ids@.to_set().contains(ids@[i as int]));
            }
            match self.column.get(&ids[i]) {
                Some(r) => resources.push(r),
                None => {},
            }
            i = i + 1;
        }
        proof {
            assert(ids@.len() == resources@.len());
        }
        resources
    }
}

impl<R> Resources<R> {
    /// Applies `f` to every stored resource, in place.
    pub fn iter_mut<F: Fn(&mut R)>(&mut self, f: F)
        requires
            forall|m: &mut R| old(self)@.values().contains(*m) ==> #[trigger] f.requires((m,)),
        ensures
            final(self)@.dom() == old(self)@.dom(),
            forall|id: Id|
                #[trigger] old(self)@.contains_key(id) ==> (exists|m: &mut R| *m == old(self)@[id] && #[trigger] f.ensures((m,), ()) && *final(m) == final(self)@[id]),
    {
        let ghost old_map = self@;
        let ids = self.ids();
        let mut i: usize = 0;
        while i < ids.len()
            invariant
                ids@.no_duplicates(),
                ids@.to_set() == old_map.dom(),
                self@.dom() == old_map.dom(),
                i <= ids.len(),
                forall|m: &mut R| old_map.values().contains(*m) ==> #[trigger] f.requires((m,)),
                forall|j: int| #![trigger ids@[j]] 0 <= j < i ==> (exists|m: &mut R| *m == old_map[ids@[j]] && #[trigger] f.ensures((m,), ()) && *final(m) == self@[ids@[j]]),
                forall|j: int| i <= j < ids.len() ==> self@[#[trigger] ids@[j]] == old_map[ids@[j]],
            decreases ids.len() - i,
        {
            let id = ids[i];
            proof {
                assert(ids@.to_set().contains(id));
                assert(old_map.values().contains(old_map[id]));
            }
            match self.column.remove(&id) {
                Some(resource) => {
                    let mut resource = resource;
                    f(&mut resource);
                    self.column.insert(id, resource);
                },
                None => {},
            }
            proof {
                assert forall|j: int| i < j < ids.len() implies self@[#[trigger] ids@[j]] == old_map[ids@[j]] by {
                    assert(ids@[j] != ids@[i as int]);
                }
                assert forall|j: int| #![trigger ids@[j]] 0 <= j < i implies (exists|m: &mut R| *m == old_map[ids@[j]] && #[trigger] f.ensures((m,), ()) && *final(m) == self@[ids@[j]]) by {
                    assert(ids@[j] != ids@[i as int]);
                }
            }
            i = i + 1;
        }
        proof {
            assert forall|id: Id| #[trigger] old_map.contains_key(id) implies (exists|m: &mut R| *m == old_map[id] && #[trigger] f.ensures((m,), ()) && *final(m) == self@[id]) by {
                assert(ids@.to_set().contains(id));
                let j = choose|j: int| 0 <= j < ids@.len() && ids@[j] == id;
                assert((exists|m: &mut R| *m == old_map[ids@[j]] && #[trigger] f.ensures((m,), ()) && *final(m) == self@[ids@[j]]));
            }
        }
    }

    /// The ids of all stored resources, each exactly once, in no particular order.
    fn ids(&self) -> (ids: Vec<Id>)
        ensures
            ids@.no_duplicates(),
            ids@.to_set() == self@.dom(),
    {
        let mut ids: Vec<Id> = Vec::new();
        let keys = self.column.keys();
        let ghost all_ids = keys.remaining().unref();
        for id in it: keys
            invariant
                all_ids == it.seq().unref(),
                all_ids.no_duplicates(),
                all_ids.to_set() == self@.dom(),
                ids@ == all_ids.take(it.index() as int),
        {
            ids.push(*id);
            proof {
                assert(ids@ =~= all_ids.take(it.index() + 1));
            }
        }
        proof {
            assert(ids@ =~= all_ids);
        }
        ids
    }
}


/// An update of one entry of a [`Resources`] store.
pub struct Update<'a, R> {
    pub id: Id,
    pub resources: &'a mut Resources<R>,
}

impl<'a, R> Update<'a, R> {
    /// Applies `f` to the resource under update, if one is stored.
    pub fn modify<F: FnOnce(&mut R)>(self, f: F) -> (update: Self)
        requires
            old(self.resources)@.contains_key(self.id) ==> forall|m: &mut R|
                *m == old(self.resources)@[self.id] ==> #[trigger] f.requires((m,)),
        ensures
            update.id == self.id,
            *final(update.resources) == *final(self.resources),
            !old(self.resources)@.contains_key(self.id) ==> (*update.resources)@ == old(
                self.resources,
            )@,
            old(self.resources)@.contains_key(self.id) ==> exists|m: &mut R|
                {
                    &&& *m == old(self.resources)@[self.id]
                    &&& #[trigger] f.ensures((m,), ())
                    &&& (*update.resources)@ == old(self.resources)@.insert(self.id, *final(m))
                },
    {
        let id = self.id;
        match self.resources.column.remove(&id) {
            Some(resource) => {
                let mut resource = resource;
                f(&mut resource);
                self.resources.column.insert(id, resource);
            },
            None => {},
        }
        self
    }

    /// Stores `resource` under the id of this update unless a resource is stored there already.
    pub fn or_insert(self, resource: R)
        ensures
            final(self.resources)@ == if old(self.resources)@.contains_key(self.id) {
                old(self.resources)@
            } else {
                old(self.resources)@.insert(self.id, resource)
            },
    {
        if !self.resources.column.contains_key(&self.id) {
            self.resources.column.insert(self.id, resource);
        }
    }
}

/// A store reads back what was last written under an id.
pub proof fn lemma_read_after_write<R>(store: Map<Id, R>, id: Id, resource: R)
    ensures
        stored(store.insert(id, resource), id) == Some(resource),
{
}

/// Writing under one id leaves every other id as it was.
pub proof fn lemma_write_leaves_others<R>(store: Map<Id, R>, id: Id, other: Id, resource: R)
    requires
        id != other,
    ensures
        stored(store.insert(id, resource), other) == stored(store, other),
{
}

/// After a removal nothing is stored under the id, and every other id is as it was.
pub proof fn lemma_remove_clears_only_its_id<R>(store: Map<Id, R>, id: Id, other: Id)
    ensures
        stored(store.remove(id), id) is None,
        id != other ==> stored(store.remove(id), other) == stored(store, other),
{
}

/// Writing under a fresh id and removing it again gives back the store it started from.
pub proof fn lemma_insert_then_remove_restores<R>(store: Map<Id, R>, id: Id, resource: R)
    requires
        !store.contains_key(id),
    ensures
        store.insert(id, resource).remove(id) == store,
{
    assert(store.insert(id, resource).remove(id) =~= store);
}

/// A new store holds nothing.
pub proof fn lemma_new_store_is_empty<R>(id: Id)
    ensures
        stored(Map::<Id, R>::empty(), id) is None,
{
}

/// `contains` and `get` agree: an id is contained exactly when something is stored under it.
pub proof fn lemma_contains_iff_stored<R>(store: Map<Id, R>, id: Id)
    ensures
        store.contains_key(id) <==> stored(store, id) is Some,
{
}

} // verus!
