use vstd::prelude::*;
use std::collections::HashMap;

verus! {

/// What a container of one component type must offer: add, lookup, removal,
/// and filtering an entity list down to the entities it holds.
pub trait ComponentStorage<T>: Sized {
    /// The stored components, keyed by entity id.
    spec fn contents(self) -> Map<usize, T>;

    /// An empty storage.
    fn new() -> (r: Self)
        ensures
            r.contents() == Map::<usize, T>::empty(),
    ;

    /// Store `component` for `entity`, overwriting any existing value.
    fn add(&mut self, entity: usize, component: T)
        ensures
            final(self).contents() == old(self).contents().insert(entity, component),
    ;

    /// The component of `entity`, if it has one.
    fn get(&self, entity: usize) -> (r: Option<&T>)
        ensures
            match r {
                Some(c) => self.contents().contains_key(entity) && *c == self.contents()[entity],
                None => !self.contents().contains_key(entity),
            },
    ;

    /// Mutable access to the component of `entity`, if it has one.
    fn get_mut(&mut self, entity: usize) -> (r: Option<&mut T>)
        ensures
            match r {
                Some(c) => {
                    &&& old(self).contents().contains_key(entity)
                    &&& *c == old(self).contents()[entity]
                    &&& final(self).contents() == old(self).contents().insert(
                        entity,
                        *final(c),
                    )
                },
                None => {
                    &&& !old(self).contents().contains_key(entity)
                    &&& final(self).contents() == old(self).contents()
                },
            },
    ;

    /// Take the component of `entity` out, returning the prior value.
    fn remove(&mut self, entity: usize) -> (r: Option<T>)
        ensures
            final(self).contents() == old(self).contents().remove(entity),
            match r {
                Some(c) => old(self).contents().contains_key(entity) && c == old(
                    self,
                ).contents()[entity],
                None => !old(self).contents().contains_key(entity),
            },
    ;

    /// Drop from `entities` every id this storage holds no component for,
    /// keeping the relative order of the rest.
    fn filter(&self, entities: &mut Vec<usize>)
        ensures
            final(entities)@ == kept(self.contents(), old(entities)@),
    ;
}

/// The ids of `s`, in order, for which `m` holds a value.
pub open spec fn kept<T>(m: Map<usize, T>, s: Seq<usize>) -> Seq<usize> {
    s.filter(|e: usize| m.contains_key(e))
}

/// Filtering a sequence extended by one element: the element stays exactly
/// when it satisfies the predicate.
pub proof fn lemma_filter_push<A>(s: Seq<A>, pred: spec_fn(A) -> bool, x: A)
    ensures
        s.push(x).filter(pred) == if pred(x) {
            s.filter(pred).push(x)
        } else {
            s.filter(pred)
        },
{
    reveal(Seq::filter);
    assert(s.push(x).drop_last() =~= s);
    assert(s.push(x).last() == x);
}

/// The default storage: a hash map from entity id to component value.
pub struct ComponentMap<T> {
    components: HashMap<usize, T>,
}

impl<T> ComponentStorage<T> for ComponentMap<T> {
    closed spec fn contents(self) -> Map<usize, T> {
        self.components@
    }

    fn new() -> (r: Self) {
        broadcast use vstd::std_specs::hash::group_hash_axioms;

        ComponentMap { components: HashMap::new() }
    }

    fn add(&mut self, entity: usize, component: T) {
        broadcast use vstd::std_specs::hash::group_hash_axioms;

        self.components.insert(entity, component);
    }

    fn get(&self, entity: usize) -> (r: Option<&T>) {
        broadcast use vstd::std_specs::hash::group_hash_axioms;

        self.components.get(&entity)
    }

    fn get_mut(&mut self, entity: usize) -> (r: Option<&mut T>) {
        broadcast use vstd::std_specs::hash::group_hash_axioms;

        match self.components.entry(entity) {
            std::collections::hash_map::Entry::Occupied(e) => Some(e.into_mut()),
            std::collections::hash_map::Entry::Vacant(_) => None,
        }
    }

    fn remove(&mut self, entity: usize) -> (r: Option<T>) {
        broadcast use vstd::std_specs::hash::group_hash_axioms;

        self.components.remove(&entity)
    }

    #[verifier::loop_isolation(false)]
    fn filter(&self, entities: &mut Vec<usize>) {
        broadcast use vstd::std_specs::hash::group_hash_axioms;

        let ghost orig = entities@;
        let mut result: Vec<usize> = Vec::new();
        let mut i: usize = 0;

        while i < entities.len()
            invariant
                entities@ == orig,
                0 <= i <= orig.len(),
                result@ == kept(self.contents(), orig.take(i as int)),
            decreases orig.len() - i,
        {
            let e = entities[i];
            proof {
                lemma_filter_push(
                    orig.take(i as int),
                    |e: usize| self.contents().contains_key(e),
                    e,
                );
                assert(orig.take(i + 1 as int) =~= orig.take(i as int).push(e));
            }
            if self.components.contains_key(&e) {
                result.push(e);
            }
            i = i + 1;
        }

        proof {
            assert(orig.take(orig.len() as int) =~= orig);
        }
        *entities = result;
    }
}

} // verus!
