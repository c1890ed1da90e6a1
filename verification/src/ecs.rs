use vstd::prelude::*;
use vstd::seq_lib::group_seq_properties;
use crate::ecs::component::Component;
use crate::ecs::manager::{StorageMgr, StorageMgrView};
use crate::ecs::storage::{kept, ComponentStorage};
use crate::map::TileMap;

pub mod component;
pub mod manager;
pub mod storage;
pub mod system;
pub mod testing;

verus! {

/// The shared values a session keeps beside the entities, one optional
/// slot per type.
pub struct DataStoreView {
    pub number: Option<u32>,
    pub map: Option<TileMap>,
}

/// The blackboard of shared values: one optional slot per type that the
/// session may deposit with [`ECS::put`] and read back with [`ECS::get`].
pub struct DataStore {
    number: Option<u32>,
    map: Option<TileMap>,
}

impl DataStore {
    /// The deposited values by type.
    pub closed spec fn view(self) -> DataStoreView {
        DataStoreView { number: self.number, map: self.map }
    }
}

/// A type of shared value the blackboard has a slot for. The two spec
/// functions name that slot; the two methods reach it.
pub trait SharedData: Sized {
    /// This type's slot of the blackboard view.
    spec fn data_sel(v: DataStoreView) -> Option<Self>;

    /// The blackboard view with this type's slot replaced and every other
    /// slot unchanged.
    spec fn data_upd(v: DataStoreView, s: Option<Self>) -> DataStoreView;

    /// Writing this type's slot and reading it back yields what was
    /// written.
    proof fn data_sel_upd(v: DataStoreView, s: Option<Self>)
        ensures
            Self::data_sel(Self::data_upd(v, s)) == s,
    ;

    /// This type's slot of the blackboard.
    fn data_slot(store: &DataStore) -> (r: &Option<Self>)
        ensures
            *r == Self::data_sel(store@),
    ;

    /// Mutable access to this type's slot of the blackboard.
    fn data_slot_mut(store: &mut DataStore) -> (r: &mut Option<Self>)
        ensures
            *r == Self::data_sel(old(store)@),
            final(store)@ == Self::data_upd(old(store)@, *final(r)),
    ;
}

impl SharedData for u32 {
    open spec fn data_sel(v: DataStoreView) -> Option<u32> {
        v.number
    }

    open spec fn data_upd(v: DataStoreView, s: Option<u32>) -> DataStoreView {
        DataStoreView { number: s, ..v }
    }

    proof fn data_sel_upd(v: DataStoreView, s: Option<u32>) {
    }

    fn data_slot(store: &DataStore) -> (r: &Option<u32>) {
        &store.number
    }

    fn data_slot_mut(store: &mut DataStore) -> (r: &mut Option<u32>) {
        &mut store.number
    }
}

impl SharedData for TileMap {
    open spec fn data_sel(v: DataStoreView) -> Option<TileMap> {
        v.map
    }

    open spec fn data_upd(v: DataStoreView, s: Option<TileMap>) -> DataStoreView {
        DataStoreView { map: s, ..v }
    }

    proof fn data_sel_upd(v: DataStoreView, s: Option<TileMap>) {
    }

    fn data_slot(store: &DataStore) -> (r: &Option<TileMap>) {
        &store.map
    }

    fn data_slot_mut(store: &mut DataStore) -> (r: &mut Option<TileMap>) {
        &mut store.map
    }
}

/// A sequence of entity ids in strictly ascending order.
pub open spec fn sorted_strict(s: Seq<usize>) -> bool {
    forall|i: int, j: int| 0 <= i < j < s.len() ==> s[i] < s[j]
}

/// The sequence `s` without every occurrence of `entity`, in order.
pub open spec fn without(s: Seq<usize>, entity: usize) -> Seq<usize>
    decreases s.len(),
{
    if s.len() == 0 {
        Seq::empty()
    } else if s.last() == entity {
        without(s.drop_last(), entity)
    } else {
        without(s.drop_last(), entity).push(s.last())
    }
}

/// Dropping an id from a sequence extended by one element: the element
/// stays exactly when it is a different id.
pub proof fn lemma_without_push(s: Seq<usize>, entity: usize, x: usize)
    ensures
        without(s.push(x), entity) == if x != entity {
            without(s, entity).push(x)
        } else {
            without(s, entity)
        },
{
    assert(s.push(x).drop_last() =~= s);
    assert(s.push(x).last() == x);
}

/// What dropping an id keeps: elements of the original other than the id,
/// and, of an ascending sequence, still ascending.
pub proof fn lemma_without_props(s: Seq<usize>, entity: usize)
    ensures
        forall|i: int|
            0 <= i < without(s, entity).len() ==> s.contains(#[trigger] without(s, entity)[i])
                && without(s, entity)[i] != entity,
        sorted_strict(s) ==> sorted_strict(without(s, entity)),
    decreases s.len(),
{
    if s.len() > 0 {
        lemma_without_props(s.drop_last(), entity)
;
        let sub = without(s.drop_last(), entity);
        assert forall|i: int|
            0 <= i < without(s, entity).len() implies s.contains(#[trigger] without(s, entity)[i])
            && without(s, entity)[i] != entity by {
            if s.last() == entity || i < sub.len() {
                assert(s.drop_last().contains(sub[i]));
                let j = choose|j: int| 0 <= j < s.drop_last().len() && s.drop_last()[j] == sub[i];
                assert(s[j] == sub[i]);
            } else {
                assert(without(s, entity)[i] == s.last());
                assert(s[s.len() - 1] == s.last());
            }
        }
        if sorted_strict(s) {
            assert(sorted_strict(s.drop_last())) by {
                assert forall|i: int, j: int|
                    0 <= i < j < s.drop_last().len() implies s.drop_last()[i] < s.drop_last()[j] by {
                    assert(s[i] < s[j]);
                }
            }
            if s.last() != entity {
                assert forall|i: int, j: int|
                    0 <= i < j < without(s, entity).len() implies without(s, entity)[i] < without(
                    s,
                    entity,
                )[j] by {
                    if j == without(s, entity).len() - 1 {
                        assert(s.drop_last().contains(sub[i]));
                        let t = choose|t: int|
                            0 <= t < s.drop_last().len() && s.drop_last()[t] == sub[i];
                        assert(s[t] < s.last());
                    } else {
                        assert(sub[i] < sub[j]);
                    }
                }
            }
        }
    }
}

/// The entity registry: the live entity ids in creation order, the
/// monotonic id counter, the component storages, and the blackboard of
/// shared values.
pub struct ECS {
    entities: Vec<usize>,
    next_entity: usize,
    storage_mgr: StorageMgr,
    data: DataStore,
}

/// A builder bound to a freshly created entity, attaching components to it
/// one call at a time.
pub struct EntityBuilder<'a> {
    pub entity: usize,
    pub mgr: &'a mut StorageMgr,
}

impl ECS {
    /// The live entity ids, in creation order.
    pub closed spec fn entities_view(self) -> Seq<usize> {
        self.entities@
    }

    /// The id the next created entity receives.
    pub closed spec fn next_id(self) -> usize {
        self.next_entity
    }

    /// The registered component storages.
    pub closed spec fn storages(self) -> StorageMgrView {
        self.storage_mgr@
    }

    /// The blackboard of shared values.
    pub closed spec fn data_view(self) -> DataStoreView {
        self.data@
    }

    /// A storage for the component type `C` is registered.
    pub open spec fn registered<C: Component>(self) -> bool {
        C::sel(self.storages()) is Some
    }

    /// The storage of the component type `C`, as its mapping from entity id
    /// to component value.
    pub open spec fn storage_view<C: Component>(self) -> Map<usize, C> {
        C::sel(self.storages())->Some_0
    }

    /// Well-formedness: ids are assigned in strictly ascending creation
    /// order, never reused, and stay below the id counter.
    pub open spec fn wf(self) -> bool {
        &&& sorted_strict(self.entities_view())
        &&& forall|i: int|
            0 <= i < self.entities_view().len() ==> #[trigger] self.entities_view()[i]
                < self.next_id()
    }

    /// A fresh registry: no entities, no storages, an empty blackboard, and
    /// ids starting from zero.
    pub fn new() -> (r: ECS)
        ensures
            r.wf(),
            r.entities_view() == Seq::<usize>::empty(),
            r.next_id() == 0,
            r.storages() == StorageMgrView::empty(),
            r.data_view() == (DataStoreView { number: None, map: None }),
    {
        ECS {
            entities: Vec::new(),
            next_entity: 0,
            storage_mgr: StorageMgr::new(),
            data: DataStore { number: None, map: None },
        }
    }

    /// Allocate the next id, append it to the live set, and hand back a
    /// builder bound to it.
    pub fn create_entity(&mut self) -> (r: EntityBuilder<'_>)
        requires
            old(self).next_id() < usize::MAX,
        ensures
            r.entity == old(self).next_id(),
            mut_ref_current(r.mgr)@ == old(self).storages(),
            final(self).entities_view() == old(self).entities_view().push(old(self).next_id()),
            final(self).next_id() == old(self).next_id() + 1,
            final(self).storages() == mut_ref_future(r.mgr)@,
            final(self).data_view() == old(self).data_view(),
            old(self).wf() ==> final(self).wf(),
    {
        let entity = self.next_entity;
        self.entities.push(entity);
        self.next_entity = entity + 1;

        EntityBuilder { entity, mgr: &mut self.storage_mgr }
    }

    /// Drop `entity` from the live set; its components are not purged, and
    /// its id is never reused.
    #[verifier::loop_isolation(false)]
    pub fn remove_entity(&mut self, entity: usize)
        ensures
            final(self).entities_view() == without(old(self).entities_view(), entity),
            final(self).next_id() == old(self).next_id(),
            final(self).storages() == old(self).storages(),
            final(self).data_view() == old(self).data_view(),
            old(self).wf() ==> final(self).wf(),
    {
        let ghost orig = self.entities@;
        let mut result: Vec<usize> = Vec::new();
        let mut i: usize = 0;

        while i < self.entities.len()
            invariant
                self.entities@ == orig,
                0 <= i <= orig.len(),
                result@ == without(orig.take(i as int), entity),
            decreases orig.len() - i,
        {
            let e = self.entities[i];
            proof {
                assert(orig.take(i + 1 as int) =~= orig.take(i as int).push(e));
                lemma_without_push(orig.take(i as int), entity, e);
            }
            if e != entity {
                result.push(e);
            }
            i = i + 1;
        }

        proof {
            assert(orig.take(orig.len() as int) =~= orig);
            if old(self).wf() {
                lemma_without_props(orig, entity);
                assert forall|t: int|
                    0 <= t < without(orig, entity).len() implies #[trigger] without(
                    orig,
                    entity,
                )[t] < old(self).next_id() by {
                    assert(orig.contains(without(orig, entity)[t]));
                    let j = choose|j: int|
                        0 <= j < orig.len() && orig[j] == without(orig, entity)[t];
                }
            }
        }
        self.entities = result;
    }

    /// The live entity ids, in creation order.
    pub fn get_entities(&self) -> (r: &Vec<usize>)
        ensures
            r@ == self.entities_view(),
    {
        &self.entities
    }

    /// The live entities that have both an `A` and a `B` component, in
    /// creation order: the live set filtered by `A`'s storage, then by
    /// `B`'s.
    pub fn get_entities_of_2<A: Component, B: Component>(&self) -> (r: Vec<usize>)
        requires
            self.registered::<A>(),
            self.registered::<B>(),
        ensures
            r@ == kept(
                self.storage_view::<B>(),
                kept(self.storage_view::<A>(), self.entities_view()),
            ),
    {
        let mut entities = copy_ids(&self.entities);
        let storage_a: &A::Storage = self.storage_mgr.get::<A>();
        let storage_b: &B::Storage = self.storage_mgr.get::<B>();

        storage_a.filter(&mut entities);
        storage_b.filter(&mut entities);

        entities
    }

    /// The registry of component storages.
    pub fn get_storage_mgr(&self) -> (r: &StorageMgr)
        ensures
            r@ == self.storages(),
    {
        &self.storage_mgr
    }

    /// Mutable access to the registry of component storages; the rest of
    /// the session is untouched.
    pub fn get_storage_mgr_mut(&mut self) -> (r: &mut StorageMgr)
        ensures
            (*r)@ == old(self).storages(),
            final(self).storages() == (*final(r))@,
            final(self).entities_view() == old(self).entities_view(),
            final(self).next_id() == old(self).next_id(),
            final(self).data_view() == old(self).data_view(),
    {
        &mut self.storage_mgr
    }

    /// The component of type `C` of `entity`, which must have one.
    pub fn unwrap_component<C: Component>(&self, entity: usize) -> (r: &C)
        requires
            self.registered::<C>(),
            self.storage_view::<C>().contains_key(entity),
        ensures
            *r == self.storage_view::<C>()[entity],
    {
        match self.storage_mgr.get::<C>().get(entity) {
            Some(component) => component,
            None => unreached(),
        }
    }

    /// Mutable access to the component of type `C` of `entity`, which must
    /// have one; only that component's slot of that storage changes.
    pub fn unwrap_component_mut<C: Component>(&mut self, entity: usize) -> (r: &mut C)
        requires
            old(self).registered::<C>(),
            old(self).storage_view::<C>().contains_key(entity),
        ensures
            *r == old(self).storage_view::<C>()[entity],
            final(self).storages() == C::upd(
                old(self).storages(),
                Some(old(self).storage_view::<C>().insert(entity, *final(r))),
            ),
            final(self).entities_view() == old(self).entities_view(),
            final(self).next_id() == old(self).next_id(),
            final(self).data_view() == old(self).data_view(),
    {
        let storage: &mut C::Storage = self.storage_mgr.get_mut::<C>();
        match storage.get_mut(entity) {
            Some(component) => component,
            None => unreached(),
        }
    }

    /// Deposit a shared value on the blackboard, replacing an earlier value
    /// of the same type.
    pub fn put<T: SharedData>(&mut self, data: T)
        ensures
            final(self).data_view() == T::data_upd(old(self).data_view(), Some(data)),
            final(self).entities_view() == old(self).entities_view(),
            final(self).next_id() == old(self).next_id(),
            final(self).storages() == old(self).storages(),
    {
        let slot = T::data_slot_mut(&mut self.data);
        *slot = Some(data);
    }

    /// The deposited shared value of type `T`, which must be present.
    pub fn get<T: SharedData>(&self) -> (r: &T)
        requires
            T::data_sel(self.data_view()) is Some,
        ensures
            *r == T::data_sel(self.data_view())->Some_0,
    {
        match T::data_slot(&self.data) {
            Some(data) => data,
            None => unreached(),
        }
    }
}

impl<'a> EntityBuilder<'a> {
    /// The id of the entity this builder is bound to.
    pub fn get_entity(&self) -> (r: usize)
        ensures
            r == self.entity,
    {
        self.entity
    }

    /// Attach `component` to the bound entity; its type must be registered.
    pub fn with<C: Component>(self, component: C) -> (r: Self)
        requires
            mut_ref_current(self.mgr).registered::<C>(),
        ensures
            r.entity == self.entity,
            mut_ref_current(r.mgr)@ == C::upd(
                mut_ref_current(self.mgr)@,
                Some(
                    mut_ref_current(self.mgr).storage_view::<C>().insert(self.entity, component),
                ),
            ),
            mut_ref_future(self.mgr) == mut_ref_future(r.mgr),
    {
        let storage: &mut C::Storage = self.mgr.get_mut::<C>();
        storage.add(self.entity, component);
        self
    }
}

/// A plain copy of a list of entity ids.
#[verifier::loop_isolation(false)]
fn copy_ids(v: &Vec<usize>) -> (r: Vec<usize>)
    ensures
        r@ == v@,
{
    let mut result: Vec<usize> = Vec::new();
    let mut i: usize = 0;

    while i < v.len()
        invariant
            0 <= i <= v@.len(),
            result@ == v@.take(i as int),
        decreases v@.len() - i,
    {
        result.push(v[i]);
        proof {
            assert(v@.take(i + 1 as int) =~= v@.take(i as int).push(v@[i as int]));
        }
        i = i + 1;
    }

    proof {
        assert(v@.take(v@.len() as int) =~= v@);
    }
    result
}

/// Every element of a filtered sequence is an element of the original.
pub proof fn lemma_filter_elements<A>(s: Seq<A>, pred: spec_fn(A) -> bool)
    ensures
        forall|i: int|
            0 <= i < s.filter(pred).len() ==> s.contains(#[trigger] s.filter(pred)[i]),
    decreases s.len(),
{
    reveal(Seq::filter);
    broadcast use group_seq_properties;

    if s.len() > 0 {
        lemma_filter_elements(s.drop_last(), pred);
        assert forall|i: int| 0 <= i < s.filter(pred).len() implies s.contains(
            #[trigger] s.filter(pred)[i],
        ) by {
            let sub = s.drop_last().filter(pred);
            if i < sub.len() {
                assert(s.drop_last().contains(sub[i]));
                let j = choose|j: int| 0 <= j < s.drop_last().len() && s.drop_last()[j] == sub[i];
                assert(s[j] == sub[i]);
            } else {
                assert(s.filter(pred)[i] == s.last());
            }
        }
    }
}

/// Filtering keeps exactly the elements that satisfy the predicate.
pub proof fn lemma_filter_membership<A>(s: Seq<A>, pred: spec_fn(A) -> bool)
    ensures
        forall|x: A| #[trigger]
            s.filter(pred).contains(x) <==> (s.contains(x) && pred(x)),
{
    broadcast use vstd::seq_lib::group_filter_ensures;

    lemma_filter_elements(s, pred);
    assert forall|x: A| #[trigger] s.filter(pred).contains(x) implies (s.contains(x) && pred(
        x,
    )) by {
        let i = choose|i: int| 0 <= i < s.filter(pred).len() && s.filter(pred)[i] == x;
        assert(s.contains(s.filter(pred)[i]));
        assert(pred(s.filter(pred)[i]));
    }
    assert forall|x: A| s.contains(x) && pred(x) implies #[trigger] s.filter(pred).contains(
        x,
    ) by {
        let i = choose|i: int| 0 <= i < s.len() && s[i] == x;
        assert(s.filter(pred).contains(s[i]));
    }
}

/// Filtering a strictly ascending sequence of ids keeps it strictly
/// ascending.
pub proof fn lemma_filter_sorted(s: Seq<usize>, pred: spec_fn(usize) -> bool)
    requires
        sorted_strict(s),
    ensures
        sorted_strict(s.filter(pred)),
    decreases s.len(),
{
    reveal(Seq::filter);
    if s.len() > 0 {
        assert(sorted_strict(s.drop_last())) by {
            assert forall|i: int, j: int|
                0 <= i < j < s.drop_last().len() implies s.drop_last()[i] < s.drop_last()[j] by {
                assert(s[i] < s[j]);
            }
        }
        lemma_filter_sorted(s.drop_last(), pred);
        lemma_filter_elements(s.drop_last(), pred);
        if pred(s.last()) {
            let sub = s.drop_last().filter(pred);
            assert forall|i: int, j: int|
                0 <= i < j < s.filter(pred).len() implies s.filter(pred)[i] < s.filter(
                pred,
            )[j] by {
                if j == s.filter(pred).len() - 1 {
                    assert(s.drop_last().contains(sub[i]));
                    let t = choose|t: int|
                        0 <= t < s.drop_last().len() && s.drop_last()[t] == sub[i];
                    assert(s[t] < s.last());
                } else {
                    assert(sub[i] < sub[j]);
                }
            }
        }
    }
}

/// Filter intersection: the live ids filtered by one storage and then by a
/// second hold exactly the ids live and present in both storages, still in
/// ascending creation order.
pub proof fn lemma_filter_intersection<A, B>(
    ev: Seq<usize>,
    sa: Map<usize, A>,
    sb: Map<usize, B>,
)
    requires
        sorted_strict(ev),
    ensures
        forall|e: usize| #[trigger]
            kept(sb, kept(sa, ev)).contains(e) <==> (ev.contains(e) && sa.contains_key(e)
                && sb.contains_key(e)),
        sorted_strict(kept(sb, kept(sa, ev))),
{
    lemma_filter_membership(ev, |e: usize| sa.contains_key(e));
    lemma_filter_membership(kept(sa, ev), |e: usize| sb.contains_key(e));
    lemma_filter_sorted(ev, |e: usize| sa.contains_key(e));
    lemma_filter_sorted(kept(sa, ev), |e: usize| sb.contains_key(e));
}

} // verus!
