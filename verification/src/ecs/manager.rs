use vstd::prelude::*;
use crate::body::Body;
use crate::ecs::component::{opt_contents, Component};
use crate::ecs::storage::{ComponentMap, ComponentStorage};
use crate::ecs::testing::{ComponentA, ComponentB};
use crate::health::Health;
use crate::stats::Stats;

verus! {

/// The registered storages, one optional slot per component type, each seen
/// as its mapping from entity id to component value.
pub struct StorageMgrView {
    pub bodies: Option<Map<usize, Body>>,
    pub healths: Option<Map<usize, Health>>,
    pub stats: Option<Map<usize, Stats>>,
    pub alphas: Option<Map<usize, ComponentA>>,
    pub betas: Option<Map<usize, ComponentB>>,
}

impl StorageMgrView {
    /// No component type registered yet.
    pub open spec fn empty() -> StorageMgrView {
        StorageMgrView { bodies: None, healths: None, stats: None, alphas: None, betas: None }
    }
}

/// The registry of component storages: one slot per component type, filled
/// by [`StorageMgr::register`] before the type is first used.
pub struct StorageMgr {
    bodies: Option<ComponentMap<Body>>,
    healths: Option<ComponentMap<Health>>,
    stats: Option<ComponentMap<Stats>>,
    alphas: Option<ComponentMap<ComponentA>>,
    betas: Option<ComponentMap<ComponentB>>,
}

impl StorageMgr {
    /// The registered storages by component type.
    pub closed spec fn view(self) -> StorageMgrView {
        StorageMgrView {
            bodies: opt_contents(self.bodies),
            healths: opt_contents(self.healths),
            stats: opt_contents(self.stats),
            alphas: opt_contents(self.alphas),
            betas: opt_contents(self.betas),
        }
    }

    /// A storage for the component type `C` is registered.
    pub open spec fn registered<C: Component>(self) -> bool {
        C::sel(self@) is Some
    }

    /// The storage of the component type `C`, as its mapping from entity id
    /// to component value.
    pub open spec fn storage_view<C: Component>(self) -> Map<usize, C> {
        C::sel(self@)->Some_0
    }

    /// A registry with no storage registered.
    pub fn new() -> (r: Self)
        ensures
            r@ == StorageMgrView::empty(),
    {
        StorageMgr { bodies: None, healths: None, stats: None, alphas: None, betas: None }
    }

    /// Create the storage for the component type `C`, which must not be
    /// registered yet. No other slot changes.
    pub fn register<C: Component>(&mut self)
        requires
            !old(self).registered::<C>(),
        ensures
            final(self)@ == C::upd(old(self)@, Some(Map::<usize, C>::empty())),
            final(self).registered::<C>(),
            final(self).storage_view::<C>() == Map::<usize, C>::empty(),
    {
        let slot = C::slot_mut(self);
        *slot = Some(<C as Component>::Storage::new());
        proof {
            C::sel_upd(old(self)@, Some(Map::<usize, C>::empty()));
        }
    }

    /// The storage of the registered component type `C`.
    pub fn get<C: Component>(&self) -> (r: &C::Storage)
        requires
            self.registered::<C>(),
        ensures
            r.contents() == self.storage_view::<C>(),
    {
        match C::slot(self) {
            Some(storage) => storage,
            None => unreached(),
        }
    }

    /// Mutable access to the storage of the registered component type `C`.
    /// What the caller does through it is reflected in this slot alone.
    pub fn get_mut<C: Component>(&mut self) -> (r: &mut C::Storage)
        requires
            old(self).registered::<C>(),
        ensures
            r.contents() == old(self).storage_view::<C>(),
            final(self)@ == C::upd(old(self)@, Some(final(r).contents())),
    {
        let slot = C::slot_mut(self);
        match slot {
            Some(storage) => storage,
            None => unreached(),
        }
    }
}


impl Component for Body {
    type Storage = ComponentMap<Body>;

    open spec fn sel(v: StorageMgrView) -> Option<Map<usize, Body>> {
        v.bodies
    }

    open spec fn upd(v: StorageMgrView, s: Option<Map<usize, Body>>) -> StorageMgrView {
        StorageMgrView { bodies: s, ..v }
    }

    proof fn sel_upd(v: StorageMgrView, s: Option<Map<usize, Self>>) {
    }

    open spec fn component_name() -> Seq<char> {
        "Body"@
    }

    fn get_component_type() -> (r: &'static str) {
        "Body"
    }

    fn slot(mgr: &StorageMgr) -> (r: &Option<ComponentMap<Body>>) {
        &mgr.bodies
    }

    fn slot_mut(mgr: &mut StorageMgr) -> (r: &mut Option<ComponentMap<Body>>) {
        &mut mgr.bodies
    }
}

impl Component for Health {
    type Storage = ComponentMap<Health>;

    open spec fn sel(v: StorageMgrView) -> Option<Map<usize, Health>> {
        v.healths
    }

    open spec fn upd(v: StorageMgrView, s: Option<Map<usize, Health>>) -> StorageMgrView {
        StorageMgrView { healths: s, ..v }
    }

    proof fn sel_upd(v: StorageMgrView, s: Option<Map<usize, Self>>) {
    }

    open spec fn component_name() -> Seq<char> {
        "Health"@
    }

    fn get_component_type() -> (r: &'static str) {
        "Health"
    }

    fn slot(mgr: &StorageMgr) -> (r: &Option<ComponentMap<Health>>) {
        &mgr.healths
    }

    fn slot_mut(mgr: &mut StorageMgr) -> (r: &mut Option<ComponentMap<Health>>) {
        &mut mgr.healths
    }
}

impl Component for Stats {
    type Storage = ComponentMap<Stats>;

    open spec fn sel(v: StorageMgrView) -> Option<Map<usize, Stats>> {
        v.stats
    }

    open spec fn upd(v: StorageMgrView, s: Option<Map<usize, Stats>>) -> StorageMgrView {
        StorageMgrView { stats: s, ..v }
    }

    proof fn sel_upd(v: StorageMgrView, s: Option<Map<usize, Self>>) {
    }

    open spec fn component_name() -> Seq<char> {
        "Stats"@
    }

    fn get_component_type() -> (r: &'static str) {
        "Stats"
    }

    fn slot(mgr: &StorageMgr) -> (r: &Option<ComponentMap<Stats>>) {
        &mgr.stats
    }

    fn slot_mut(mgr: &mut StorageMgr) -> (r: &mut Option<ComponentMap<Stats>>) {
        &mut mgr.stats
    }
}

impl Component for ComponentA {
    type Storage = ComponentMap<ComponentA>;

    open spec fn sel(v: StorageMgrView) -> Option<Map<usize, ComponentA>> {
        v.alphas
    }

    open spec fn upd(v: StorageMgrView, s: Option<Map<usize, ComponentA>>) -> StorageMgrView {
        StorageMgrView { alphas: s, ..v }
    }

    proof fn sel_upd(v: StorageMgrView, s: Option<Map<usize, Self>>) {
    }

    open spec fn component_name() -> Seq<char> {
        "A"@
    }

    fn get_component_type() -> (r: &'static str) {
        "A"
    }

    fn slot(mgr: &StorageMgr) -> (r: &Option<ComponentMap<ComponentA>>) {
        &mgr.alphas
    }

    fn slot_mut(mgr: &mut StorageMgr) -> (r: &mut Option<ComponentMap<ComponentA>>) {
        &mut mgr.alphas
    }
}

impl Component for ComponentB {
    type Storage = ComponentMap<ComponentB>;

    open spec fn sel(v: StorageMgrView) -> Option<Map<usize, ComponentB>> {
        v.betas
    }

    open spec fn upd(v: StorageMgrView, s: Option<Map<usize, ComponentB>>) -> StorageMgrView {
        StorageMgrView { betas: s, ..v }
    }

    proof fn sel_upd(v: StorageMgrView, s: Option<Map<usize, Self>>) {
    }

    open spec fn component_name() -> Seq<char> {
        "B"@
    }

    fn get_component_type() -> (r: &'static str) {
        "B"
    }

    fn slot(mgr: &StorageMgr) -> (r: &Option<ComponentMap<ComponentB>>) {
        &mgr.betas
    }

    fn slot_mut(mgr: &mut StorageMgr) -> (r: &mut Option<ComponentMap<ComponentB>>) {
        &mut mgr.betas
    }
}

} // verus!
