use vstd::prelude::*;
use crate::ecs::manager::{StorageMgr, StorageMgrView};
use crate::ecs::storage::ComponentStorage;

verus! {

/// The contents of an optional storage: its mapping, if the slot is filled.
pub open spec fn opt_contents<C, S: ComponentStorage<C>>(slot: Option<S>) -> Option<
    Map<usize, C>,
> {
    match slot {
        Some(storage) => Some(storage.contents()),
        None => None,
    }
}

/// A component type: a value that can be attached to entities, stored in a
/// storage of its own held in one slot of the [`StorageMgr`]. The two spec
/// functions name that slot; the two methods reach it.
pub trait Component: Sized {
    /// The container this component type is stored in.
    type Storage: ComponentStorage<Self>;

    /// This component type's slot of the registry view.
    spec fn sel(v: StorageMgrView) -> Option<Map<usize, Self>>;

    /// The registry view with this component type's slot replaced and every
    /// other slot unchanged.
    spec fn upd(v: StorageMgrView, s: Option<Map<usize, Self>>) -> StorageMgrView;

    /// Writing this component type's slot and reading it back yields what
    /// was written.
    proof fn sel_upd(v: StorageMgrView, s: Option<Map<usize, Self>>)
        ensures
            Self::sel(Self::upd(v, s)) == s,
    ;

    /// The display name of the component type, as a character sequence.
    spec fn component_name() -> Seq<char>;

    /// The display name of the component type.
    fn get_component_type() -> (r: &'static str)
        ensures
            r@ == Self::component_name(),
    ;

    /// This component type's slot of the registry.
    fn slot(mgr: &StorageMgr) -> (r: &Option<Self::Storage>)
        ensures
            opt_contents(*r) == Self::sel(mgr@),
    ;

    /// Mutable access to this component type's slot of the registry.
    fn slot_mut(mgr: &mut StorageMgr) -> (r: &mut Option<Self::Storage>)
        ensures
            opt_contents(*r) == Self::sel(old(mgr)@),
            final(mgr)@ == Self::upd(old(mgr)@, opt_contents(*final(r))),
    ;
}

} // verus!
