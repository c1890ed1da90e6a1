use rusted_arena::ecs::component::Component;
use rusted_arena::ecs::manager::StorageMgr;
use rusted_arena::ecs::storage::{ComponentMap, ComponentStorage};
use rusted_arena::ecs::testing::ComponentA;

fn entity() -> usize {
    42
}

fn component() -> ComponentA {
    ComponentA { value: 6 }
}

#[test]
fn test_add_and_get() {
    let mut storage: ComponentMap<ComponentA> = <ComponentA as Component>::Storage::new();

    storage.add(entity(), component());

    assert_eq!(storage.get(entity()), Some(&component()));
}

#[test]
fn test_add_and_get_mut() {
    let mut storage: ComponentMap<ComponentA> = <ComponentA as Component>::Storage::new();

    storage.add(entity(), component());

    if let Some(component) = storage.get_mut(entity()) {
        component.value = 12;
    }

    assert_eq!(storage.get(entity()), Some(&ComponentA { value: 12 }));
}

#[test]
fn test_get_unknown_entity() {
    let mut storage: ComponentMap<ComponentA> = <ComponentA as Component>::Storage::new();

    assert_eq!(storage.get(entity()), None);
    assert_eq!(storage.get_mut(entity()), None);
}

#[test]
fn test_remove() {
    let mut storage: ComponentMap<ComponentA> = <ComponentA as Component>::Storage::new();

    storage.add(entity(), component());

    assert_eq!(storage.remove(entity()), Some(component()));
    assert_eq!(storage.get(entity()), None);
}

#[test]
fn test_filter() {
    let storage_init: ComponentMap<ComponentA> = <ComponentA as Component>::Storage::new();
    let mut storage = storage_init;
    let mut entities = vec![0, entity(), 100];

    storage.add(entity(), component());
    storage.filter(&mut entities);

    assert_eq!(entities, vec![entity()]);
}

#[test]
fn test_register_and_get() {
    let mut manager = StorageMgr::new();

    manager.register::<ComponentA>();

    let storage = manager.get::<ComponentA>();

    assert_eq!(storage.get(0), None);
}

#[test]
fn test_register_and_get_mut() {
    let mut manager = StorageMgr::new();

    manager.register::<ComponentA>();

    let storage = manager.get_mut::<ComponentA>();

    storage.add(0, ComponentA { value: 5 });
}
