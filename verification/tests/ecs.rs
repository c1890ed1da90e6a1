use rusted_arena::ecs::storage::ComponentStorage;
use rusted_arena::ecs::testing::{ComponentA, ComponentB};
use rusted_arena::ecs::ECS;

fn a() -> ComponentA {
    ComponentA { value: 10 }
}

fn b() -> ComponentB {
    ComponentB { value: 20 }
}

#[test]
fn test_create_entity_with_components() {
    let mut ecs = ECS::new();

    ecs.get_storage_mgr_mut().register::<ComponentA>();
    ecs.get_storage_mgr_mut().register::<ComponentB>();

    let entity = ecs.create_entity().with(a()).with(b()).get_entity();

    assert_eq!(ecs.get_storage_mgr().get::<ComponentA>().get(entity), Some(&a()));
    assert_eq!(ecs.get_storage_mgr().get::<ComponentB>().get(entity), Some(&b()));
}

#[test]
fn test_id_increases() {
    let mut ecs = ECS::new();

    assert_eq!(ecs.create_entity().get_entity(), 0);
    assert_eq!(ecs.create_entity().get_entity(), 1);
    assert_eq!(ecs.create_entity().get_entity(), 2);
}

#[test]
fn test_get_entities() {
    let mut ecs = ECS::new();

    ecs.create_entity().get_entity();
    ecs.create_entity().get_entity();
    ecs.create_entity().get_entity();

    assert_eq!(ecs.get_entities(), &[0, 1, 2]);
}

#[test]
fn test_get_entities_of_2() {
    let mut ecs = ECS::new();

    ecs.get_storage_mgr_mut().register::<ComponentA>();
    ecs.get_storage_mgr_mut().register::<ComponentB>();

    ecs.create_entity().with(a()).get_entity();
    ecs.create_entity().with(b()).get_entity();
    ecs.create_entity().with(a()).with(b()).get_entity();

    assert_eq!(ecs.get_entities_of_2::<ComponentA, ComponentB>(), vec![2]);
}

#[test]
fn mod_test_remove_entity() {
    let mut ecs = ECS::new();

    ecs.create_entity().get_entity();
    ecs.create_entity().get_entity();
    ecs.create_entity().get_entity();
    ecs.remove_entity(1);

    assert_eq!(ecs.get_entities(), &[0, 2]);
}

#[test]
fn test_unwrap_component() {
    let mut ecs = ECS::new();

    ecs.get_storage_mgr_mut().register::<ComponentA>();

    let entity = ecs.create_entity().with(a()).get_entity();

    assert_eq!(ecs.unwrap_component::<ComponentA>(entity), &a());
}

#[test]
fn test_unwrap_component_mut() {
    let mut ecs = ECS::new();

    ecs.get_storage_mgr_mut().register::<ComponentA>();

    let entity = ecs.create_entity().with(a()).get_entity();

    ecs.unwrap_component_mut::<ComponentA>(entity).value += 2;

    assert_eq!(ecs.unwrap_component::<ComponentA>(entity).value, 12);
}

#[test]
fn test_put_get_data() {
    let data: u32 = 56;
    let mut ecs = ECS::new();

    ecs.put(data);

    assert_eq!(ecs.get::<u32>(), &data);
}

#[test]
fn test_get_entities_of_2_order() {
    let mut ecs = ECS::new();

    ecs.get_storage_mgr_mut().register::<ComponentA>();
    ecs.get_storage_mgr_mut().register::<ComponentB>();

    ecs.create_entity().with(a()).get_entity();
    ecs.create_entity().with(b()).get_entity();
    ecs.create_entity().with(a()).with(b()).get_entity();
    ecs.create_entity().with(a()).with(b()).get_entity();

    assert_eq!(ecs.get_entities_of_2::<ComponentA, ComponentB>(), vec![2, 3]);
}
