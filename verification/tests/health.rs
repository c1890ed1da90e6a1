use rusted_arena::ecs::component::Component;
use rusted_arena::health::{Health, HealthState};

#[test]
fn health_test_get_component_type() {
    assert_eq!(Health::get_component_type(), "Health");
}

#[test]
fn test_default() {
    let health = Health::default();

    assert_eq!(health.state, HealthState::Healthy);
    assert_eq!(health.penalty, 0);
}

#[test]
fn test_get_worse() {
    assert_eq!(HealthState::Healthy.get_worse(), HealthState::Reeling);
    assert_eq!(HealthState::Reeling.get_worse(), HealthState::Unconsciousness);
    assert_eq!(HealthState::Unconsciousness.get_worse(), HealthState::Dead);
    assert_eq!(HealthState::Dead.get_worse(), HealthState::Dead);
}
