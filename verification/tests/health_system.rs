use rusted_arena::check::{CheckResult, Checker};
use rusted_arena::ecs::ECS;
use rusted_arena::health::{Health, HealthState};
use rusted_arena::health_system::{apply_check_result, Damage, HealthSystem};
use rusted_arena::skill::Skill;
use rusted_arena::stats::{Stats, StatsBuilder};

struct FixedChecker {
    result: CheckResult,
}

impl Checker for FixedChecker {
    fn check(&self, _value: i32, _difficulty: i32) -> CheckResult {
        self.result.clone()
    }
}

fn test_take_damage(
    check_result: CheckResult,
    toughness_rank: i32,
    damage_rank: i32,
    result_state: HealthState,
    result_penalty: u32,
) {
    let fixed = FixedChecker { result: check_result };

    let toughness = Skill { id: 0, name: "T".to_string(), default: None };

    let mut ecs = ECS::new();

    ecs.get_storage_mgr_mut().register::<Health>();
    ecs.get_storage_mgr_mut().register::<Stats>();

    let entity = ecs
        .create_entity()
        .with(Health::default())
        .with(StatsBuilder::default().add_skill(&toughness, toughness_rank).build())
        .get_entity();

    let damage = Damage { rank: damage_rank };

    let system = HealthSystem { checker: &fixed, toughness: &toughness };

    system.take_damage(&mut ecs, entity, &damage);

    let health = ecs.unwrap_component::<Health>(entity);

    assert_eq!(health.state, result_state);
    assert_eq!(health.penalty, result_penalty);
}

#[test]
fn test_take_damage_failure() {
    test_take_damage(CheckResult::Failure(1), 6, 4, HealthState::Healthy, 1)
}

#[test]
fn test_take_damage_success() {
    test_take_damage(CheckResult::Success(1), 6, 4, HealthState::Reeling, 0)
}

#[test]
fn test_apply_check_result_success() {
    let mut health = Health { state: HealthState::Reeling, penalty: 3 };

    apply_check_result(&mut health, &CheckResult::Success(2));

    assert_eq!(health.state, HealthState::Unconsciousness);
    assert_eq!(health.penalty, 3);
}

#[test]
fn test_apply_check_result_failure() {
    let mut health = Health { state: HealthState::Reeling, penalty: 3 };

    apply_check_result(&mut health, &CheckResult::Failure(2));

    assert_eq!(health.state, HealthState::Reeling);
    assert_eq!(health.penalty, 4);
}
