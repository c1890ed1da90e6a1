use rusted_arena::ecs::component::Component;
use rusted_arena::skill::Skill;
use rusted_arena::stats::{Stats, StatsBuilder};

fn create_a() -> Skill {
    Skill { id: 0, name: "A".to_string(), default: None }
}

fn create_b() -> Skill {
    Skill { id: 1, name: "B".to_string(), default: Some(-3) }
}

#[test]
fn stats_test_get_component_type() {
    assert_eq!(Stats::get_component_type(), "Stats");
}

#[test]
fn test_get_skill_rank() {
    let skill_a = create_a();
    let skill_b = create_b();
    let stats = StatsBuilder::default()
        .add_skill(&skill_a, 6)
        .add_skill(&skill_b, 7)
        .build();

    assert_eq!(stats.get_skill_rank(&skill_a), Some(6));
    assert_eq!(stats.get_skill_rank(&skill_b), Some(7));
}

#[test]
fn test_get_skill_rank_default() {
    let skill_a = create_a();
    let skill_b = create_b();
    let stats = StatsBuilder::default().build();

    assert_eq!(stats.get_skill_rank(&skill_a), None);
    assert_eq!(stats.get_skill_rank(&skill_b), Some(-3));
}

#[test]
fn test_add_skill_overwrites() {
    let skill_a = create_a();
    let stats = StatsBuilder::default()
        .add_skill(&skill_a, 6)
        .add_skill(&skill_a, 9)
        .build();

    assert_eq!(stats.get_skill_rank(&skill_a), Some(9));
}
