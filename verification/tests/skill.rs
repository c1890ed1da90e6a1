use rusted_arena::skill::{SkillBuilder, SkillMgr};

fn name_a() -> &'static str {
    "A"
}

fn name_b() -> &'static str {
    "B"
}

fn name_c() -> &'static str {
    "C"
}

fn assert_skill(manager: &SkillMgr, id: usize, name: &str) {
    let skill = manager.get(id);
    assert_eq!(skill.id, id);
    assert_eq!(skill.name, name);
}

#[test]
fn skill_test_get() {
    let manager = SkillBuilder::default()
        .create(name_a().to_string())
        .create(name_b().to_string())
        .build();

    assert_skill(&manager, 0, name_a());
    assert_skill(&manager, 1, name_b());
}

#[test]
fn test_get_id() {
    let manager = SkillBuilder::default()
        .create(name_a().to_string())
        .create(name_b().to_string())
        .build();

    assert_eq!(manager.get_id(name_a()), Some(0));
    assert_eq!(manager.get_id(name_b()), Some(1));
    assert_eq!(manager.get_id(name_c()), None);
}

#[test]
fn test_get_id_last_wins() {
    let manager = SkillMgr::new(vec![
        rusted_arena::skill::Skill { id: 3, name: "T".to_string(), default: None },
        rusted_arena::skill::Skill { id: 8, name: "T".to_string(), default: None },
    ]);

    assert_eq!(manager.get_id("T"), Some(8));
}
