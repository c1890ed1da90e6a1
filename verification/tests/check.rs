use rusted_arena::check::{check_with_rolls, CheckResult, Checker, RandomChecker};

fn assert_check(value: i32, difficulty: i32, p: i32, n: i32, result: CheckResult) {
    assert_eq!(check_with_rolls(value, difficulty, p, n), result);
}

#[test]
fn test() {
    assert_check(0, 0, 1, 1, CheckResult::Success(0));
    assert_check(1, 0, 1, 1, CheckResult::Success(1));
    assert_check(0, 2, 1, 1, CheckResult::Failure(2));
    assert_check(0, 0, 4, 1, CheckResult::Success(3));
    assert_check(0, 0, 1, 5, CheckResult::Failure(4));
}

#[test]
fn test_random_checker_margin_bounds() {
    let checker = RandomChecker::new(6);

    for _ in 0..32 {
        match checker.check(5, 0) {
            CheckResult::Success(margin) => assert!(margin <= 10),
            CheckResult::Failure(margin) => {
                // value 5 against difficulty 0 with d6 dice cannot fail
                panic!("impossible margin {}", margin)
            },
        }
    }
}
