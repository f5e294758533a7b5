//! Settings of the long-running tests.
use shepherd::testing::{
    InvalidSetting, RuntimeFlavor, SettingProblem, StressConfig, StressMode, TestEnvironment,
    CGROUP_ROOT, PROPERTY_CASES, SOAK_ROUNDS, SOAK_RSS_BUDGET_MIB, STRESS_ITERATIONS,
    STRESS_RUNTIME, STRESS_SEED,
};
use shepherd::NativeString;

fn env(entries: &[(&'static str, &str)]) -> TestEnvironment {
    TestEnvironment::new(
        entries.iter().map(|(key, value)| (*key, NativeString::new(value))).collect(),
    )
}

#[test]
fn defaults_and_runtime_selection() {
    let empty = env(&[]);
    assert_eq!(
        empty.stress(StressMode::Long).unwrap(),
        StressConfig {
            seed: 42,
            runtimes: vec![RuntimeFlavor::Current, RuntimeFlavor::Multi],
            iterations: 2000
        }
    );
    assert_eq!(empty.property_cases().unwrap(), 64);
    for (name, flavor) in [("current", RuntimeFlavor::Current), ("multi", RuntimeFlavor::Multi)] {
        assert_eq!(
            env(&[(STRESS_RUNTIME, name)]).stress(StressMode::Smoke).unwrap().runtimes,
            [flavor]
        );
    }
    assert_eq!(
        env(&[(STRESS_RUNTIME, "both")]).stress(StressMode::Smoke).unwrap().runtimes,
        [RuntimeFlavor::Current, RuntimeFlavor::Multi]
    );
}

#[test]
fn boundaries_and_smoke_isolation() {
    for iterations in ["6", "100000"] {
        let config = env(&[
            (STRESS_ITERATIONS, iterations),
            (STRESS_SEED, "18446744073709551615"),
        ])
        .stress(StressMode::Long)
        .unwrap();
        assert_eq!(config.iterations.to_string(), iterations);
        assert_eq!(config.seed, u64::MAX);
    }
    assert_eq!(
        env(&[(STRESS_ITERATIONS, "invalid")]).stress(StressMode::Smoke).unwrap().iterations,
        36
    );
    assert_eq!(env(&[(PROPERTY_CASES, "4294967295")]).property_cases().unwrap(), u32::MAX);
    assert_eq!(
        env(&[(CGROUP_ROOT, "/tmp/\u{7f8a} space")]).cgroup_root().unwrap(),
        &NativeString::new("/tmp/\u{7f8a} space")
    );
}

#[test]
fn soak_defaults_boundaries_and_isolation() {
    let defaults = env(&[]).soak(StressMode::Long).unwrap();
    assert_eq!(defaults.rounds, 200);
    assert_eq!(defaults.rss_budget_bytes, 64 * 1024 * 1024);
    for rounds in ["6", "100000"] {
        let config = env(&[(SOAK_ROUNDS, rounds), (STRESS_SEED, "18446744073709551615")])
            .soak(StressMode::Long)
            .unwrap();
        assert_eq!(config.rounds.to_string(), rounds);
        assert_eq!(config.seed, u64::MAX);
    }
    for budget in ["1", "1024"] {
        assert_eq!(
            env(&[(SOAK_RSS_BUDGET_MIB, budget)])
                .soak(StressMode::Smoke)
                .unwrap()
                .rss_budget_bytes,
            budget.parse::<u64>().unwrap() * 1024 * 1024
        );
    }
    assert_eq!(
        env(&[(SOAK_ROUNDS, "invalid"), (STRESS_ITERATIONS, "invalid")])
            .soak(StressMode::Smoke)
            .unwrap()
            .rounds,
        6
    );
    for (key, value) in [
        (SOAK_ROUNDS, "5"),
        (SOAK_ROUNDS, "100001"),
        (SOAK_ROUNDS, "bad"),
        (SOAK_RSS_BUDGET_MIB, "0"),
        (SOAK_RSS_BUDGET_MIB, "1025"),
        (SOAK_RSS_BUDGET_MIB, ""),
    ] {
        let error = env(&[(key, value)])
            .soak(StressMode::Long)
            .expect_err("invalid soak setting must fail");
        assert_eq!(error.variable, key);
    }
}

#[test]
fn invalid_settings_identify_the_variable() {
    for (key, value) in [
        (STRESS_ITERATIONS, "5"),
        (STRESS_ITERATIONS, "100001"),
        (STRESS_SEED, "18446744073709551616"),
        (STRESS_SEED, "-1"),
        (STRESS_RUNTIME, "typo"),
        (PROPERTY_CASES, "0"),
        (PROPERTY_CASES, "4294967296"),
        (PROPERTY_CASES, ""),
        (CGROUP_ROOT, ""),
    ] {
        let config = env(&[(key, value)]);
        let error = match key {
            PROPERTY_CASES => config.property_cases().map(|_| ()),
            CGROUP_ROOT => config.cgroup_root().map(|_| ()),
            _ => config.stress(StressMode::Long).map(|_| ()),
        }
        .expect_err("invalid configuration must fail");
        assert_eq!(error.variable, key);
    }
}

#[test]
fn each_problem_has_its_own_kind() {
    assert_eq!(
        env(&[(STRESS_RUNTIME, "typo")]).stress(StressMode::Smoke).unwrap_err(),
        InvalidSetting { variable: STRESS_RUNTIME, problem: SettingProblem::UnknownRuntime }
    );
    assert_eq!(
        env(&[(STRESS_SEED, "x")]).stress(StressMode::Smoke).unwrap_err(),
        InvalidSetting { variable: STRESS_SEED, problem: SettingProblem::NotANumber }
    );
    assert_eq!(
        env(&[(STRESS_ITERATIONS, "5")]).stress(StressMode::Long).unwrap_err(),
        InvalidSetting { variable: STRESS_ITERATIONS, problem: SettingProblem::OutOfBounds }
    );
    assert_eq!(
        env(&[]).cgroup_root().unwrap_err(),
        InvalidSetting { variable: CGROUP_ROOT, problem: SettingProblem::Missing }
    );
}

#[test]
#[should_panic(expected = "SHEPHERD_CGROUP_ROOT")]
fn privileged_tests_require_explicit_root() {
    env(&[]).cgroup_root().unwrap();
}

#[test]
fn native_paths_survive_but_numeric_non_unicode_fails() {
    let raw = NativeString { bytes: vec![b'/', 0xff] };
    let config =
        TestEnvironment::new(vec![(CGROUP_ROOT, raw.clone()), (PROPERTY_CASES, raw.clone())]);
    assert_eq!(config.cgroup_root().unwrap(), &raw);
    assert_eq!(
        config.property_cases().unwrap_err(),
        InvalidSetting { variable: PROPERTY_CASES, problem: SettingProblem::NotUnicode }
    );
}

#[test]
fn the_first_value_of_a_name_counts() {
    let config = env(&[(PROPERTY_CASES, "3"), (PROPERTY_CASES, "4")]);
    assert_eq!(config.property_cases().unwrap(), 3);
    assert_eq!(env(&[(PROPERTY_CASES, "+5")]).property_cases().unwrap(), 5);
}
