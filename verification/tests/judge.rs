use challenges::schemas::coding_challenges::{CheckResult, ResourceUsage, RunResult, RunSummary, Verdict};
use challenges::services::judge::{
    checked_verdict, example_of, java_env_vars, judged, needs_evaluation, random_seeds, resource_verdict, run_time_limit,
    run_verdict, test_seeds, JudgeStep,
};

#[test]
fn a_run_gets_the_seconds_begun_plus_one() {
    assert_eq!(run_time_limit(Some(0)), Some(1));
    assert_eq!(run_time_limit(Some(999)), Some(1));
    assert_eq!(run_time_limit(Some(1000)), Some(2));
    assert_eq!(run_time_limit(None), None);
}

#[test]
fn resource_verdicts_are_checked_in_order() {
    assert_eq!(
        resource_verdict(Some(100), Some(1), 101, 5000, 1, ""),
        Some(Verdict::TimeLimitExceeded)
    );
    assert_eq!(
        resource_verdict(Some(100), Some(1), 100, 2048, 1, ""),
        Some(Verdict::MemoryLimitExceeded)
    );
    assert_eq!(resource_verdict(Some(100), Some(2), 100, 2048 + 1023, 1, "x"), Some(Verdict::RuntimeError));
    assert_eq!(resource_verdict(None, None, 5, 5, 0, ""), Some(Verdict::NoOutput));
    assert_eq!(resource_verdict(None, None, 5, 5, 0, "42\n"), None);
}

#[test]
fn an_example_run_is_checked_before_the_evaluator() {
    assert_eq!(run_verdict(3, "out"), Some(Verdict::RuntimeError));
    assert_eq!(run_verdict(0, ""), Some(Verdict::NoOutput));
    assert_eq!(run_verdict(0, "out"), None);
    assert_eq!(checked_verdict(true), Verdict::Accepted);
    assert_eq!(checked_verdict(false), Verdict::WrongAnswer);
}

#[test]
fn only_an_accepted_run_yields_an_example() {
    let example = example_of("seed", "1 2".into(), Verdict::Accepted, Some(("3".into(), "".into()))).unwrap();
    assert_eq!(example.id, "seed");
    assert_eq!(example.input, "1 2");
    assert_eq!(example.output, "3");
    assert_eq!(example.explanation, None);
    let example = example_of("s", "i".into(), Verdict::Accepted, Some(("o".into(), "why".into()))).unwrap();
    assert_eq!(example.explanation.as_deref(), Some("why"));
    assert!(example_of("s", "i".into(), Verdict::WrongAnswer, Some(("o".into(), "".into()))).is_none());
    assert!(example_of("s", "i".into(), Verdict::Accepted, None).is_none());
}

#[test]
fn seeds_are_examples_then_static_then_random() {
    let id = uuid::Uuid::parse_str("67e55044-10b1-426f-9247-bb680e5fe0c8").unwrap();
    let seeds = test_seeds(vec!["a".into()], 2, id.as_u128(), vec!["r".into()]);
    assert_eq!(
        seeds,
        vec![
            "a".to_string(),
            "_static_0_67e55044-10b1-426f-9247-bb680e5fe0c8".to_string(),
            "_static_1_67e55044-10b1-426f-9247-bb680e5fe0c8".to_string(),
            "r".to_string(),
        ]
    );
}

#[test]
fn random_seeds_are_version_four_uuids() {
    let seeds = random_seeds(3);
    assert_eq!(seeds.len(), 3);
    for seed in &seeds {
        let id = uuid::Uuid::parse_str(seed).unwrap();
        assert_eq!(id.get_version_num(), 4);
        assert_eq!(id.get_variant(), uuid::Variant::RFC4122);
        assert_eq!(&id.to_string(), seed);
    }
    assert_ne!(seeds[0], seeds[1]);
}

fn finished(status: i32, stdout: &str, stderr: &str, time: u64, memory: u64) -> RunResult {
    RunResult {
        status,
        stdout: stdout.into(),
        stderr: stderr.into(),
        resource_usage: ResourceUsage { time, memory },
    }
}

#[test]
fn a_failed_pre_check_gives_its_reason_and_no_steps() {
    let step = JudgeStep::PreCheckFailed("imports are not allowed".into());
    assert!(!needs_evaluation(&step, Some(1000), Some(64)));
    let (result, context) = judged(step, Some(1000), Some(64), None);
    assert_eq!(result.verdict, Verdict::PreCheckFailed);
    assert_eq!(result.reason.as_deref(), Some("imports are not allowed"));
    assert!(result.compile.is_none() && result.run.is_none());
    assert_eq!(context.verdict, Verdict::PreCheckFailed);
    assert_eq!(context.reason.as_deref(), Some("imports are not allowed"));
    assert_eq!(context.run_status, None);
    assert_eq!(context.time_limit_ms, Some(1000));
    assert_eq!(context.memory_limit_mb, Some(64));
}

#[test]
fn a_compile_error_gives_the_build_and_no_run() {
    let step = JudgeStep::CompileError(finished(1, "", "syntax error", 5, 2048));
    assert!(!needs_evaluation(&step, None, None));
    let (result, context) = judged(step, None, None, None);
    assert_eq!(result.verdict, Verdict::CompilationError);
    assert_eq!(result.reason, None);
    assert_eq!(result.compile.as_ref().map(|b| b.stderr.as_str()), Some("syntax error"));
    assert!(result.run.is_none());
    assert_eq!(context.compile_status, Some(1));
    assert_eq!(context.compile_stderr.as_deref(), Some("syntax error"));
    assert_eq!(context.run_stderr, None);
}

#[test]
fn a_run_over_its_limits_is_judged_without_the_evaluator() {
    let slow = JudgeStep::Ran { build: None, run: finished(0, "42", "", 1500, 1024) };
    assert!(!needs_evaluation(&slow, Some(1000), Some(64)));
    let (result, context) = judged(slow, Some(1000), Some(64), None);
    assert_eq!(result.verdict, Verdict::TimeLimitExceeded);
    assert_eq!(result.reason, None);
    assert_eq!(context.run_time_ms, Some(1500));
    assert_eq!(context.run_memory_kib, Some(1024));
    assert_eq!(context.run_status, Some(0));

    let silent = JudgeStep::Ran { build: Some(finished(0, "", "warning", 3, 10)), run: finished(0, "", "", 1, 10) };
    assert!(!needs_evaluation(&silent, None, None));
    let (result, context) = judged(silent, None, None, Some((Verdict::Accepted, None)));
    assert_eq!(result.verdict, Verdict::NoOutput);
    assert_eq!(context.compile_status, Some(0));
    assert_eq!(context.compile_stderr.as_deref(), Some("warning"));
}

#[test]
fn an_evaluated_run_takes_the_evaluators_verdict_and_reason() {
    let step = JudgeStep::Ran { build: None, run: finished(0, "41", "debug", 10, 2048) };
    assert!(needs_evaluation(&step, Some(1000), Some(64)));
    let (result, context) =
        judged(step, Some(1000), Some(64), Some((Verdict::WrongAnswer, Some("expected 42".into()))));
    assert_eq!(result.verdict, Verdict::WrongAnswer);
    assert_eq!(result.reason.as_deref(), Some("expected 42"));
    assert_eq!(result.run.as_ref().map(|r| r.stdout.as_str()), Some("41"));
    assert_eq!(context.verdict, Verdict::WrongAnswer);
    assert_eq!(context.reason.as_deref(), Some("expected 42"));
    assert_eq!(context.run_stderr.as_deref(), Some("debug"));

    let summary: CheckResult<RunSummary> = CheckResult::from(result);
    assert_eq!(summary.verdict, Verdict::WrongAnswer);
    assert_eq!(summary.reason.as_deref(), Some("expected 42"));
    let run = summary.run.unwrap();
    assert_eq!(run.status, 0);
    assert_eq!(run.stderr, "debug");
    assert_eq!(run.resource_usage, ResourceUsage { time: 10, memory: 2048 });
    assert!(summary.compile.is_none());
}

#[test]
fn a_java_run_gets_heap_and_arena_settings() {
    // 60% of 256 MiB is 153.6, rounded 154; the limit less 16 is 240.
    let vars = java_env_vars("Java21", Some(256), 154);
    assert_eq!(
        vars,
        vec![
            (
                "JAVA_TOOL_OPTIONS".to_string(),
                "-Xms77m -Xmx154m -Xss256k -XX:ThreadStackSize=256 -XX:+UseSerialGC".to_string()
            ),
            ("MALLOC_ARENA_MAX".to_string(), "2".to_string()),
        ]
    );
    // 60% of 64 is 38: at most 48, at least 32; the initial heap at least 16.
    let small = java_env_vars("java", Some(64), 38);
    assert_eq!(small[0].1, "-Xms19m -Xmx38m -Xss256k -XX:ThreadStackSize=256 -XX:+UseSerialGC");
    let floor = java_env_vars("java", Some(64), 20);
    assert_eq!(floor[0].1, "-Xms16m -Xmx32m -Xss256k -XX:ThreadStackSize=256 -XX:+UseSerialGC");
    let capped = java_env_vars("java", Some(100), 95);
    assert_eq!(capped[0].1, "-Xms42m -Xmx84m -Xss256k -XX:ThreadStackSize=256 -XX:+UseSerialGC");
}

#[test]
fn a_java_run_without_a_usable_limit_gets_no_heap_settings() {
    let none = java_env_vars("JAVA", None, 0);
    assert_eq!(none[0].1, "-Xss256k -XX:ThreadStackSize=256 -XX:+UseSerialGC");
    let tiny = java_env_vars("java", Some(63), 38);
    assert_eq!(tiny[0].1, "-Xss256k -XX:ThreadStackSize=256 -XX:+UseSerialGC");
    assert_eq!(tiny.len(), 2);
}

#[test]
fn other_environments_get_no_variables() {
    assert!(java_env_vars("python", Some(256), 154).is_empty());
    assert!(java_env_vars("jav", Some(256), 154).is_empty());
    assert!(java_env_vars("rust-java", Some(256), 154).is_empty());
}
