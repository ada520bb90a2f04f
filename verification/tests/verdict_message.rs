use challenges::schemas::coding_challenges::Verdict;
use challenges::services::verdict_message::{
    build_message, sanitize_detail, title_key, ScaledTexts, VerdictMessageContext,
};

fn context(verdict: Verdict) -> VerdictMessageContext {
    VerdictMessageContext {
        verdict,
        reason: None,
        compile_status: None,
        compile_stderr: None,
        run_status: None,
        run_stderr: None,
        run_time_ms: None,
        run_memory_kib: None,
        time_limit_ms: None,
        memory_limit_mb: None,
    }
}

fn scaled() -> ScaledTexts {
    ScaledTexts {
        run_seconds: "1.50".into(),
        limit_seconds: "1.00".into(),
        run_mib: "2.00".into(),
    }
}

fn params(list: &[(&str, &str)]) -> Vec<(String, String)> {
    list.iter().map(|(k, v)| (k.to_string(), v.to_string())).collect()
}

#[test]
fn details_drop_store_paths_and_sandbox_lines() {
    let raw = "  /nix/store/abc-python/bin/python\n\nTraceback:\r\n  in sandkasten runner\n  line 3  \nValueError\nmore\nrest";
    assert_eq!(
        sanitize_detail(raw),
        Some("Traceback:\nline 3\nValueError".to_string())
    );
    assert_eq!(sanitize_detail("   \n/nix/store/x\nuses nix/store"), None);
    assert_eq!(sanitize_detail(""), None);
    assert_eq!(sanitize_detail("only line"), Some("only line".to_string()));
}

#[test]
fn a_time_limit_message_names_both_times() {
    let mut ctx = context(Verdict::TimeLimitExceeded);
    ctx.run_time_ms = Some(1500);
    ctx.time_limit_ms = Some(1000);
    ctx.run_stderr = Some("killed\n".into());
    let message = build_message(ctx, scaled()).unwrap();
    assert_eq!(message.title_key, "Error.Verdict.TIME_LIMIT_EXCEEDED");
    assert_eq!(message.body_key.as_deref(), Some("VerdictHint.TIME_LIMIT_EXCEEDED"));
    assert_eq!(
        message.body_params,
        Some(params(&[
            ("actual_ms", "1500"),
            ("actual_seconds", "1.50"),
            ("limit_ms", "1000"),
            ("limit_seconds", "1.00"),
        ]))
    );
    assert_eq!(message.detail.as_deref(), Some("killed"));
}

#[test]
fn unknown_numbers_are_dashes() {
    let message = build_message(context(Verdict::MemoryLimitExceeded), scaled()).unwrap();
    assert_eq!(
        message.body_params,
        Some(params(&[("actual_kib", "—"), ("actual_mib", "—"), ("limit_mib", "—")]))
    );
    let message = build_message(context(Verdict::NoOutput), scaled()).unwrap();
    assert_eq!(message.body_params, Some(params(&[("actual_seconds", "—")])));
    let message = build_message(context(Verdict::RuntimeError), scaled()).unwrap();
    assert_eq!(message.body_params, Some(params(&[("exit_code", "?")])));
}

#[test]
fn an_exit_code_is_printed_with_its_sign() {
    let mut ctx = context(Verdict::CompilationError);
    ctx.compile_status = Some(-11);
    ctx.compile_stderr = Some("error: expected `;`".into());
    let message = build_message(ctx, scaled()).unwrap();
    assert_eq!(message.body_params, Some(params(&[("exit_code", "-11")])));
    assert_eq!(message.detail.as_deref(), Some("error: expected `;`"));
}

#[test]
fn a_wrong_answer_has_no_parameters_and_falls_back_to_error_output() {
    let mut ctx = context(Verdict::WrongAnswer);
    ctx.run_stderr = Some("/nix/store/only".into());
    ctx.compile_stderr = Some("warning: unused".into());
    let message = build_message(ctx, scaled()).unwrap();
    assert_eq!(message.body_params, None);
    assert_eq!(message.detail.as_deref(), Some("warning: unused"));

    let mut ctx = context(Verdict::WrongAnswer);
    ctx.reason = Some("expected 3, got 4".into());
    ctx.compile_stderr = Some("warning: unused".into());
    let message = build_message(ctx, scaled()).unwrap();
    assert_eq!(message.detail.as_deref(), Some("expected 3, got 4"));
}

#[test]
fn every_verdict_has_its_title() {
    assert_eq!(title_key(&Verdict::Accepted), "Error.Verdict.OK");
    assert_eq!(title_key(&Verdict::PreCheckFailed), "Error.Verdict.PRE_CHECK_FAILED");
    let message = build_message(context(Verdict::Accepted), scaled()).unwrap();
    assert_eq!(message.body_key.as_deref(), Some("VerdictHint.OK"));
    assert_eq!(message.body_params, None);
    assert_eq!(message.detail, None);
}
