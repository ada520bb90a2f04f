//! The decisions of the coding judge around the sandbox: the limits a run
//! gets, the verdict its resource usage and output give, the example a
//! passing run of a seed yields, the seeds a solution is tested on, and the
//! environment of a Java run.
use vstd::prelude::*;

use crate::ids::{uuid_text, uuid_to_string};
use crate::schemas::coding_challenges::{CheckResult, Example, RunResult, Verdict};
use crate::services::verdict_message::VerdictMessageContext;
use crate::text::{
    ascii_lower, chars_of, decimal, occurs_at_exec, push_decimal, starts_with_text, to_ascii_lowercase,
};
use crate::Uuid;

verus! {

/// The time limit of a run in whole seconds for a limit in milliseconds:
/// the seconds begun, plus one.
pub fn run_time_limit(time_limit_ms: Option<u64>) -> (limit: Option<u64>)
    ensures
        limit == match time_limit_ms {
            Some(ms) => Some((ms / 1000 + 1) as u64),
            None => None::<u64>,
        },
{
    match time_limit_ms {
        Some(ms) => Some(ms / 1000 + 1),
        None => None,
    }
}

/// The verdict a run earns by its resource usage, exit status and output
/// alone, checked in this order: over the time limit, over the memory limit
/// (memory in KiB against a limit in MiB, whole MiB), a non-zero exit status,
/// no output; `None` where the output goes on to the evaluator.
pub open spec fn resource_verdict_of(
    time_limit_ms: Option<u64>,
    memory_limit_mb: Option<u64>,
    time_ms: u64,
    memory_kib: u64,
    status: i32,
    stdout_empty: bool,
) -> Option<Verdict> {
    if time_limit_ms matches Some(limit) && time_ms > limit {
        Some(Verdict::TimeLimitExceeded)
    } else if memory_limit_mb matches Some(limit) && memory_kib / 1024 > limit {
        Some(Verdict::MemoryLimitExceeded)
    } else if status != 0 {
        Some(Verdict::RuntimeError)
    } else if stdout_empty {
        Some(Verdict::NoOutput)
    } else {
        None
    }
}

/// The verdict a run earns before the evaluator, by its measurements: over
/// the time limit is `TimeLimitExceeded`; within it but over the memory
/// limit (in whole MiB) is `MemoryLimitExceeded`; within both limits a
/// non-zero exit status is `RuntimeError` whatever the output; a clean exit
/// with no output is `NoOutput`; a clean exit with output earns no verdict
/// and goes on to the evaluator.
pub proof fn lemma_resource_verdict_order(
    time_limit_ms: Option<u64>,
    memory_limit_mb: Option<u64>,
    time_ms: u64,
    memory_kib: u64,
    status: i32,
    stdout_empty: bool,
)
    ensures
        ({
            let verdict = resource_verdict_of(time_limit_ms, memory_limit_mb, time_ms, memory_kib, status, stdout_empty);
            let time_ok = match time_limit_ms {
                Some(limit) => time_ms <= limit,
                None => true,
            };
            let memory_ok = match memory_limit_mb {
                Some(limit) => memory_kib / 1024 <= limit,
                None => true,
            };
            &&& !time_ok ==> verdict == Some(Verdict::TimeLimitExceeded)
            &&& time_ok && !memory_ok ==> verdict == Some(Verdict::MemoryLimitExceeded)
            &&& time_ok && memory_ok && status != 0 ==> verdict == Some(Verdict::RuntimeError)
            &&& time_ok && memory_ok && status == 0 && stdout_empty ==> verdict == Some(Verdict::NoOutput)
            &&& time_ok && memory_ok && status == 0 && !stdout_empty ==> verdict is None
        }),
{
}

/// See [`resource_verdict_of`].
pub fn resource_verdict(
    time_limit_ms: Option<u64>,
    memory_limit_mb: Option<u64>,
    time_ms: u64,
    memory_kib: u64,
    status: i32,
    stdout: &str,
) -> (verdict: Option<Verdict>)
    ensures
        verdict == resource_verdict_of(
            time_limit_ms,
            memory_limit_mb,
            time_ms,
            memory_kib,
            status,
            stdout@.len() == 0,
        ),
{
    match time_limit_ms {
        Some(limit) => {
            if time_ms > limit {
                return Some(Verdict::TimeLimitExceeded);
            }
        },
        None => {},
    }
    match memory_limit_mb {
        Some(limit) => {
            if memory_kib / 1024 > limit {
                return Some(Verdict::MemoryLimitExceeded);
            }
        },
        None => {},
    }
    if status != 0 {
        Some(Verdict::RuntimeError)
    } else if stdout.is_empty() {
        Some(Verdict::NoOutput)
    } else {
        None
    }
}

/// How far the sandbox took a solution on one input.
pub enum JudgeStep {
    /// The evaluator refused the code before it was built, for this reason.
    PreCheckFailed(String),
    /// The code did not compile: the result of the build.
    CompileError(RunResult),
    /// The code was built, where its environment builds, and run.
    Ran { build: Option<RunResult>, run: RunResult },
}

/// The verdict a finished run earns before the evaluator sees its output.
pub open spec fn ran_verdict(run: RunResult, time_limit_ms: Option<u64>, memory_limit_mb: Option<u64>) -> Option<Verdict> {
    resource_verdict_of(
        time_limit_ms,
        memory_limit_mb,
        run.resource_usage.time,
        run.resource_usage.memory,
        run.status,
        run.stdout@.len() == 0,
    )
}

/// Whether the evaluator has to check the output of this step: only a run
/// that earned no verdict by its resources, status and output.
pub open spec fn evaluated(step: JudgeStep, time_limit_ms: Option<u64>, memory_limit_mb: Option<u64>) -> bool {
    match step {
        JudgeStep::Ran { run, .. } => ran_verdict(run, time_limit_ms, memory_limit_mb) is None,
        _ => false,
    }
}

/// See [`evaluated`].
pub fn needs_evaluation(step: &JudgeStep, time_limit_ms: Option<u64>, memory_limit_mb: Option<u64>) -> (needed: bool)
    ensures
        needed == evaluated(*step, time_limit_ms, memory_limit_mb),
{
    match step {
        JudgeStep::Ran { run, .. } => resource_verdict(
            time_limit_ms,
            memory_limit_mb,
            run.resource_usage.time,
            run.resource_usage.memory,
            run.status,
            run.stdout.as_str(),
        ).is_none(),
        _ => false,
    }
}

/// The result of judging a solution on one input, and what the message of
/// its verdict is built from: a failed pre-check gives its reason and no
/// steps; a compile error gives the build and no run; a run gives the
/// verdict of its resources, status and output, or else the evaluator's
/// verdict and reason, with both steps.
pub open spec fn judged_of(
    step: JudgeStep,
    time_limit_ms: Option<u64>,
    memory_limit_mb: Option<u64>,
    evaluation: Option<(Verdict, Option<String>)>,
) -> (CheckResult<RunResult>, VerdictMessageContext) {
    match step {
        JudgeStep::PreCheckFailed(reason) => (
            CheckResult { verdict: Verdict::PreCheckFailed, reason: Some(reason), compile: None, run: None },
            VerdictMessageContext {
                verdict: Verdict::PreCheckFailed,
                reason: Some(reason),
                compile_status: None,
                compile_stderr: None,
                run_status: None,
                run_stderr: None,
                run_time_ms: None,
                run_memory_kib: None,
                time_limit_ms,
                memory_limit_mb,
            },
        ),
        JudgeStep::CompileError(build) => (
            CheckResult { verdict: Verdict::CompilationError, reason: None, compile: Some(build), run: None },
            VerdictMessageContext {
                verdict: Verdict::CompilationError,
                reason: None,
                compile_status: Some(build.status),
                compile_stderr: Some(build.stderr),
                run_status: None,
                run_stderr: None,
                run_time_ms: None,
                run_memory_kib: None,
                time_limit_ms,
                memory_limit_mb,
            },
        ),
        JudgeStep::Ran { build, run } => {
            let (verdict, reason) = match ran_verdict(run, time_limit_ms, memory_limit_mb) {
                Some(v) => (v, None),
                None => evaluation.unwrap(),
            };
            (
                CheckResult { verdict, reason, compile: build, run: Some(run) },
                VerdictMessageContext {
                    verdict,
                    reason,
                    compile_status: match build {
                        Some(b) => Some(b.status),
                        None => None,
                    },
                    compile_stderr: match build {
                        Some(b) => Some(b.stderr),
                        None => None,
                    },
                    run_status: Some(run.status),
                    run_stderr: Some(run.stderr),
                    run_time_ms: Some(run.resource_usage.time),
                    run_memory_kib: Some(run.resource_usage.memory),
                    time_limit_ms,
                    memory_limit_mb,
                },
            )
        },
    }
}

/// What judging a step gives: a failed pre-check fails with its reason and
/// keeps no step; a compile error is a `CompilationError` that keeps the
/// build and no run; a run keeps both steps, takes the verdict of its
/// measurements where it earns one and otherwise the evaluator's verdict and
/// reason. The message is always built from the verdict and the reason of
/// the result and from the steps it keeps.
pub proof fn lemma_judged_steps(
    step: JudgeStep,
    time_limit_ms: Option<u64>,
    memory_limit_mb: Option<u64>,
    evaluation: Option<(Verdict, Option<String>)>,
)
    requires
        evaluated(step, time_limit_ms, memory_limit_mb) ==> evaluation is Some,
    ensures
        ({
            let (result, context) = judged_of(step, time_limit_ms, memory_limit_mb, evaluation);
            &&& context.verdict == result.verdict
            &&& context.reason == result.reason
            &&& context.time_limit_ms == time_limit_ms && context.memory_limit_mb == memory_limit_mb
            &&& context.compile_status == match result.compile {
                Some(b) => Some(b.status),
                None => None,
            }
            &&& context.run_status == match result.run {
                Some(r) => Some(r.status),
                None => None,
            }
            &&& context.run_time_ms == match result.run {
                Some(r) => Some(r.resource_usage.time),
                None => None,
            }
            &&& (step matches JudgeStep::PreCheckFailed(reason) ==> result.verdict == Verdict::PreCheckFailed
                && result.reason == Some(reason) && result.compile is None && result.run is None)
            &&& (step matches JudgeStep::CompileError(build) ==> result.verdict == Verdict::CompilationError
                && result.reason is None && result.compile == Some(build) && result.run is None)
            &&& (step matches JudgeStep::Ran { build, run } ==> result.compile == build && result.run == Some(run)
                && match resource_verdict_of(
                time_limit_ms,
                memory_limit_mb,
                run.resource_usage.time,
                run.resource_usage.memory,
                run.status,
                run.stdout@.len() == 0,
            ) {
                Some(v) => result.verdict == v && result.reason is None,
                None => evaluation matches Some((v, r)) && result.verdict == v && result.reason == r,
            })
        }),
{
}

fn cloned_text(o: &Option<String>) -> (c: Option<String>)
    ensures
        c == *o,
{
    match o {
        Some(s) => Some(s.clone()),
        None => None,
    }
}

/// See [`judged_of`]. The evaluator's verdict and reason are needed exactly
/// where [`needs_evaluation`] says so.
pub fn judged(
    step: JudgeStep,
    time_limit_ms: Option<u64>,
    memory_limit_mb: Option<u64>,
    evaluation: Option<(Verdict, Option<String>)>,
) -> (res: (CheckResult<RunResult>, VerdictMessageContext))
    requires
        evaluated(step, time_limit_ms, memory_limit_mb) ==> evaluation is Some,
    ensures
        res == judged_of(step, time_limit_ms, memory_limit_mb, evaluation),
{
    match step {
        JudgeStep::PreCheckFailed(reason) => {
            let shown = reason.clone();
            (
                CheckResult { verdict: Verdict::PreCheckFailed, reason: Some(reason), compile: None, run: None },
                VerdictMessageContext {
                    verdict: Verdict::PreCheckFailed,
                    reason: Some(shown),
                    compile_status: None,
                    compile_stderr: None,
                    run_status: None,
                    run_stderr: None,
                    run_time_ms: None,
                    run_memory_kib: None,
                    time_limit_ms,
                    memory_limit_mb,
                },
            )
        },
        JudgeStep::CompileError(build) => {
            let status = build.status;
            let stderr = build.stderr.clone();
            (
                CheckResult { verdict: Verdict::CompilationError, reason: None, compile: Some(build), run: None },
                VerdictMessageContext {
                    verdict: Verdict::CompilationError,
                    reason: None,
                    compile_status: Some(status),
                    compile_stderr: Some(stderr),
                    run_status: None,
                    run_stderr: None,
                    run_time_ms: None,
                    run_memory_kib: None,
                    time_limit_ms,
                    memory_limit_mb,
                },
            )
        },
        JudgeStep::Ran { build, run } => {
            let (compile_status, compile_stderr) = match &build {
                Some(b) => (Some(b.status), Some(b.stderr.clone())),
                None => (None, None),
            };
            let (verdict, reason) = match resource_verdict(
                time_limit_ms,
                memory_limit_mb,
                run.resource_usage.time,
                run.resource_usage.memory,
                run.status,
                run.stdout.as_str(),
            ) {
                Some(v) => (v, None),
                None => evaluation.unwrap(),
            };
            let shown = cloned_text(&reason);
            let run_status = run.status;
            let run_stderr = run.stderr.clone();
            let run_time_ms = run.resource_usage.time;
            let run_memory_kib = run.resource_usage.memory;
            (
                CheckResult { verdict, reason, compile: build, run: Some(run) },
                VerdictMessageContext {
                    verdict,
                    reason: shown,
                    compile_status,
                    compile_stderr,
                    run_status: Some(run_status),
                    run_stderr: Some(run_stderr),
                    run_time_ms: Some(run_time_ms),
                    run_memory_kib: Some(run_memory_kib),
                    time_limit_ms,
                    memory_limit_mb,
                },
            )
        },
    }
}

/// The verdict of testing a solution on an example before the evaluator
/// checks its output: a non-zero exit status, then no output; `None` where
/// the output goes on to the evaluator.
pub fn run_verdict(status: i32, stdout: &str) -> (verdict: Option<Verdict>)
    ensures
        verdict == if status != 0 {
            Some(Verdict::RuntimeError)
        } else if stdout@.len() == 0 {
            Some(Verdict::NoOutput)
        } else {
            None::<Verdict>
        },
{
    if status != 0 {
        Some(Verdict::RuntimeError)
    } else if stdout.is_empty() {
        Some(Verdict::NoOutput)
    } else {
        None
    }
}

/// The verdict of the evaluator's check of an output.
pub fn checked_verdict(ok: bool) -> (verdict: Verdict)
    ensures
        verdict == if ok {
            Verdict::Accepted
        } else {
            Verdict::WrongAnswer
        },
{
    if ok {
        Verdict::Accepted
    } else {
        Verdict::WrongAnswer
    }
}

/// The example a run of the reference solution on a seed yields: only an
/// accepted run gives one, with the seed as its id, the generated input, the
/// run's output, and its error output as the explanation unless it is empty.
pub fn example_of(seed: &str, input: String, verdict: Verdict, run: Option<(String, String)>) -> (example: Option<Example>)
    ensures
        match example {
            Some(e) => verdict == Verdict::Accepted && (run matches Some(r) && {
                &&& e.id@ == seed@
                &&& e.input@ == input@
                &&& e.output@ == r.0@
                &&& match e.explanation {
                    Some(x) => r.1@.len() > 0 && x@ == r.1@,
                    None => r.1@.len() == 0,
                }
            }),
            None => !(verdict == Verdict::Accepted && run is Some),
        },
{
    match (verdict, run) {
        (Verdict::Accepted, Some((stdout, stderr))) => {
            let explanation = if stderr.as_str().is_empty() {
                None
            } else {
                Some(stderr)
            };
            Some(Example { id: String::from_str(seed), input, output: stdout, explanation })
        },
        _ => None,
    }
}

/// `uuid::Uuid::new_v4()`: a random UUID. The uuid crate sets the version
/// nibble to 4 and the two variant bits to `10`; the other bits are random
/// and nothing more is claimed of them.
#[verifier::external_body]
fn new_random_id() -> (id: Uuid)
    ensures
        is_v4_uuid(id),
{
    uuid::Uuid::new_v4().as_u128()
}

/// The seed of the static test number `x` of a challenge.
pub open spec fn static_seed(x: nat, challenge_id: Uuid) -> Seq<char> {
    "_static_"@ + decimal(x) + "_"@ + uuid_text(challenge_id)
}

fn static_seed_text(x: u8, challenge_id: Uuid) -> (seed: String)
    ensures
        seed@ == static_seed(x as nat, challenge_id),
{
    let mut seed = String::from_str("_static_");
    push_decimal(&mut seed, x as u64);
    seed.append("_");
    let id = uuid_to_string(challenge_id);
    seed.append(id.as_str());
    seed
}

/// The texts of a list of strings.
pub open spec fn seed_texts(seeds: Seq<String>) -> Seq<Seq<char>> {
    seeds.map_values(|s: String| s@)
}

/// The seeds a solution is tested on: the evaluator's examples, then the
/// static tests of the challenge, then the random seeds.
pub open spec fn test_seeds_of(
    examples: Seq<Seq<char>>,
    static_tests: u8,
    challenge_id: Uuid,
    random: Seq<Seq<char>>,
) -> Seq<Seq<char>> {
    examples + Seq::new(static_tests as nat, |x: int| static_seed(x as nat, challenge_id)) + random
}

/// See [`test_seeds_of`].
pub fn test_seeds(examples: Vec<String>, static_tests: u8, challenge_id: Uuid, random: Vec<String>) -> (seeds: Vec<String>)
    ensures
        seed_texts(seeds@) == test_seeds_of(seed_texts(examples@), static_tests, challenge_id, seed_texts(random@)),
{
    let ghost statics = Seq::new(static_tests as nat, |x: int| static_seed(x as nat, challenge_id));
    let mut seeds = examples;
    let ghost first = seed_texts(seeds@);
    let mut x: u8 = 0;
    while x < static_tests
        invariant
            x <= static_tests,
            statics == Seq::new(static_tests as nat, |x: int| static_seed(x as nat, challenge_id)),
            seed_texts(seeds@) == first + statics.take(x as int),
        decreases static_tests - x,
    {
        let seed = static_seed_text(x, challenge_id);
        let ghost before = seeds@;
        seeds.push(seed);
        assert(seed_texts(seeds@) =~= seed_texts(before).push(seed@));
        assert(statics.take(x + 1) =~= statics.take(x as int).push(statics[x as int]));
        x = x + 1;
    }
    assert(statics.take(static_tests as int) =~= statics);
    let mut i: usize = 0;
    while i < random.len()
        invariant
            i <= random.len(),
            seed_texts(seeds@) == first + statics + seed_texts(random@).take(i as int),
        decreases random.len() - i,
    {
        let ghost before = seeds@;
        seeds.push(random[i].clone());
        assert(seed_texts(seeds@) =~= seed_texts(before).push(random@[i as int]@));
        assert(seed_texts(random@).take(i + 1) =~= seed_texts(random@).take(i as int).push(random@[i as int]@));
        i = i + 1;
    }
    assert(seed_texts(random@).take(random.len() as int) =~= seed_texts(random@));
    seeds
}

/// Whether a UUID is of version 4 (random): its version nibble is 4 and its
/// two variant bits are `10`.
pub open spec fn is_v4_uuid(id: Uuid) -> bool {
    &&& (id >> 76u128) & 15u128 == 4
    &&& (id >> 62u128) & 3u128 == 2
}

/// Whether a text is the hyphenated form of a version 4 UUID.
pub open spec fn is_v4_uuid_text(s: Seq<char>) -> bool {
    exists|id: Uuid| is_v4_uuid(id) && s == uuid_text(id)
}

/// `n` random seeds, each the text of a random version 4 UUID.
pub fn random_seeds(n: u8) -> (seeds: Vec<String>)
    ensures
        seeds.len() == n,
        forall|i: int| 0 <= i < n ==> is_v4_uuid_text(#[trigger] seeds@[i]@),
{
    let mut seeds: Vec<String> = Vec::new();
    let mut k: u8 = 0;
    while k < n
        invariant
            k <= n,
            seeds.len() == k,
            forall|i: int| 0 <= i < k ==> is_v4_uuid_text(#[trigger] seeds@[i]@),
        decreases n - k,
    {
        let id = new_random_id();
        let seed = uuid_to_string(id);
        seeds.push(seed);
        assert(seeds@[k as int]@ == uuid_text(id));
        assert(is_v4_uuid(id));
        assert(is_v4_uuid_text(seeds@[k as int]@));
        k = k + 1;
    }
    seeds
}

/// ASCII lower case of every character (`str::to_ascii_lowercase`).
pub open spec fn lowered(s: Seq<char>) -> Seq<char> {
    Seq::new(s.len(), |i: int| ascii_lower(s[i]))
}

/// Whether an environment runs Java: its name starts with `java`, ignoring
/// ASCII case.
pub open spec fn is_java_env(environment: Seq<char>) -> bool {
    starts_with_text(lowered(environment), "java"@)
}

/// The initial and the maximum heap in MiB of a Java run: none without a
/// memory limit or under 64 MiB; otherwise the maximum is the suggested size
/// (60% of the limit, rounded) but at most the limit less 16 MiB and at
/// least 32 MiB, and the initial heap is half of it but at least 16 MiB.
pub open spec fn heap_of(memory_limit_mb: Option<u64>, suggested_mb: u64) -> Option<(u64, u64)> {
    match memory_limit_mb {
        None => None,
        Some(limit) => if limit < 64 {
            None
        } else {
            let headroom = (limit - 16) as u64;
            let capped = if suggested_mb < headroom { suggested_mb } else { headroom };
            let xmx = if capped < 32 { 32u64 } else { capped };
            let xms = if xmx / 2 < 16 { 16u64 } else { (xmx / 2) as u64 };
            Some((xms, xmx))
        },
    }
}

/// The `JAVA_TOOL_OPTIONS` of a Java run with these heap sizes.
pub open spec fn tool_options_of(heap: Option<(u64, u64)>) -> Seq<char> {
    match heap {
        Some((xms, xmx)) => "-Xms"@ + decimal(xms as nat) + "m -Xmx"@ + decimal(xmx as nat)
            + "m -Xss256k -XX:ThreadStackSize=256 -XX:+UseSerialGC"@,
        None => "-Xss256k -XX:ThreadStackSize=256 -XX:+UseSerialGC"@,
    }
}

fn heap_sizes(memory_limit_mb: Option<u64>, suggested_mb: u64) -> (heap: Option<(u64, u64)>)
    ensures
        heap == heap_of(memory_limit_mb, suggested_mb),
{
    match memory_limit_mb {
        None => None,
        Some(limit) => {
            if limit < 64 {
                None
            } else {
                let headroom = limit - 16;
                let capped = if suggested_mb < headroom { suggested_mb } else { headroom };
                let xmx = if capped < 32 { 32 } else { capped };
                let xms = if xmx / 2 < 16 { 16 } else { xmx / 2 };
                Some((xms, xmx))
            }
        },
    }
}

fn starts_with_java(environment: &str) -> (b: bool)
    ensures
        b == is_java_env(environment@),
{
    let chars = chars_of(environment);
    let mut low: Vec<char> = Vec::new();
    let mut i: usize = 0;
    while i < chars.len()
        invariant
            i <= chars.len(),
            chars@ == environment@,
            low@ == lowered(chars@).take(i as int),
        decreases chars.len() - i,
    {
        low.push(to_ascii_lowercase(chars[i]));
        assert(lowered(chars@).take(i + 1) =~= lowered(chars@).take(i as int).push(ascii_lower(chars@[i as int])));
        i = i + 1;
    }
    assert(lowered(chars@).take(chars.len() as int) =~= lowered(chars@));
    let java = chars_of("java");
    occurs_at_exec(&low, &java, 0)
}

/// The environment variables of a run: for a Java environment
/// `JAVA_TOOL_OPTIONS` with the heap sizes of [`heap_of`] and
/// `MALLOC_ARENA_MAX=2`; none for any other environment. `suggested_mb` is
/// 60% of the memory limit, rounded, and is used only where there is a
/// limit.
pub fn java_env_vars(environment: &str, memory_limit_mb: Option<u64>, suggested_mb: u64) -> (vars: Vec<(String, String)>)
    ensures
        is_java_env(environment@) ==> vars@.len() == 2 && vars@[0].0@ == "JAVA_TOOL_OPTIONS"@ && vars@[0].1@
            == tool_options_of(heap_of(memory_limit_mb, suggested_mb)) && vars@[1].0@ == "MALLOC_ARENA_MAX"@
            && vars@[1].1@ == "2"@,
        !is_java_env(environment@) ==> vars@.len() == 0,
{
    let mut vars: Vec<(String, String)> = Vec::new();
    if !starts_with_java(environment) {
        return vars;
    }
    let options = match heap_sizes(memory_limit_mb, suggested_mb) {
        Some((xms, xmx)) => {
            let mut o = String::from_str("-Xms");
            push_decimal(&mut o, xms);
            o.append("m -Xmx");
            push_decimal(&mut o, xmx);
            o.append("m -Xss256k -XX:ThreadStackSize=256 -XX:+UseSerialGC");
            o
        },
        None => String::from_str("-Xss256k -XX:ThreadStackSize=256 -XX:+UseSerialGC"),
    };
    vars.push((String::from_str("JAVA_TOOL_OPTIONS"), options));
    vars.push((String::from_str("MALLOC_ARENA_MAX"), String::from_str("2")));
    vars
}

} // verus!
