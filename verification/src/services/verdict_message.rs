//! Human friendly explanations of the verdicts of the judge: translation keys,
//! the parameters of the hint, and at most three sanitized lines of detail
//! taken from the reason or the error output.
use vstd::prelude::*;

use crate::schemas::coding_challenges::{Verdict, VerdictMessage};
use crate::text::{
    chars_of, contains_exec, contains_text, decimal, i64_to_string, occurs_at_exec, opt_text,
    push_char, push_chars, signed_decimal, starts_with_text, sub_chars, texts, trim,
    trim_bounds, u64_to_string,
};

verus! {

/// What the message of a verdict is built from.
pub struct VerdictMessageContext {
    pub verdict: Verdict,
    pub reason: Option<String>,
    pub compile_status: Option<i32>,
    pub compile_stderr: Option<String>,
    pub run_status: Option<i32>,
    pub run_stderr: Option<String>,
    pub run_time_ms: Option<u64>,
    pub run_memory_kib: Option<u64>,
    pub time_limit_ms: Option<u64>,
    pub memory_limit_mb: Option<u64>,
}

/// The renderings with two decimals of the measured run time and of the time
/// limit in seconds, and of the measured memory in MiB. Each is used only
/// where the number it renders is present.
pub struct ScaledTexts {
    pub run_seconds: String,
    pub limit_seconds: String,
    pub run_mib: String,
}

/// The translation key of the title of a verdict.
pub open spec fn title_key_of(verdict: Verdict) -> Seq<char> {
    match verdict {
        Verdict::CompilationError => "Error.Verdict.COMPILATION_ERROR"@,
        Verdict::InvalidOutputFormat => "Error.Verdict.INVALID_OUTPUT_FORMAT"@,
        Verdict::MemoryLimitExceeded => "Error.Verdict.MEMORY_LIMIT_EXCEEDED"@,
        Verdict::NoOutput => "Error.Verdict.NO_OUTPUT"@,
        Verdict::Accepted => "Error.Verdict.OK"@,
        Verdict::PreCheckFailed => "Error.Verdict.PRE_CHECK_FAILED"@,
        Verdict::RuntimeError => "Error.Verdict.RUNTIME_ERROR"@,
        Verdict::TimeLimitExceeded => "Error.Verdict.TIME_LIMIT_EXCEEDED"@,
        Verdict::WrongAnswer => "Error.Verdict.WRONG_ANSWER"@,
    }
}

/// The translation key of the hint of a verdict.
pub open spec fn body_key_of(verdict: Verdict) -> Seq<char> {
    match verdict {
        Verdict::Accepted => "VerdictHint.OK"@,
        Verdict::TimeLimitExceeded => "VerdictHint.TIME_LIMIT_EXCEEDED"@,
        Verdict::MemoryLimitExceeded => "VerdictHint.MEMORY_LIMIT_EXCEEDED"@,
        Verdict::CompilationError => "VerdictHint.COMPILATION_ERROR"@,
        Verdict::RuntimeError => "VerdictHint.RUNTIME_ERROR"@,
        Verdict::NoOutput => "VerdictHint.NO_OUTPUT"@,
        Verdict::WrongAnswer => "VerdictHint.WRONG_ANSWER"@,
        Verdict::InvalidOutputFormat => "VerdictHint.INVALID_OUTPUT_FORMAT"@,
        Verdict::PreCheckFailed => "VerdictHint.PRE_CHECK_FAILED"@,
    }
}

/// The translation key of the title of a verdict.
pub fn title_key(verdict: &Verdict) -> (key: &'static str)
    ensures
        key@ == title_key_of(*verdict),
{
    match verdict {
        Verdict::CompilationError => "Error.Verdict.COMPILATION_ERROR",
        Verdict::InvalidOutputFormat => "Error.Verdict.INVALID_OUTPUT_FORMAT",
        Verdict::MemoryLimitExceeded => "Error.Verdict.MEMORY_LIMIT_EXCEEDED",
        Verdict::NoOutput => "Error.Verdict.NO_OUTPUT",
        Verdict::Accepted => "Error.Verdict.OK",
        Verdict::PreCheckFailed => "Error.Verdict.PRE_CHECK_FAILED",
        Verdict::RuntimeError => "Error.Verdict.RUNTIME_ERROR",
        Verdict::TimeLimitExceeded => "Error.Verdict.TIME_LIMIT_EXCEEDED",
        Verdict::WrongAnswer => "Error.Verdict.WRONG_ANSWER",
    }
}

fn body_key(verdict: &Verdict) -> (key: &'static str)
    ensures
        key@ == body_key_of(*verdict),
{
    match verdict {
        Verdict::Accepted => "VerdictHint.OK",
        Verdict::TimeLimitExceeded => "VerdictHint.TIME_LIMIT_EXCEEDED",
        Verdict::MemoryLimitExceeded => "VerdictHint.MEMORY_LIMIT_EXCEEDED",
        Verdict::CompilationError => "VerdictHint.COMPILATION_ERROR",
        Verdict::RuntimeError => "VerdictHint.RUNTIME_ERROR",
        Verdict::NoOutput => "VerdictHint.NO_OUTPUT",
        Verdict::WrongAnswer => "VerdictHint.WRONG_ANSWER",
        Verdict::InvalidOutputFormat => "VerdictHint.INVALID_OUTPUT_FORMAT",
        Verdict::PreCheckFailed => "VerdictHint.PRE_CHECK_FAILED",
    }
}

// ---------------------------------------------------------------------------
// Detail lines
// ---------------------------------------------------------------------------

/// Whether a trimmed line is shown: it is not empty and names neither the nix
/// store nor the sandbox.
pub open spec fn keeps_line(line: Seq<char>) -> bool {
    &&& line.len() > 0
    &&& !starts_with_text(line, "/nix/store"@)
    &&& !contains_text(line, "sandkasten"@)
    &&& !contains_text(line, "nix/store"@)
}

/// The trimmed segment, if it is shown.
pub open spec fn kept_segment(segment: Seq<char>) -> Seq<Seq<char>> {
    if keeps_line(trim(segment)) {
        seq![trim(segment)]
    } else {
        seq![]
    }
}

/// The shown lines of `s` from the line that starts at `start`, where
/// `s[start..i]` holds no line feed; lines end at a line feed or at the end.
pub open spec fn kept_lines_from(s: Seq<char>, start: int, i: int) -> Seq<Seq<char>>
    decreases s.len() - i,
{
    if i >= s.len() {
        kept_segment(s.subrange(start, s.len() as int))
    } else if s[i] == '\n' {
        kept_segment(s.subrange(start, i)) + kept_lines_from(s, i + 1, i + 1)
    } else {
        kept_lines_from(s, start, i + 1)
    }
}

/// The shown lines of a text, trimmed, in order.
pub open spec fn kept_lines(s: Seq<char>) -> Seq<Seq<char>> {
    kept_lines_from(s, 0, 0)
}

/// Lines joined by line feeds.
pub open spec fn join_lines(lines: Seq<Seq<char>>) -> Seq<char>
    decreases lines.len(),
{
    if lines.len() == 0 {
        seq![]
    } else if lines.len() == 1 {
        lines[0]
    } else {
        join_lines(lines.drop_last()) + seq!['\n'] + lines.last()
    }
}

/// At most the first three of a list of lines.
pub open spec fn first_three(lines: Seq<Seq<char>>) -> Seq<Seq<char>> {
    if lines.len() <= 3 {
        lines
    } else {
        lines.take(3)
    }
}

/// The detail that a raw text gives: its first three shown lines, or nothing
/// when no line is shown.
pub open spec fn sanitized(raw: Seq<char>) -> Option<Seq<char>> {
    let lines = kept_lines(raw);
    if lines.len() == 0 {
        None
    } else {
        Some(join_lines(first_three(lines)))
    }
}

fn keeps_line_exec(line: &Vec<char>, root: &Vec<char>, sandbox: &Vec<char>, store: &Vec<char>) -> (b: bool)
    requires
        root@ == "/nix/store"@,
        sandbox@ == "sandkasten"@,
        store@ == "nix/store"@,
    ensures
        b == keeps_line(line@),
{
    line.len() > 0 && !occurs_at_exec(line, root, 0) && !contains_exec(line, sandbox)
        && !contains_exec(line, store)
}

/// The segment `v[from..to]`, trimmed, if it is shown.
fn shown_segment(
    v: &Vec<char>,
    from: usize,
    to: usize,
    root: &Vec<char>,
    sandbox: &Vec<char>,
    store: &Vec<char>,
) -> (line: Option<Vec<char>>)
    requires
        from <= to <= v.len(),
        root@ == "/nix/store"@,
        sandbox@ == "sandkasten"@,
        store@ == "nix/store"@,
    ensures
        kept_segment(v@.subrange(from as int, to as int)) == match line {
            Some(l) => seq![l@],
            None => Seq::<Seq<char>>::empty(),
        },
{
    let segment = sub_chars(v, from, to);
    let (a, b) = trim_bounds(&segment);
    let line = sub_chars(&segment, a, b);
    if keeps_line_exec(&line, root, sandbox, store) {
        Some(line)
    } else {
        None
    }
}

proof fn lemma_join_push(lines: Seq<Seq<char>>, line: Seq<char>)
    ensures
        join_lines(lines.push(line)) == if lines.len() == 0 {
            line
        } else {
            join_lines(lines) + seq!['\n'] + line
        },
{
    assert(lines.push(line).drop_last() =~= lines);
}

/// Add a shown line to the detail, unless it holds three lines already.
fn add_line(out: &mut String, count: &mut usize, line: &Vec<char>, Ghost(found): Ghost<Seq<Seq<char>>>)
    requires
        *old(count) == if found.len() < 3 { found.len() } else { 3 },
        old(out)@ == join_lines(found.take(*old(count) as int)),
    ensures
        *final(count) == if found.len() + 1 < 3 { found.len() + 1 } else { 3 },
        final(out)@ == join_lines(found.push(line@).take(*final(count) as int)),
{
    let ghost grown = found.push(line@);
    if *count < 3 {
        proof {
            assert(grown.take(*count + 1) =~= found.take(*count as int).push(line@));
            lemma_join_push(found.take(*count as int), line@);
        }
        if *count > 0 {
            push_char(out, '\n');
        }
        push_chars(out, line, 0, line.len());
        assert(line@.subrange(0, line@.len() as int) =~= line@);
        *count = *count + 1;
    } else {
        assert(grown.take(3) =~= found.take(3));
    }
}

/// The detail of a raw text: its first three non-empty trimmed lines that
/// name neither the nix store nor the sandbox, joined by line feeds.
pub fn sanitize_detail(raw: &str) -> (detail: Option<String>)
    ensures
        opt_text(detail) == sanitized(raw@),
{
    let v = chars_of(raw);
    let root = chars_of("/nix/store");
    let sandbox = chars_of("sandkasten");
    let store = chars_of("nix/store");
    let mut out = String::new();
    let mut count: usize = 0;
    let ghost mut found: Seq<Seq<char>> = seq![];
    let mut start: usize = 0;
    let mut i: usize = 0;
    while i < v.len()
        invariant
            start <= i <= v.len(),
            v@ == raw@,
            root@ == "/nix/store"@,
            sandbox@ == "sandkasten"@,
            store@ == "nix/store"@,
            found + kept_lines_from(v@, start as int, i as int) == kept_lines(v@),
            count == if found.len() < 3 { found.len() } else { 3 },
            out@ == join_lines(found.take(count as int)),
        decreases v.len() - i,
    {
        if v[i] == '\n' {
            let line = shown_segment(&v, start, i, &root, &sandbox, &store);
            let ghost before = found;
            match line {
                Some(l) => {
                    add_line(&mut out, &mut count, &l, Ghost(found));
                    proof {
                        found = found.push(l@);
                    }
                },
                None => {},
            }
            proof {
                assert(found =~= before + kept_segment(v@.subrange(start as int, i as int)));
                assert(found + kept_lines_from(v@, i + 1, i + 1) =~= before + (kept_segment(
                    v@.subrange(start as int, i as int),
                ) + kept_lines_from(v@, i + 1, i + 1)));
            }
            start = i + 1;
        }
        i = i + 1;
    }
    let line = shown_segment(&v, start, v.len(), &root, &sandbox, &store);
    let ghost before = found;
    match line {
        Some(l) => {
            add_line(&mut out, &mut count, &l, Ghost(found));
            proof {
                found = found.push(l@);
            }
        },
        None => {},
    }
    proof {
        assert(found =~= before + kept_segment(v@.subrange(start as int, v@.len() as int)));
        assert(found == kept_lines(v@));
        assert(found.take(count as int) =~= first_three(found));
    }
    if count == 0 {
        None
    } else {
        Some(out)
    }
}

// ---------------------------------------------------------------------------
// The message
// ---------------------------------------------------------------------------

/// A number, or a dash where it is unknown.
pub open spec fn number_or_dash(n: Option<u64>) -> Seq<char> {
    match n {
        Some(x) => decimal(x as nat),
        None => "—"@,
    }
}

/// A rendering of a number, or a dash where the number is unknown.
pub open spec fn scaled_or_dash(n: Option<u64>, text: Seq<char>) -> Seq<char> {
    match n {
        Some(_) => text,
        None => "—"@,
    }
}

/// An exit code, or a question mark where it is unknown.
pub open spec fn exit_code_text(status: Option<i32>) -> Seq<char> {
    match status {
        Some(x) => signed_decimal(x as int),
        None => "?"@,
    }
}

/// The parameters of the hint of a verdict, ordered by name.
pub open spec fn message_params(ctx: VerdictMessageContext, scaled: ScaledTexts) -> Seq<(Seq<char>, Seq<char>)> {
    match ctx.verdict {
        Verdict::TimeLimitExceeded => seq![
            ("actual_ms"@, number_or_dash(ctx.run_time_ms)),
            ("actual_seconds"@, scaled_or_dash(ctx.run_time_ms, scaled.run_seconds@)),
            ("limit_ms"@, number_or_dash(ctx.time_limit_ms)),
            ("limit_seconds"@, scaled_or_dash(ctx.time_limit_ms, scaled.limit_seconds@)),
        ],
        Verdict::MemoryLimitExceeded => seq![
            ("actual_kib"@, number_or_dash(ctx.run_memory_kib)),
            ("actual_mib"@, scaled_or_dash(ctx.run_memory_kib, scaled.run_mib@)),
            ("limit_mib"@, number_or_dash(ctx.memory_limit_mb)),
        ],
        Verdict::CompilationError => seq![("exit_code"@, exit_code_text(ctx.compile_status))],
        Verdict::RuntimeError => seq![("exit_code"@, exit_code_text(ctx.run_status))],
        Verdict::NoOutput => seq![("actual_seconds"@, "—"@)],
        _ => seq![],
    }
}

/// The text of an optional string, as a list of zero or one texts.
pub open spec fn listed_text(o: Option<String>) -> Seq<Seq<char>> {
    match o {
        Some(s) => seq![s@],
        None => seq![],
    }
}

/// The error output that the hint of a verdict refers to.
pub open spec fn own_stderr(ctx: VerdictMessageContext) -> Seq<Seq<char>> {
    match ctx.verdict {
        Verdict::TimeLimitExceeded | Verdict::MemoryLimitExceeded | Verdict::RuntimeError
        | Verdict::NoOutput | Verdict::InvalidOutputFormat => listed_text(ctx.run_stderr),
        Verdict::CompilationError => listed_text(ctx.compile_stderr),
        _ => seq![],
    }
}

/// The texts a detail may come from, in order of preference: the reason, the
/// error output of the failed step, and, for a wrong answer, a failed pre
/// check or an invalid output without either, the run's and the build's
/// error output.
pub open spec fn detail_candidates(ctx: VerdictMessageContext) -> Seq<Seq<char>> {
    let first = listed_text(ctx.reason) + own_stderr(ctx);
    if (ctx.verdict == Verdict::WrongAnswer || ctx.verdict == Verdict::PreCheckFailed
        || ctx.verdict == Verdict::InvalidOutputFormat) && first.len() == 0 {
        listed_text(ctx.run_stderr) + listed_text(ctx.compile_stderr)
    } else {
        first
    }
}

/// The detail of the first candidate that gives one.
pub open spec fn first_detail(candidates: Seq<Seq<char>>) -> Option<Seq<char>>
    decreases candidates.len(),
{
    if candidates.len() == 0 {
        None
    } else {
        match sanitized(candidates[0]) {
            Some(d) => Some(d),
            None => first_detail(candidates.drop_first()),
        }
    }
}

/// The texts of a list of named parameters.
pub open spec fn pairs_view(pairs: Seq<(String, String)>) -> Seq<(Seq<char>, Seq<char>)> {
    pairs.map_values(|p: (String, String)| (p.0@, p.1@))
}

fn pair(name: &str, value: String) -> (p: (String, String))
    ensures
        p.0@ == name@,
        p.1@ == value@,
{
    (String::from_str(name), value)
}

fn dash() -> (s: String)
    ensures
        s@ == "—"@,
{
    String::from_str("—")
}

fn number_text(n: Option<u64>) -> (s: String)
    ensures
        s@ == number_or_dash(n),
{
    match n {
        Some(x) => u64_to_string(x),
        None => dash(),
    }
}

fn scaled_text(n: Option<u64>, text: &String) -> (s: String)
    ensures
        s@ == scaled_or_dash(n, text@),
{
    match n {
        Some(_) => text.clone(),
        None => dash(),
    }
}

fn exit_code(status: Option<i32>) -> (s: String)
    ensures
        s@ == exit_code_text(status),
{
    match status {
        Some(x) => i64_to_string(x as i64),
        None => String::from_str("?"),
    }
}

fn params_of(ctx: &VerdictMessageContext, scaled: &ScaledTexts) -> (params: Vec<(String, String)>)
    ensures
        pairs_view(params@) == message_params(*ctx, *scaled),
{
    let mut params: Vec<(String, String)> = Vec::new();
    match ctx.verdict {
        Verdict::TimeLimitExceeded => {
            params.push(pair("actual_ms", number_text(ctx.run_time_ms)));
            params.push(pair("actual_seconds", scaled_text(ctx.run_time_ms, &scaled.run_seconds)));
            params.push(pair("limit_ms", number_text(ctx.time_limit_ms)));
            params.push(pair("limit_seconds", scaled_text(ctx.time_limit_ms, &scaled.limit_seconds)));
        },
        Verdict::MemoryLimitExceeded => {
            params.push(pair("actual_kib", number_text(ctx.run_memory_kib)));
            params.push(pair("actual_mib", scaled_text(ctx.run_memory_kib, &scaled.run_mib)));
            params.push(pair("limit_mib", number_text(ctx.memory_limit_mb)));
        },
        Verdict::CompilationError => {
            params.push(pair("exit_code", exit_code(ctx.compile_status)));
        },
        Verdict::RuntimeError => {
            params.push(pair("exit_code", exit_code(ctx.run_status)));
        },
        Verdict::NoOutput => {
            params.push(pair("actual_seconds", dash()));
        },
        _ => {},
    }
    assert(pairs_view(params@) =~= message_params(*ctx, *scaled));
    params
}

fn push_text(list: &mut Vec<String>, o: &Option<String>)
    ensures
        texts(final(list)@) == texts(old(list)@) + listed_text(*o),
{
    match o {
        Some(s) => {
            list.push(s.clone());
        },
        None => {},
    }
    assert(texts(final(list)@) =~= texts(old(list)@) + listed_text(*o));
}

fn candidates_of(ctx: &VerdictMessageContext) -> (candidates: Vec<String>)
    ensures
        texts(candidates@) == detail_candidates(*ctx),
{
    let mut candidates: Vec<String> = Vec::new();
    assert(texts(candidates@) =~= Seq::<Seq<char>>::empty());
    push_text(&mut candidates, &ctx.reason);
    match ctx.verdict {
        Verdict::TimeLimitExceeded | Verdict::MemoryLimitExceeded | Verdict::RuntimeError
        | Verdict::NoOutput | Verdict::InvalidOutputFormat => push_text(&mut candidates, &ctx.run_stderr),
        Verdict::CompilationError => push_text(&mut candidates, &ctx.compile_stderr),
        _ => {},
    }
    assert(texts(candidates@) =~= listed_text(ctx.reason) + own_stderr(*ctx));
    let fallback = match ctx.verdict {
        Verdict::WrongAnswer | Verdict::PreCheckFailed | Verdict::InvalidOutputFormat => true,
        _ => false,
    };
    if fallback && candidates.len() == 0 {
        push_text(&mut candidates, &ctx.run_stderr);
        push_text(&mut candidates, &ctx.compile_stderr);
        assert(texts(candidates@) =~= listed_text(ctx.run_stderr) + listed_text(ctx.compile_stderr));
    }
    candidates
}

fn detail_of(candidates: &Vec<String>) -> (detail: Option<String>)
    ensures
        opt_text(detail) == first_detail(texts(candidates@)),
{
    let ghost all = texts(candidates@);
    assert(all.skip(0) =~= all);
    let mut i: usize = 0;
    while i < candidates.len()
        invariant
            i <= candidates.len(),
            all == texts(candidates@),
            first_detail(all) == first_detail(all.skip(i as int)),
        decreases candidates.len() - i,
    {
        let ghost rest = all.skip(i as int);
        assert(rest[0] == candidates@[i as int]@);
        assert(rest.drop_first() =~= all.skip(i + 1));
        match sanitize_detail(candidates[i].as_str()) {
            Some(d) => {
                return Some(d);
            },
            None => {},
        }
        i = i + 1;
    }
    assert(all.skip(i as int).len() == 0);
    None
}

/// Build the message of a verdict.
///
/// It holds the translation keys of the title and of the body, the
/// parameters of the body (none where it takes none), and the detail of the
/// first text in [`detail_candidates`] that has a shown line.
pub fn build_message(ctx: VerdictMessageContext, scaled: ScaledTexts) -> (message: Option<VerdictMessage>)
    ensures
        message matches Some(m) && {
            &&& m.title_key@ == title_key_of(ctx.verdict)
            &&& opt_text(m.body_key) == Some(body_key_of(ctx.verdict))
            &&& match m.body_params {
                Some(p) => message_params(ctx, scaled).len() > 0 && pairs_view(p@) == message_params(ctx, scaled),
                None => message_params(ctx, scaled).len() == 0,
            }
            &&& opt_text(m.detail) == first_detail(detail_candidates(ctx))
        },
{
    let params = params_of(&ctx, &scaled);
    let candidates = candidates_of(&ctx);
    let detail = detail_of(&candidates);
    let body_params = if params.len() == 0 {
        None
    } else {
        Some(params)
    };
    Some(
        VerdictMessage {
            title_key: String::from_str(title_key(&ctx.verdict)),
            body_key: Some(String::from_str(body_key(&ctx.verdict))),
            body_params,
            detail,
        },
    )
}

} // verus!
