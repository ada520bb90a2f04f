//! Clozes: texts with numbered blanks `{{blank_<n>}}`. Authored clozes are
//! validated into a prepared form, and attempts are graded blank by blank,
//! either by typed text (compared in normal form, synonyms included) or by
//! choosing one of the offered options.
use std::collections::{HashMap, HashSet};

use vstd::prelude::*;

use crate::ids::{uuid_text, uuid_to_string};
use crate::text::{
    chars_of, decimal, lemma_trim_idempotent, normalize, normalized, push_decimal, texts, trim, trim_bounds,
    trimmed,
};
use crate::endpoints::attempts::{elapsed_seconds, QuizEffects};
use crate::endpoints::submissions::submission_wait;
use crate::services::subtasks::{quotient_toward_zero, SubtaskModel, User};
use crate::Uuid;

verus! {

broadcast use vstd::std_specs::hash::group_hash_axioms;

// ---------------------------------------------------------------------------
// Placeholders
// ---------------------------------------------------------------------------

/// Why authored cloze content is refused.
#[derive(Debug, Clone, PartialEq, Eq)]
pub enum ValidationError {
    NoPlaceholders,
    InvalidPlaceholder,
    DuplicatePlaceholder(u32),
    MissingDefinition(u32),
    EmptyAnswer(u32),
    EmptyOption,
    DuplicateOption(String),
    TooFewOptions { blanks: usize, options: usize },
    MissingOptionAssignment(u32),
    UnexpectedOptionAssignment(u32),
    OptionOutOfRange { placeholder: u32, index: usize },
    OptionAlreadyUsed(usize),
}

/// [`ValidationError`] with texts as sequences of characters.
pub enum ValidationErrorView {
    NoPlaceholders,
    InvalidPlaceholder,
    DuplicatePlaceholder(u32),
    MissingDefinition(u32),
    EmptyAnswer(u32),
    EmptyOption,
    DuplicateOption(Seq<char>),
    TooFewOptions { blanks: nat, options: nat },
    MissingOptionAssignment(u32),
    UnexpectedOptionAssignment(u32),
    OptionOutOfRange { placeholder: u32, index: nat },
    OptionAlreadyUsed(nat),
}

impl View for ValidationError {
    type V = ValidationErrorView;

    open spec fn view(&self) -> ValidationErrorView {
        match self {
            ValidationError::NoPlaceholders => ValidationErrorView::NoPlaceholders,
            ValidationError::InvalidPlaceholder => ValidationErrorView::InvalidPlaceholder,
            ValidationError::DuplicatePlaceholder(p) => ValidationErrorView::DuplicatePlaceholder(*p),
            ValidationError::MissingDefinition(p) => ValidationErrorView::MissingDefinition(*p),
            ValidationError::EmptyAnswer(p) => ValidationErrorView::EmptyAnswer(*p),
            ValidationError::EmptyOption => ValidationErrorView::EmptyOption,
            ValidationError::DuplicateOption(l) => ValidationErrorView::DuplicateOption(l@),
            ValidationError::TooFewOptions { blanks, options } => ValidationErrorView::TooFewOptions {
                blanks: *blanks as nat,
                options: *options as nat,
            },
            ValidationError::MissingOptionAssignment(p) => ValidationErrorView::MissingOptionAssignment(*p),
            ValidationError::UnexpectedOptionAssignment(p) => ValidationErrorView::UnexpectedOptionAssignment(*p),
            ValidationError::OptionOutOfRange { placeholder, index } => ValidationErrorView::OptionOutOfRange {
                placeholder: *placeholder,
                index: *index as nat,
            },
            ValidationError::OptionAlreadyUsed(i) => ValidationErrorView::OptionAlreadyUsed(*i as nat),
        }
    }
}

/// The opening of a placeholder, `{{blank_`.
pub open spec fn opening() -> Seq<char> {
    seq!['{', '{', 'b', 'l', 'a', 'n', 'k', '_']
}

/// Whether the opening of a placeholder starts at position `i` of `s`.
pub open spec fn opening_at(s: Seq<char>, i: nat) -> bool {
    i + 8 <= s.len() && s.subrange(i as int, i + 8 as int) == opening()
}

/// The first position at or after `i` at which an opening starts.
pub open spec fn find_opening(s: Seq<char>, i: nat) -> Option<nat>
    decreases s.len() - i,
{
    if i + 8 > s.len() {
        None
    } else if opening_at(s, i) {
        Some(i)
    } else {
        find_opening(s, i + 1)
    }
}

/// The number of ASCII digits that follow one another from position `i` on.
pub open spec fn digit_run(s: Seq<char>, i: nat) -> nat
    decreases s.len() - i,
{
    if i < s.len() && '0' <= s[i as int] && s[i as int] <= '9' {
        1 + digit_run(s, i + 1)
    } else {
        0
    }
}

/// The decimal number written by the digits `s[from..to]`.
pub open spec fn digits_value(s: Seq<char>, from: nat, to: nat) -> nat
    decreases to - from,
{
    if to <= from {
        0
    } else {
        digits_value(s, from, (to - 1) as nat) * 10 + ((s[to - 1] as u32) - 48) as nat
    }
}

pub proof fn lemma_find_opening(s: Seq<char>, i: nat)
    ensures
        find_opening(s, i) matches Some(k) ==> i <= k && k + 8 <= s.len() && opening_at(s, k),
        find_opening(s, i) is None ==> forall|k: nat| i <= k ==> !#[trigger] opening_at(s, k),
    decreases s.len() - i,
{
    if i + 8 <= s.len() && !opening_at(s, i) {
        lemma_find_opening(s, i + 1);
        assert forall|k: nat| i <= k && find_opening(s, i) is None implies !#[trigger] opening_at(s, k) by {
            if k == i {
            } else {
            }
        }
    }
}

pub proof fn lemma_digit_run(s: Seq<char>, i: nat)
    ensures
        i + digit_run(s, i) <= s.len() || digit_run(s, i) == 0,
        forall|k: nat| i <= k < i + digit_run(s, i) ==> '0' <= #[trigger] s[k as int] && s[k as int] <= '9',
        i + digit_run(s, i) < s.len() ==> !('0' <= s[(i + digit_run(s, i)) as int] && s[(i + digit_run(s, i)) as int] <= '9'),
    decreases s.len() - i,
{
    if i < s.len() && '0' <= s[i as int] && s[i as int] <= '9' {
        lemma_digit_run(s, i + 1);
    }
}

/// The placeholders of `s` from position `pos` on, after the placeholders
/// `seen` that precede `pos`, in the order in which they occur; or why the
/// content is refused.
pub open spec fn scan_placeholders(s: Seq<char>, pos: nat, seen: Seq<u32>) -> Result<Seq<u32>, ValidationErrorView>
    decreases s.len() - pos,
{
    match find_opening(s, pos) {
        None => Ok(seen),
        Some(idx) => {
            let start = idx + 8;
            let d = digit_run(s, start);
            if d == 0 {
                Err(ValidationErrorView::InvalidPlaceholder)
            } else if !(start + d + 2 <= s.len() && s[(start + d) as int] == '}' && s[(start + d + 1) as int] == '}') {
                Err(ValidationErrorView::InvalidPlaceholder)
            } else {
                let v = digits_value(s, start, start + d);
                if v > u32::MAX || v == 0 {
                    Err(ValidationErrorView::InvalidPlaceholder)
                } else if seen.contains(v as u32) {
                    Err(ValidationErrorView::DuplicatePlaceholder(v as u32))
                } else {
                    proof {
                        lemma_find_opening(s, pos);
                    }
                    scan_placeholders(s, start + d + 2, seen.push(v as u32))
                }
            }
        },
    }
}

/// The placeholders of cloze content in order of occurrence, or why the
/// content is refused.
pub open spec fn placeholders_of(content: Seq<char>) -> Result<Seq<u32>, ValidationErrorView> {
    scan_placeholders(content, 0, Seq::empty())
}

fn opening_at_exec(v: &Vec<char>, i: usize) -> (b: bool)
    requires
        i + 8 <= v.len(),
    ensures
        b == opening_at(v@, i as nat),
{
    let b = v[i] == '{' && v[i + 1] == '{' && v[i + 2] == 'b' && v[i + 3] == 'l' && v[i + 4] == 'a'
        && v[i + 5] == 'n' && v[i + 6] == 'k' && v[i + 7] == '_';
    let ghost w = v@.subrange(i as int, i + 8);
    assert(w[0] == v@[i as int] && w[1] == v@[i + 1] && w[2] == v@[i + 2] && w[3] == v@[i + 3]);
    assert(w[4] == v@[i + 4] && w[5] == v@[i + 5] && w[6] == v@[i + 6] && w[7] == v@[i + 7]);
    if b {
        assert(w =~= opening());
    } else {
        proof {
            if w == opening() {
                assert(w[0] == '{' && w[1] == '{' && w[2] == 'b' && w[3] == 'l');
                assert(w[4] == 'a' && w[5] == 'n' && w[6] == 'k' && w[7] == '_');
            }
        }
    }
    b
}

fn find_opening_exec(v: &Vec<char>, from: usize) -> (r: Option<usize>)
    requires
        from <= v.len(),
    ensures
        r matches Some(k) ==> find_opening(v@, from as nat) == Some(k as nat),
        r is None ==> find_opening(v@, from as nat) is None,
{
    let mut j = from;
    while v.len() - j >= 8
        invariant
            from <= j <= v.len(),
            find_opening(v@, from as nat) == find_opening(v@, j as nat),
        decreases v.len() - j,
    {
        if opening_at_exec(v, j) {
            return Some(j);
        }
        j = j + 1;
    }
    None
}

fn contains_u32(v: &Vec<u32>, x: u32) -> (b: bool)
    ensures
        b == v@.contains(x),
{
    let mut i: usize = 0;
    while i < v.len()
        invariant
            i <= v.len(),
            forall|k: int| 0 <= k < i ==> v@[k] != x,
        decreases v.len() - i,
    {
        if v[i] == x {
            assert(v@[i as int] == x);
            return true;
        }
        i = i + 1;
    }
    false
}

/// The placeholders `{{blank_<n>}}` of cloze content, in order of occurrence.
/// A number must be written with ASCII digits only, be positive, fit in 32
/// bits, be followed by `}}` and occur only once.
pub fn extract_placeholders(content: &str) -> (res: Result<Vec<u32>, ValidationError>)
    ensures
        match res {
            Ok(ps) => placeholders_of(content@) == Ok::<Seq<u32>, ValidationErrorView>(ps@),
            Err(e) => placeholders_of(content@) == Err::<Seq<u32>, ValidationErrorView>(e@),
        },
{
    let v = chars_of(content);
    let ghost s = v@;
    let mut out: Vec<u32> = Vec::new();
    let mut pos: usize = 0;
    while pos <= v.len()
        invariant
            s == v@,
            s == content@,
            pos <= v.len(),
            placeholders_of(s) == scan_placeholders(s, pos as nat, out@),
        decreases v.len() - pos,
    {
        proof {
            lemma_find_opening(s, pos as nat);
        }
        let idx = match find_opening_exec(&v, pos) {
            None => {
                assert(scan_placeholders(s, pos as nat, out@) == Ok::<Seq<u32>, ValidationErrorView>(out@));
                return Ok(out);
            },
            Some(idx) => idx,
        };
        let start = idx + 8;
        proof {
            lemma_digit_run(s, start as nat);
        }
        let mut end = start;
        let mut value: u64 = 0;
        let mut overflow = false;
        while end < v.len() && '0' <= v[end] && v[end] <= '9'
            invariant
                s == v@,
                start <= end <= v.len(),
                end - start <= digit_run(s, start as nat),
                digit_run(s, start as nat) == (end - start) + digit_run(s, end as nat),
                !overflow ==> value == digits_value(s, start as nat, end as nat) && value <= u32::MAX,
                overflow ==> digits_value(s, start as nat, end as nat) > u32::MAX,
            decreases v.len() - end,
        {
            let d = v[end] as u32 - 48;
            assert(digits_value(s, start as nat, (end + 1) as nat) == digits_value(s, start as nat, end as nat) * 10 + d);
            if !overflow {
                let next = value * 10 + d as u64;
                if next > 4294967295 {
                    overflow = true;
                } else {
                    value = next;
                }
            }
            end = end + 1;
        }
        let ghost d = end - start;
        assert(digit_run(s, end as nat) == 0);
        if end == start {
            return Err(ValidationError::InvalidPlaceholder);
        }
        if !(v.len() - end >= 2 && v[end] == '}' && v[end + 1] == '}') {
            return Err(ValidationError::InvalidPlaceholder);
        }
        if overflow || value == 0 {
            return Err(ValidationError::InvalidPlaceholder);
        }
        let p = value as u32;
        if contains_u32(&out, p) {
            return Err(ValidationError::DuplicatePlaceholder(p));
        }
        out.push(p);
        pos = end + 2;
    }
    Ok(out)
}

// ---------------------------------------------------------------------------
// Synonyms
// ---------------------------------------------------------------------------

/// The normal forms of a list of texts.
pub open spec fn norms(values: Seq<Seq<char>>, case_sensitive: bool) -> Seq<Seq<char>> {
    values.map_values(|v: Seq<char>| normalized(v, case_sensitive))
}

/// The synonyms that are kept: blank ones are dropped, as is every one whose
/// normal form equals that of a synonym kept before it.
pub open spec fn kept_synonyms(values: Seq<Seq<char>>, case_sensitive: bool) -> Seq<Seq<char>>
    decreases values.len(),
{
    if values.len() == 0 {
        Seq::empty()
    } else {
        let before = kept_synonyms(values.drop_last(), case_sensitive);
        let v = values.last();
        if trim(v).len() == 0 || normalized(v, case_sensitive).len() == 0 || norms(before, case_sensitive).contains(
            normalized(v, case_sensitive),
        ) {
            before
        } else {
            before.push(v)
        }
    }
}

fn contains_string(v: &Vec<String>, x: &String) -> (b: bool)
    ensures
        b == texts(v@).contains(x@),
{
    let mut i: usize = 0;
    while i < v.len()
        invariant
            i <= v.len(),
            forall|k: int| 0 <= k < i ==> v@[k]@ != x@,
        decreases v.len() - i,
    {
        if v[i] == *x {
            assert(texts(v@)[i as int] == x@);
            return true;
        }
        i = i + 1;
    }
    assert forall|k: int| 0 <= k < texts(v@).len() implies texts(v@)[k] != x@ by {
        assert(texts(v@)[k] == v@[k]@);
    }
    false
}

/// Drop blank and repeated synonyms, keeping the first of those with equal
/// normal forms, in their original spelling.
pub fn sanitize_synonyms(values: &[String], case_sensitive: bool) -> (res: Vec<String>)
    ensures
        texts(res@) == kept_synonyms(texts(values@), case_sensitive),
{
    let ghost vs = texts(values@);
    let mut unique: Vec<String> = Vec::new();
    let mut sanitized: Vec<String> = Vec::new();
    let mut i: usize = 0;
    while i < values.len()
        invariant
            i <= values@.len(),
            vs == texts(values@),
            texts(sanitized@) == kept_synonyms(vs.take(i as int), case_sensitive),
            texts(unique@) == norms(texts(sanitized@), case_sensitive),
        decreases values.len() - i,
    {
        let ghost prefix = vs.take(i + 1);
        assert(prefix.drop_last() =~= vs.take(i as int));
        assert(prefix.last() == values@[i as int]@);
        let chars = chars_of(values[i].as_str());
        let (start, end) = trim_bounds(&chars);
        if start == end {
        } else {
            let normalized_value = normalize(values[i].as_str(), case_sensitive);
            if normalized_value.as_str().is_empty() {
                assert(normalized_value@.len() == 0);
            } else if contains_string(&unique, &normalized_value) {
            } else {
                let ghost old_sanitized = sanitized@;
                let ghost old_unique = unique@;
                unique.push(normalized_value);
                sanitized.push(values[i].clone());
                assert(texts(sanitized@) =~= texts(old_sanitized).push(values@[i as int]@));
                assert(texts(unique@) =~= texts(old_unique).push(normalized(values@[i as int]@, case_sensitive)));
                assert(norms(texts(sanitized@), case_sensitive) =~= norms(texts(old_sanitized), case_sensitive).push(
                    normalized(values@[i as int]@, case_sensitive),
                ));
            }
        }
        i = i + 1;
    }
    assert(vs.take(values@.len() as int) =~= vs);
    sanitized
}

/// The normal form of a typed answer of a cloze (see
/// [`crate::text::normalized`]; its laws are
/// [`crate::text::lemma_normal_form`]).
pub fn normalize_answer(value: &str, case_sensitive: bool) -> (out: String)
    ensures
        out@ == normalized(value@, case_sensitive),
{
    normalize(value, case_sensitive)
}


// ---------------------------------------------------------------------------
// Preparing authored content
// ---------------------------------------------------------------------------

/// The authored definition of one blank.
#[derive(Debug, Clone)]
pub struct CreateClozeBlank {
    /// The number `n` of the placeholder `{{blank_<n>}}`.
    pub placeholder: u32,
    /// The expected answer.
    pub answer: String,
    /// Further accepted answers.
    pub synonyms: Vec<String>,
    /// The index of the correct option, where the cloze offers options.
    pub option_index: Option<u32>,
}

/// [`CreateClozeBlank`] with texts as sequences of characters.
pub struct BlankDef {
    pub placeholder: u32,
    pub answer: Seq<char>,
    pub synonyms: Seq<Seq<char>>,
    pub option_index: Option<u32>,
}

impl View for CreateClozeBlank {
    type V = BlankDef;

    open spec fn view(&self) -> BlankDef {
        BlankDef {
            placeholder: self.placeholder,
            answer: self.answer@,
            synonyms: texts(self.synonyms@),
            option_index: self.option_index,
        }
    }
}

/// A validated blank.
#[derive(Debug)]
pub struct PreparedBlank {
    pub placeholder: u32,
    pub answer: String,
    pub synonyms: Vec<String>,
    pub option_index: Option<usize>,
}

/// [`PreparedBlank`] with texts as sequences of characters.
pub struct PreparedBlankView {
    pub placeholder: u32,
    pub answer: Seq<char>,
    pub synonyms: Seq<Seq<char>>,
    pub option_index: Option<nat>,
}

impl View for PreparedBlank {
    type V = PreparedBlankView;

    open spec fn view(&self) -> PreparedBlankView {
        PreparedBlankView {
            placeholder: self.placeholder,
            answer: self.answer@,
            synonyms: texts(self.synonyms@),
            option_index: match self.option_index {
                Some(i) => Some(i as nat),
                None => None,
            },
        }
    }
}

/// Validated cloze content, ready to be stored.
#[derive(Debug)]
pub struct PreparedCloze {
    pub content: String,
    pub case_sensitive: bool,
    /// The blanks, ordered by placeholder.
    pub blanks: Vec<PreparedBlank>,
    /// The trimmed option labels, in the authored order.
    pub options: Vec<String>,
}

/// The definitions of a list of blanks.
pub open spec fn defs_of(blanks: Seq<CreateClozeBlank>) -> Seq<BlankDef> {
    blanks.map_values(|b: CreateClozeBlank| b@)
}

/// The views of a list of prepared blanks.
pub open spec fn prepared_views(blanks: Seq<PreparedBlank>) -> Seq<PreparedBlankView> {
    blanks.map_values(|b: PreparedBlank| b@)
}

/// The placeholder of the first definition among the first `n` whose
/// placeholder an earlier definition already has.
pub open spec fn repeated_definition(defs: Seq<BlankDef>, n: nat) -> Option<u32>
    decreases n,
{
    if n == 0 || n > defs.len() {
        None
    } else {
        match repeated_definition(defs, (n - 1) as nat) {
            Some(p) => Some(p),
            None => if exists|j: int| 0 <= j < n - 1 && (#[trigger] defs[j]).placeholder == defs[n - 1].placeholder {
                Some(defs[n - 1].placeholder)
            } else {
                None
            },
        }
    }
}

/// The trimmed labels of the first `n` options, or why they are refused:
/// a blank label, or a label that repeats an earlier one.
pub open spec fn checked_options(options: Seq<Seq<char>>, n: nat) -> Result<Seq<Seq<char>>, ValidationErrorView>
    decreases n,
{
    if n == 0 || n > options.len() {
        Ok(Seq::empty())
    } else {
        match checked_options(options, (n - 1) as nat) {
            Err(e) => Err(e),
            Ok(labels) => {
                let label = trim(options[n - 1]);
                if label.len() == 0 {
                    Err(ValidationErrorView::EmptyOption)
                } else if labels.contains(label) {
                    Err(ValidationErrorView::DuplicateOption(label))
                } else {
                    Ok(labels.push(label))
                }
            },
        }
    }
}

/// The index of the first definition at or after `i` for placeholder `p`.
pub open spec fn definition_from(defs: Seq<BlankDef>, p: u32, i: nat) -> Option<nat>
    decreases defs.len() - i,
{
    if i >= defs.len() {
        None
    } else if defs[i as int].placeholder == p {
        Some(i)
    } else {
        definition_from(defs, p, i + 1)
    }
}

/// The blanks for the first `n` placeholders in order of occurrence, with
/// the option indices they use; or why a placeholder is refused.
pub open spec fn built_blanks(
    ps: Seq<u32>,
    defs: Seq<BlankDef>,
    option_count: nat,
    case_sensitive: bool,
    n: nat,
) -> Result<(Seq<PreparedBlankView>, Seq<nat>), ValidationErrorView>
    decreases n,
{
    if n == 0 || n > ps.len() {
        Ok((Seq::empty(), Seq::empty()))
    } else {
        match built_blanks(ps, defs, option_count, case_sensitive, (n - 1) as nat) {
            Err(e) => Err(e),
            Ok((bs, used)) => {
                let p = ps[n - 1];
                match definition_from(defs, p, 0) {
                    None => Err(ValidationErrorView::MissingDefinition(p)),
                    Some(k) => {
                        let d = defs[k as int];
                        if trim(d.answer).len() == 0 {
                            Err(ValidationErrorView::EmptyAnswer(p))
                        } else {
                            let synonyms = kept_synonyms(d.synonyms, case_sensitive);
                            if option_count > 0 {
                                match d.option_index {
                                    Some(idx) => if idx >= option_count {
                                        Err(ValidationErrorView::OptionOutOfRange { placeholder: p, index: idx as nat })
                                    } else if used.contains(idx as nat) {
                                        Err(ValidationErrorView::OptionAlreadyUsed(idx as nat))
                                    } else {
                                        Ok((bs.push(PreparedBlankView {
                                            placeholder: p,
                                            answer: d.answer,
                                            synonyms,
                                            option_index: Some(idx as nat),
                                        }), used.push(idx as nat)))
                                    },
                                    None => Err(ValidationErrorView::MissingOptionAssignment(p)),
                                }
                            } else {
                                match d.option_index {
                                    Some(_) => Err(ValidationErrorView::UnexpectedOptionAssignment(p)),
                                    None => Ok((bs.push(PreparedBlankView {
                                        placeholder: p,
                                        answer: d.answer,
                                        synonyms,
                                        option_index: None,
                                    }), used)),
                                }
                            }
                        }
                    },
                }
            },
        }
    }
}

/// The blanks in order of occurrence and the trimmed option labels of
/// authored cloze content, or the first reason why it is refused, in the
/// order in which the checks are made.
pub open spec fn prepared(
    content: Seq<char>,
    case_sensitive: bool,
    defs: Seq<BlankDef>,
    options: Seq<Seq<char>>,
) -> Result<(Seq<PreparedBlankView>, Seq<Seq<char>>), ValidationErrorView> {
    match placeholders_of(content) {
        Err(e) => Err(e),
        Ok(ps) => if ps.len() == 0 {
            Err(ValidationErrorView::NoPlaceholders)
        } else {
            match repeated_definition(defs, defs.len()) {
                Some(p) => Err(ValidationErrorView::DuplicatePlaceholder(p)),
                None => match checked_options(options, options.len()) {
                    Err(e) => Err(e),
                    Ok(labels) => if labels.len() > 0 && labels.len() < ps.len() {
                        Err(ValidationErrorView::TooFewOptions { blanks: ps.len(), options: labels.len() })
                    } else {
                        match built_blanks(ps, defs, labels.len(), case_sensitive, ps.len()) {
                            Err(e) => Err(e),
                            Ok((bs, _)) => Ok((bs, labels)),
                        }
                    },
                },
            }
        },
    }
}

/// `out` holds the blanks of `src` ordered by strictly increasing
/// placeholder.
pub open spec fn sorted_arrangement(out: Seq<PreparedBlankView>, src: Seq<PreparedBlankView>) -> bool {
    &&& forall|k: int| 0 <= k < out.len() ==> #[trigger] src.contains(out[k])
    &&& forall|j: int| 0 <= j < src.len() ==> #[trigger] out.contains(src[j])
    &&& forall|a: int, b: int| 0 <= a < b < out.len() ==> out[a].placeholder < out[b].placeholder
}

fn clone_strings(v: &Vec<String>) -> (r: Vec<String>)
    ensures
        texts(r@) == texts(v@),
{
    let mut r: Vec<String> = Vec::new();
    let mut i: usize = 0;
    while i < v.len()
        invariant
            i <= v.len(),
            texts(r@) == texts(v@).take(i as int),
        decreases v.len() - i,
    {
        let ghost before = r@;
        r.push(v[i].clone());
        assert(texts(r@) =~= texts(before).push(v@[i as int]@));
        assert(texts(v@).take(i + 1) =~= texts(v@).take(i as int).push(v@[i as int]@));
        i = i + 1;
    }
    assert(texts(v@).take(v.len() as int) =~= texts(v@));
    r
}

fn clone_blank(b: &PreparedBlank) -> (r: PreparedBlank)
    ensures
        r@ == b@,
{
    PreparedBlank {
        placeholder: b.placeholder,
        answer: b.answer.clone(),
        synonyms: clone_strings(&b.synonyms),
        option_index: b.option_index,
    }
}

/// The placeholders that a scan collects stay distinct.
pub proof fn lemma_scan_distinct(s: Seq<char>, pos: nat, seen: Seq<u32>)
    requires
        seen.no_duplicates(),
    ensures
        scan_placeholders(s, pos, seen) matches Ok(ps) ==> ps.no_duplicates(),
    decreases s.len() - pos,
{
    lemma_find_opening(s, pos);
    match find_opening(s, pos) {
        None => {},
        Some(idx) => {
            let start = idx + 8;
            let d = digit_run(s, start);
            if d != 0 && start + d + 2 <= s.len() && s[(start + d) as int] == '}' && s[(start + d + 1) as int] == '}' {
                let v = digits_value(s, start, start + d);
                if !(v > u32::MAX || v == 0) && !seen.contains(v as u32) {
                    let next = seen.push(v as u32);
                    assert forall|a: int, b: int| 0 <= a < next.len() && 0 <= b < next.len() && a != b implies next[a] != next[b] by {
                        if a < seen.len() && b < seen.len() {
                        } else if a == seen.len() {
                            assert(!seen.contains(next[a]));
                            assert(seen[b] == next[b]);
                        } else {
                            assert(!seen.contains(next[b]));
                            assert(seen[a] == next[a]);
                        }
                    }
                    lemma_scan_distinct(s, start + d + 2, next);
                }
            }
        },
    }
}

proof fn lemma_built_placeholders(
    ps: Seq<u32>,
    defs: Seq<BlankDef>,
    option_count: nat,
    case_sensitive: bool,
    n: nat,
)
    requires
        n <= ps.len(),
    ensures
        built_blanks(ps, defs, option_count, case_sensitive, n) matches Ok((bs, _)) ==> bs.len() == n
            && forall|i: int| 0 <= i < n ==> (#[trigger] bs[i]).placeholder == ps[i],
    decreases n,
{
    if n > 0 {
        lemma_built_placeholders(ps, defs, option_count, case_sensitive, (n - 1) as nat);
    }
}

/// Whether index `j` occurs in `order`.
pub open spec fn listed(order: Seq<usize>, j: int) -> bool {
    exists|k: int| 0 <= k < order.len() && order[k] == j
}

/// The order in which the blanks are visited by strictly increasing
/// placeholder, as indices into `src`.
fn placeholder_order(src: &Vec<PreparedBlank>) -> (order: Vec<usize>)
    requires
        forall|a: int, b: int| 0 <= a < b < src.len() ==> src@[a].placeholder != src@[b].placeholder,
    ensures
        forall|k: int| 0 <= k < order.len() ==> (#[trigger] order@[k]) < src.len(),
        forall|a: int, b: int| 0 <= a < b < order.len() ==> src@[order@[a] as int].placeholder < src@[order@[b] as int].placeholder,
        forall|j: int| 0 <= j < src.len() ==> #[trigger] listed(order@, j),
{
    let mut order: Vec<usize> = Vec::new();
    let mut bound: u64 = 0;
    loop
        invariant
            bound <= u32::MAX as u64 + 1,
            forall|a: int, b: int| 0 <= a < b < src.len() ==> src@[a].placeholder != src@[b].placeholder,
            forall|k: int| 0 <= k < order.len() ==> (#[trigger] order@[k]) < src.len(),
            forall|a: int, b: int| 0 <= a < b < order.len() ==> src@[order@[a] as int].placeholder < src@[order@[b] as int].placeholder,
            forall|k: int| 0 <= k < order.len() ==> src@[(#[trigger] order@[k]) as int].placeholder < bound,
            forall|j: int| 0 <= j < src.len() && (#[trigger] src@[j]).placeholder < bound ==> listed(order@, j),
        ensures
            forall|k: int| 0 <= k < order.len() ==> (#[trigger] order@[k]) < src.len(),
            forall|a: int, b: int| 0 <= a < b < order.len() ==> src@[order@[a] as int].placeholder < src@[order@[b] as int].placeholder,
            forall|j: int| 0 <= j < src.len() ==> #[trigger] listed(order@, j),
        decreases u32::MAX as u64 + 1 - bound,
    {
        let mut best: Option<usize> = None;
        let mut i: usize = 0;
        while i < src.len()
            invariant
                i <= src.len(),
                best matches Some(b) ==> b < i && src@[b as int].placeholder as u64 >= bound,
                forall|j: int| 0 <= j < i && (#[trigger] src@[j]).placeholder as u64 >= bound ==> (best matches Some(b) && src@[b as int].placeholder <= src@[j].placeholder),
            decreases src.len() - i,
        {
            if src[i].placeholder as u64 >= bound {
                match best {
                    None => {
                        best = Some(i);
                    },
                    Some(b) => {
                        if src[i].placeholder < src[b].placeholder {
                            best = Some(i);
                        }
                    },
                }
            }
            i = i + 1;
        }
        match best {
            None => {
                proof {
                    assert forall|j: int| 0 <= j < src.len() implies #[trigger] listed(order@, j) by {
                        assert(src@[j].placeholder < bound);
                    }
                }
                break;
            },
            Some(b) => {
                let ghost old_order = order@;
                let m = src[b].placeholder;
                order.push(b);
                proof {
                    assert forall|j: int| 0 <= j < src.len() && (#[trigger] src@[j]).placeholder < m as u64 + 1 implies listed(order@, j) by {
                        if src@[j].placeholder < bound {
                            assert(listed(old_order, j));
                            let k = choose|k: int| 0 <= k < old_order.len() && old_order[k] == j;
                            assert(order@[k] == old_order[k]);
                        } else {
                            assert(src@[j].placeholder == m);
                            assert(j == b);
                            assert(order@[old_order.len() as int] == j);
                        }
                    }
                    assert forall|k: int| 0 <= k < order.len() implies src@[(#[trigger] order@[k]) as int].placeholder < m as u64 + 1 by {
                        if k < old_order.len() {
                            assert(order@[k] == old_order[k]);
                        }
                    }
                }
                bound = m as u64 + 1;
            },
        }
    }
    order
}

/// Arrange blanks by strictly increasing placeholder.
#[verifier::rlimit(40)]
fn sort_blanks(src: &Vec<PreparedBlank>) -> (out: Vec<PreparedBlank>)
    requires
        forall|a: int, b: int| 0 <= a < b < src.len() ==> src@[a].placeholder != src@[b].placeholder,
    ensures
        sorted_arrangement(prepared_views(out@), prepared_views(src@)),
{
    let order = placeholder_order(src);
    let ghost sv = prepared_views(src@);
    let mut out: Vec<PreparedBlank> = Vec::new();
    let mut k: usize = 0;
    while k < order.len()
        invariant
            k <= order.len(),
            sv == prepared_views(src@),
            forall|i: int| 0 <= i < order.len() ==> (#[trigger] order@[i]) < src.len(),
            out.len() == k,
            forall|i: int| 0 <= i < k ==> #[trigger] prepared_views(out@)[i] == sv[order@[i] as int],
        decreases order.len() - k,
    {
        let ghost before = out@;
        out.push(clone_blank(&src[order[k]]));
        assert forall|i: int| 0 <= i < k + 1 implies #[trigger] prepared_views(out@)[i] == sv[order@[i] as int] by {
            if i < k {
                assert(prepared_views(out@)[i] == prepared_views(before)[i]);
            }
        }
        k = k + 1;
    }
    proof {
        let ov = prepared_views(out@);
        assert forall|i: int| 0 <= i < ov.len() implies #[trigger] sv.contains(ov[i]) by {
            assert(ov[i] == sv[order@[i] as int]);
        }
        assert forall|j: int| 0 <= j < sv.len() implies #[trigger] ov.contains(sv[j]) by {
            assert(listed(order@, j));
            let i = choose|i: int| 0 <= i < order.len() && order@[i] == j;
            assert(ov[i] == sv[j]);
        }
        assert forall|a: int, b: int| 0 <= a < b < ov.len() implies ov[a].placeholder < ov[b].placeholder by {
            assert(ov[a] == sv[order@[a] as int]);
            assert(ov[b] == sv[order@[b] as int]);
        }
    }
    out
}

proof fn lemma_no_repeat(defs: Seq<BlankDef>, n: nat, j: int, k: int)
    requires
        repeated_definition(defs, n) is None,
        0 <= j < k < n <= defs.len(),
    ensures
        defs[j].placeholder != defs[k].placeholder,
    decreases n,
{
    if k < n - 1 {
        lemma_no_repeat(defs, (n - 1) as nat, j, k);
    } else if defs[j].placeholder == defs[k].placeholder {
        assert(repeated_definition(defs, n) == Some(defs[k].placeholder));
    }
}

proof fn lemma_definition_at(defs: Seq<BlankDef>, p: u32, i: nat, k: nat)
    requires
        i <= k < defs.len(),
        defs[k as int].placeholder == p,
        forall|j: int| i <= j < k ==> (#[trigger] defs[j]).placeholder != p,
    ensures
        definition_from(defs, p, i) == Some(k),
    decreases k - i,
{
    if i < k {
        lemma_definition_at(defs, p, i + 1, k);
    }
}

proof fn lemma_definition_none(defs: Seq<BlankDef>, p: u32, i: nat)
    requires
        forall|j: int| i <= j < defs.len() ==> (#[trigger] defs[j]).placeholder != p,
    ensures
        definition_from(defs, p, i) is None,
    decreases defs.len() - i,
{
    if i < defs.len() {
        lemma_definition_none(defs, p, i + 1);
    }
}

impl PreparedCloze {
    /// Validate authored cloze content: the placeholders of the content, one
    /// definition per placeholder with a non-blank answer, distinct non-blank
    /// option labels, and, where there are options, a distinct valid option
    /// for every blank. Synonyms are sanitized and the blanks ordered by
    /// placeholder.
    #[verifier::loop_isolation(false)]
    pub fn new(content: String, case_sensitive: bool, blanks: Vec<CreateClozeBlank>, options: Vec<String>) -> (res: Result<Self, ValidationError>)
        ensures
            match res {
                Err(e) => prepared(content@, case_sensitive, defs_of(blanks@), texts(options@))
                    == Err::<(Seq<PreparedBlankView>, Seq<Seq<char>>), ValidationErrorView>(e@),
                Ok(p) => prepared(content@, case_sensitive, defs_of(blanks@), texts(options@)) matches Ok((bs, labels))
                    && p.content@ == content@ && p.case_sensitive == case_sensitive
                    && texts(p.options@) == labels
                    && sorted_arrangement(prepared_views(p.blanks@), bs),
            },
    {
        let ghost defs = defs_of(blanks@);
        let ghost opts = texts(options@);
        let placeholders = match extract_placeholders(content.as_str()) {
            Ok(p) => p,
            Err(e) => {
                return Err(e);
            },
        };
        if placeholders.len() == 0 {
            return Err(ValidationError::NoPlaceholders);
        }
        // One definition per placeholder.
        let mut definitions: HashMap<u32, usize> = HashMap::new();
        let mut i: usize = 0;
        while i < blanks.len()
            invariant
                i <= blanks.len(),
                defs == defs_of(blanks@),
                repeated_definition(defs, i as nat) is None,
                forall|p: u32| #[trigger] definitions@.contains_key(p) == exists|j: int| 0 <= j < i && (#[trigger] defs[j]).placeholder == p,
                forall|p: u32| #[trigger] definitions@.contains_key(p) ==> definitions@[p] < i && defs[definitions@[p] as int].placeholder == p,
            decreases blanks.len() - i,
        {
            let p = blanks[i].placeholder;
            assert(defs[i as int].placeholder == p);
            let ghost before = definitions@;
            if definitions.insert(p, i).is_some() {
                proof {
                    let j = choose|j: int| 0 <= j < i && (#[trigger] defs[j]).placeholder == p;
                    assert(repeated_definition(defs, (i + 1) as nat) == Some(p));
                    lemma_repeated_definition_stays(defs, (i + 1) as nat, blanks.len() as nat);
                }
                return Err(ValidationError::DuplicatePlaceholder(p));
            }
            proof {
                assert forall|q: u32| #[trigger] definitions@.contains_key(q) == exists|j: int| 0 <= j < i + 1 && (#[trigger] defs[j]).placeholder == q by {
                    if q == p {
                        assert(defs[i as int].placeholder == q);
                    } else if exists|j: int| 0 <= j < i + 1 && (#[trigger] defs[j]).placeholder == q {
                        let j = choose|j: int| 0 <= j < i + 1 && (#[trigger] defs[j]).placeholder == q;
                        assert(j < i);
                        assert(before.contains_key(q));
                    }
                }
            }
            assert(repeated_definition(defs, (i + 1) as nat) is None);
            i = i + 1;
        }
        // Distinct non-blank option labels.
        let mut labels: Vec<String> = Vec::new();
        assert(texts(labels@) =~= Seq::<Seq<char>>::empty());
        let mut i: usize = 0;
        while i < options.len()
            invariant
                i <= options.len(),
                opts == texts(options@),
                checked_options(opts, i as nat) == Ok::<Seq<Seq<char>>, ValidationErrorView>(texts(labels@)),
            decreases options.len() - i,
        {
            let label = trimmed(&chars_of(options[i].as_str()));
            assert(opts[i as int] == options@[i as int]@);
            if label.as_str().is_empty() {
                proof {
                    lemma_checked_options_stays(opts, (i + 1) as nat, options.len() as nat);
                }
                return Err(ValidationError::EmptyOption);
            }
            if contains_string(&labels, &label) {
                proof {
                    lemma_checked_options_stays(opts, (i + 1) as nat, options.len() as nat);
                }
                return Err(ValidationError::DuplicateOption(label));
            }
            let ghost before = labels@;
            labels.push(label);
            assert(texts(labels@) =~= texts(before).push(trim(opts[i as int])));
            i = i + 1;
        }
        let variant_b = labels.len() > 0;
        if variant_b && labels.len() < placeholders.len() {
            return Err(ValidationError::TooFewOptions { blanks: placeholders.len(), options: labels.len() });
        }
        // One blank per placeholder.
        let ghost ps = placeholders@;
        let ghost count = labels.len() as nat;
        let mut used_options: HashSet<usize> = HashSet::new();
        let ghost mut used: Seq<nat> = Seq::empty();
        let mut built: Vec<PreparedBlank> = Vec::new();
        let mut n: usize = 0;
        assert(prepared_views(built@) =~= Seq::<PreparedBlankView>::empty());
        while n < placeholders.len()
            invariant
                n <= placeholders.len(),
                ps == placeholders@,
                defs == defs_of(blanks@),
                count == labels.len(),
                variant_b == (labels.len() > 0),
                repeated_definition(defs, defs.len()) is None,
                forall|p: u32| #[trigger] definitions@.contains_key(p) == exists|j: int| 0 <= j < defs.len() && (#[trigger] defs[j]).placeholder == p,
                forall|p: u32| #[trigger] definitions@.contains_key(p) ==> definitions@[p] < defs.len() && defs[definitions@[p] as int].placeholder == p,
                built_blanks(ps, defs, count, case_sensitive, n as nat) == Ok::<(Seq<PreparedBlankView>, Seq<nat>), ValidationErrorView>(
                    (prepared_views(built@), used),
                ),
                forall|x: usize| #[trigger] used_options@.contains(x) == used.contains(x as nat),
            decreases placeholders.len() - n,
        {
            let p = placeholders[n];
            let k = match definitions.get(&p) {
                Some(k) => *k,
                None => {
                    proof {
                        lemma_definition_none(defs, p, 0);
                        lemma_built_blanks_stays(ps, defs, count, case_sensitive, (n + 1) as nat, ps.len());
                    }
                    return Err(ValidationError::MissingDefinition(p));
                },
            };
            proof {
                assert forall|j: int| 0 <= j < k implies (#[trigger] defs[j]).placeholder != p by {
                    lemma_no_repeat(defs, defs.len(), j, k as int);
                }
                lemma_definition_at(defs, p, 0, k as nat);
            }
            assert(defs[k as int] == blanks@[k as int]@);
            let answer_chars = chars_of(blanks[k].answer.as_str());
            let (start, end) = trim_bounds(&answer_chars);
            if start == end {
                proof {
                    lemma_built_blanks_stays(ps, defs, count, case_sensitive, (n + 1) as nat, ps.len());
                }
                return Err(ValidationError::EmptyAnswer(p));
            }
            let synonyms = sanitize_synonyms(blanks[k].synonyms.as_slice(), case_sensitive);
            let option_index: Option<usize> = match (variant_b, blanks[k].option_index) {
                (true, Some(idx)) => {
                    let idx = idx as usize;
                    if idx >= labels.len() {
                        proof {
                            lemma_built_blanks_stays(ps, defs, count, case_sensitive, (n + 1) as nat, ps.len());
                        }
                        return Err(ValidationError::OptionOutOfRange { placeholder: p, index: idx });
                    }
                    if !used_options.insert(idx) {
                        proof {
                            lemma_built_blanks_stays(ps, defs, count, case_sensitive, (n + 1) as nat, ps.len());
                        }
                        return Err(ValidationError::OptionAlreadyUsed(idx));
                    }
                    proof {
                        lemma_push_contains(used, idx as nat);
                        used = used.push(idx as nat);
                    }
                    Some(idx)
                },
                (true, None) => {
                    proof {
                        lemma_built_blanks_stays(ps, defs, count, case_sensitive, (n + 1) as nat, ps.len());
                    }
                    return Err(ValidationError::MissingOptionAssignment(p));
                },
                (false, Some(_)) => {
                    proof {
                        lemma_built_blanks_stays(ps, defs, count, case_sensitive, (n + 1) as nat, ps.len());
                    }
                    return Err(ValidationError::UnexpectedOptionAssignment(p));
                },
                (false, None) => None,
            };
            let ghost before = built@;
            built.push(PreparedBlank { placeholder: p, answer: blanks[k].answer.clone(), synonyms, option_index });
            assert(prepared_views(built@) =~= prepared_views(before).push(built@.last()@));
            n = n + 1;
        }
        proof {
            lemma_scan_distinct(content@, 0, Seq::empty());
            lemma_built_placeholders(ps, defs, count, case_sensitive, ps.len());
            assert forall|a: int, b: int| 0 <= a < b < built.len() implies built@[a].placeholder != built@[b].placeholder by {
                assert(prepared_views(built@)[a].placeholder == built@[a].placeholder);
                assert(prepared_views(built@)[b].placeholder == built@[b].placeholder);
            }
        }
        let sorted = sort_blanks(&built);
        Ok(PreparedCloze { content, case_sensitive, blanks: sorted, options: labels })
    }
}

proof fn lemma_repeated_definition_stays(defs: Seq<BlankDef>, n: nat, m: nat)
    requires
        n <= m <= defs.len(),
        repeated_definition(defs, n) is Some,
    ensures
        repeated_definition(defs, m) == repeated_definition(defs, n),
    decreases m - n,
{
    if m > n {
        lemma_repeated_definition_stays(defs, n, (m - 1) as nat);
    }
}

proof fn lemma_checked_options_stays(options: Seq<Seq<char>>, n: nat, m: nat)
    requires
        n <= m <= options.len(),
        checked_options(options, n) is Err,
    ensures
        checked_options(options, m) == checked_options(options, n),
    decreases m - n,
{
    if m > n {
        lemma_checked_options_stays(options, n, (m - 1) as nat);
    }
}

proof fn lemma_built_blanks_stays(
    ps: Seq<u32>,
    defs: Seq<BlankDef>,
    option_count: nat,
    case_sensitive: bool,
    n: nat,
    m: nat,
)
    requires
        n <= m <= ps.len(),
        built_blanks(ps, defs, option_count, case_sensitive, n) is Err,
    ensures
        built_blanks(ps, defs, option_count, case_sensitive, m) == built_blanks(ps, defs, option_count, case_sensitive, n),
    decreases m - n,
{
    if m > n {
        lemma_built_blanks_stays(ps, defs, option_count, case_sensitive, n, (m - 1) as nat);
    }
}


// ---------------------------------------------------------------------------
// Grading attempts
// ---------------------------------------------------------------------------

/// A stored blank of a cloze.
pub struct ClozeBlankRow {
    pub id: Uuid,
    pub placeholder: i32,
    pub answer: String,
    pub synonyms: Vec<String>,
    pub correct_option_id: Option<Uuid>,
}

/// [`ClozeBlankRow`] with texts as sequences of characters.
pub struct ClozeBlankRowView {
    pub id: Uuid,
    pub placeholder: i32,
    pub answer: Seq<char>,
    pub synonyms: Seq<Seq<char>>,
    pub correct_option_id: Option<Uuid>,
}

impl View for ClozeBlankRow {
    type V = ClozeBlankRowView;

    open spec fn view(&self) -> ClozeBlankRowView {
        ClozeBlankRowView {
            id: self.id,
            placeholder: self.placeholder,
            answer: self.answer@,
            synonyms: texts(self.synonyms@),
            correct_option_id: self.correct_option_id,
        }
    }
}

/// The answer given for one blank.
pub struct ClozeAnswer {
    pub blank_id: Uuid,
    pub option_id: Option<Uuid>,
    pub text: Option<String>,
}

/// [`ClozeAnswer`] with its text as a sequence of characters.
pub struct ClozeAnswerView {
    pub blank_id: Uuid,
    pub option_id: Option<Uuid>,
    pub text: Option<Seq<char>>,
}

impl View for ClozeAnswer {
    type V = ClozeAnswerView;

    open spec fn view(&self) -> ClozeAnswerView {
        ClozeAnswerView {
            blank_id: self.blank_id,
            option_id: self.option_id,
            text: match self.text {
                Some(t) => Some(t@),
                None => None,
            },
        }
    }
}

/// Why the answers of an attempt are refused.
#[derive(PartialEq, Eq, Structural, Debug)]
pub enum ClozeAnswerError {
    /// An answer names a blank that the cloze does not have.
    UnknownBlank(Uuid),
    /// A blank is answered more than once.
    RepeatedBlank(Uuid),
    /// An option is chosen although the cloze offers none.
    OptionNotAllowed,
    /// No option is chosen although the cloze offers options.
    OptionMissing,
    /// A text is typed although the cloze offers options.
    TextNotAllowed,
    /// The chosen option does not belong to the cloze.
    ForeignOption(Uuid),
    /// An option is chosen for more than one blank.
    OptionReused(Uuid),
    /// A blank is not answered.
    Unanswered,
}

/// The views of stored blanks.
pub open spec fn blank_rows(blanks: Seq<ClozeBlankRow>) -> Seq<ClozeBlankRowView> {
    blanks.map_values(|b: ClozeBlankRow| b@)
}

/// The views of answers.
pub open spec fn answer_views(answers: Seq<ClozeAnswer>) -> Seq<ClozeAnswerView> {
    answers.map_values(|a: ClozeAnswer| a@)
}

/// The index of the last of the first `n` blanks with identifier `id`.
pub open spec fn last_blank(blanks: Seq<ClozeBlankRowView>, id: Uuid, n: nat) -> Option<nat>
    decreases n,
{
    if n == 0 || n > blanks.len() {
        None
    } else if blanks[n - 1].id == id {
        Some((n - 1) as nat)
    } else {
        last_blank(blanks, id, (n - 1) as nat)
    }
}

/// Whether a typed text answers a blank: it is not blank, and its normal
/// form equals that of the answer or of one of the synonyms.
pub open spec fn typed_correct(blank: ClozeBlankRowView, text: Option<Seq<char>>, case_sensitive: bool) -> bool {
    let t = trim(
        match text {
            Some(t) => t,
            None => Seq::empty(),
        },
    );
    if t.len() == 0 {
        false
    } else {
        let n = normalized(t, case_sensitive);
        normalized(blank.answer, case_sensitive) == n || norms(blank.synonyms, case_sensitive).contains(n)
    }
}

/// The first `n` answers graded in order: the blanks answered, the options
/// chosen and the number of correct answers; or the first reason why the
/// answers are refused.
pub open spec fn graded(
    blanks: Seq<ClozeBlankRowView>,
    options: Seq<Uuid>,
    case_sensitive: bool,
    answers: Seq<ClozeAnswerView>,
    n: nat,
) -> Result<(Seq<Uuid>, Seq<Uuid>, nat), ClozeAnswerError>
    decreases n,
{
    if n == 0 || n > answers.len() {
        Ok((Seq::empty(), Seq::empty(), 0))
    } else {
        match graded(blanks, options, case_sensitive, answers, (n - 1) as nat) {
            Err(e) => Err(e),
            Ok((answered, used, correct)) => {
                let a = answers[n - 1];
                match last_blank(blanks, a.blank_id, blanks.len()) {
                    None => Err(ClozeAnswerError::UnknownBlank(a.blank_id)),
                    Some(k) => if answered.contains(a.blank_id) {
                        Err(ClozeAnswerError::RepeatedBlank(a.blank_id))
                    } else if options.len() == 0 {
                        if a.option_id is Some {
                            Err(ClozeAnswerError::OptionNotAllowed)
                        } else {
                            let ok = typed_correct(blanks[k as int], a.text, case_sensitive);
                            Ok((answered.push(a.blank_id), used, correct + if ok { 1nat } else { 0nat }))
                        }
                    } else {
                        match a.option_id {
                            None => Err(ClozeAnswerError::OptionMissing),
                            Some(o) => if a.text is Some {
                                Err(ClozeAnswerError::TextNotAllowed)
                            } else if !options.contains(o) {
                                Err(ClozeAnswerError::ForeignOption(o))
                            } else if used.contains(o) {
                                Err(ClozeAnswerError::OptionReused(o))
                            } else {
                                let ok = blanks[k as int].correct_option_id == Some(o);
                                Ok((answered.push(a.blank_id), used.push(o), correct + if ok { 1nat } else { 0nat }))
                            },
                        }
                    },
                }
            },
        }
    }
}

/// The number of correctly answered blanks of an attempt, or why its answers
/// are refused: every answer in order, then whether every blank was answered.
pub open spec fn grade(
    blanks: Seq<ClozeBlankRowView>,
    options: Seq<Uuid>,
    case_sensitive: bool,
    answers: Seq<ClozeAnswerView>,
) -> Result<nat, ClozeAnswerError> {
    match graded(blanks, options, case_sensitive, answers, answers.len()) {
        Err(e) => Err(e),
        Ok((answered, _, correct)) => if exists|j: int| 0 <= j < blanks.len() && !answered.contains(#[trigger] blanks[j].id) {
            Err(ClozeAnswerError::Unanswered)
        } else {
            Ok(correct)
        },
    }
}

/// The answer an author gives to a stored blank: its correct option where
/// the cloze offers options, its answer typed out otherwise.
pub open spec fn author_answer(blank: ClozeBlankRowView, with_options: bool) -> ClozeAnswerView {
    if with_options {
        ClozeAnswerView { blank_id: blank.id, option_id: blank.correct_option_id, text: None }
    } else {
        ClozeAnswerView { blank_id: blank.id, option_id: None, text: Some(blank.answer) }
    }
}

/// The author's answers to every blank, in the order of the blanks.
pub open spec fn author_answers(blanks: Seq<ClozeBlankRowView>, with_options: bool) -> Seq<ClozeAnswerView> {
    Seq::new(blanks.len(), |i: int| author_answer(blanks[i], with_options))
}

/// What a stored cloze satisfies: distinct blanks, and either typed answers
/// that are not blank, or, where there are options, for every blank a
/// correct option of the cloze that no other blank has.
pub open spec fn well_stored(blanks: Seq<ClozeBlankRowView>, options: Seq<Uuid>) -> bool {
    &&& forall|i: int, j: int| 0 <= i < blanks.len() && 0 <= j < blanks.len() && i != j ==> #[trigger] blanks[i].id != #[trigger] blanks[j].id
    &&& options.len() == 0 ==> forall|i: int| 0 <= i < blanks.len() ==> trim(#[trigger] blanks[i].answer).len() > 0
    &&& options.len() > 0 ==> forall|i: int|
        0 <= i < blanks.len() ==> (#[trigger] blanks[i].correct_option_id matches Some(o) && options.contains(o))
    &&& options.len() > 0 ==> forall|i: int, j: int|
        0 <= i < blanks.len() && 0 <= j < blanks.len() && i != j ==> #[trigger] blanks[i].correct_option_id
            != #[trigger] blanks[j].correct_option_id
}

/// The identifiers of the blanks.
pub open spec fn blank_ids(blanks: Seq<ClozeBlankRowView>) -> Seq<Uuid> {
    Seq::new(blanks.len(), |i: int| blanks[i].id)
}

/// The correct options of the blanks.
pub open spec fn correct_options(blanks: Seq<ClozeBlankRowView>) -> Seq<Uuid> {
    Seq::new(
        blanks.len(),
        |i: int|
            match blanks[i].correct_option_id {
                Some(o) => o,
                None => 0,
            },
    )
}

proof fn lemma_last_blank_unique(blanks: Seq<ClozeBlankRowView>, k: int, m: nat)
    requires
        0 <= k < m <= blanks.len(),
        forall|i: int, j: int| 0 <= i < blanks.len() && 0 <= j < blanks.len() && i != j ==> #[trigger] blanks[i].id != #[trigger] blanks[j].id,
    ensures
        last_blank(blanks, blanks[k].id, m) == Some(k as nat),
    decreases m,
{
    if m - 1 != k {
        assert(blanks[m - 1].id != blanks[k].id);
        lemma_last_blank_unique(blanks, k, (m - 1) as nat);
    }
}

proof fn lemma_author_graded(blanks: Seq<ClozeBlankRowView>, options: Seq<Uuid>, case_sensitive: bool, n: nat)
    requires
        well_stored(blanks, options),
        n <= blanks.len(),
    ensures
        graded(blanks, options, case_sensitive, author_answers(blanks, options.len() > 0), n) == Ok::<
            (Seq<Uuid>, Seq<Uuid>, nat),
            ClozeAnswerError,
        >((
            blank_ids(blanks).take(n as int),
            if options.len() > 0 {
                correct_options(blanks).take(n as int)
            } else {
                Seq::empty()
            },
            n,
        )),
    decreases n,
{
    let answers = author_answers(blanks, options.len() > 0);
    let ids = blank_ids(blanks);
    let opts = correct_options(blanks);
    if n == 0 {
        assert(ids.take(0) =~= Seq::<Uuid>::empty());
        assert(opts.take(0) =~= Seq::<Uuid>::empty());
    } else {
        let k = n - 1;
        lemma_author_graded(blanks, options, case_sensitive, (n - 1) as nat);
        let a = answers[k];
        assert(a == author_answer(blanks[k], options.len() > 0));
        lemma_last_blank_unique(blanks, k, blanks.len());
        assert(!ids.take(k).contains(a.blank_id)) by {
            if ids.take(k).contains(a.blank_id) {
                let j = choose|j: int| 0 <= j < ids.take(k).len() && ids.take(k)[j] == a.blank_id;
                assert(blanks[j].id == blanks[k].id);
            }
        }
        assert(ids.take(n as int) =~= ids.take(k).push(a.blank_id));
        if options.len() == 0 {
            let b = blanks[k];
            lemma_trim_idempotent(b.answer);
            assert(trim(b.answer).len() > 0);
            assert(typed_correct(b, a.text, case_sensitive));
        } else {
            let o = opts[k];
            assert(blanks[k].correct_option_id == Some(o));
            assert(!opts.take(k).contains(o)) by {
                if opts.take(k).contains(o) {
                    let j = choose|j: int| 0 <= j < opts.take(k).len() && opts.take(k)[j] == o;
                    assert(blanks[j].correct_option_id == Some(o));
                    assert(blanks[j].correct_option_id != blanks[k].correct_option_id);
                }
            }
            assert(opts.take(n as int) =~= opts.take(k).push(o));
        }
    }
}

/// Which typed texts answer a blank, whether or not the cloze is case
/// sensitive: exactly those that are not blank and whose normal form is that
/// of the blank's answer or of one of its synonyms. No text at all answers
/// nothing.
pub proof fn lemma_typed_answer_accepted(blank: ClozeBlankRowView, text: Seq<char>, case_sensitive: bool)
    ensures
        typed_correct(blank, Some(text), case_sensitive) <==> (trim(text).len() > 0 && (normalized(text, case_sensitive)
            == normalized(blank.answer, case_sensitive) || exists|k: int|
            0 <= k < blank.synonyms.len() && normalized(text, case_sensitive) == normalized(
                #[trigger] blank.synonyms[k],
                case_sensitive,
            ))),
        !typed_correct(blank, None, case_sensitive),
{
    lemma_trim_idempotent(text);
    let n = normalized(text, case_sensitive);
    assert(normalized(trim(text), case_sensitive) == n);
    let ns = norms(blank.synonyms, case_sensitive);
    if exists|k: int| 0 <= k < blank.synonyms.len() && n == normalized(#[trigger] blank.synonyms[k], case_sensitive) {
        let k = choose|k: int| 0 <= k < blank.synonyms.len() && n == normalized(#[trigger] blank.synonyms[k], case_sensitive);
        assert(ns[k] == n);
        assert(ns.contains(n));
    }
    if ns.contains(n) {
        let k = choose|k: int| 0 <= k < ns.len() && ns[k] == n;
        assert(n == normalized(blank.synonyms[k], case_sensitive));
    }
    assert(trim(Seq::<char>::empty()).len() == 0);
}

/// Typed answers to every blank, in the order of the blanks.
pub open spec fn typed_answers(blanks: Seq<ClozeBlankRowView>, texts: Seq<Seq<char>>) -> Seq<ClozeAnswerView> {
    Seq::new(
        blanks.len(),
        |i: int| ClozeAnswerView { blank_id: blanks[i].id, option_id: None, text: Some(texts[i]) },
    )
}

/// A text answers a blank: it is not blank, and its normal form is that of
/// the blank's answer or of one of its synonyms.
pub open spec fn answers_blank(blank: ClozeBlankRowView, text: Seq<char>, case_sensitive: bool) -> bool {
    &&& trim(text).len() > 0
    &&& normalized(text, case_sensitive) == normalized(blank.answer, case_sensitive) || exists|k: int|
        0 <= k < blank.synonyms.len() && normalized(text, case_sensitive) == normalized(
            #[trigger] blank.synonyms[k],
            case_sensitive,
        )
}

proof fn lemma_typed_graded(blanks: Seq<ClozeBlankRowView>, case_sensitive: bool, texts: Seq<Seq<char>>, n: nat)
    requires
        forall|i: int, j: int| 0 <= i < blanks.len() && 0 <= j < blanks.len() && i != j ==> #[trigger] blanks[i].id != #[trigger] blanks[j].id,
        texts.len() == blanks.len(),
        forall|i: int| 0 <= i < blanks.len() ==> answers_blank(#[trigger] blanks[i], texts[i], case_sensitive),
        n <= blanks.len(),
    ensures
        graded(blanks, Seq::empty(), case_sensitive, typed_answers(blanks, texts), n) == Ok::<
            (Seq<Uuid>, Seq<Uuid>, nat),
            ClozeAnswerError,
        >((blank_ids(blanks).take(n as int), Seq::empty(), n)),
    decreases n,
{
    let answers = typed_answers(blanks, texts);
    let ids = blank_ids(blanks);
    if n == 0 {
        assert(ids.take(0) =~= Seq::<Uuid>::empty());
    } else {
        let k = n - 1;
        lemma_typed_graded(blanks, case_sensitive, texts, (n - 1) as nat);
        let a = answers[k];
        lemma_last_blank_unique(blanks, k, blanks.len());
        assert(!ids.take(k).contains(a.blank_id)) by {
            if ids.take(k).contains(a.blank_id) {
                let j = choose|j: int| 0 <= j < ids.take(k).len() && ids.take(k)[j] == a.blank_id;
                assert(blanks[j].id == blanks[k].id);
            }
        }
        assert(ids.take(n as int) =~= ids.take(k).push(a.blank_id));
        assert(answers_blank(blanks[k], texts[k], case_sensitive));
        lemma_typed_answer_accepted(blanks[k], texts[k], case_sensitive);
        assert(typed_correct(blanks[k], a.text, case_sensitive));
    }
}

/// Typing, for every blank of a cloze without options, a text that answers
/// it (by its answer or by any of its synonyms, case sensitive or not)
/// solves the cloze: every blank is counted correct.
pub proof fn lemma_accepted_texts_solve(blanks: Seq<ClozeBlankRowView>, case_sensitive: bool, texts: Seq<Seq<char>>)
    requires
        forall|i: int, j: int| 0 <= i < blanks.len() && 0 <= j < blanks.len() && i != j ==> #[trigger] blanks[i].id != #[trigger] blanks[j].id,
        texts.len() == blanks.len(),
        forall|i: int| 0 <= i < blanks.len() ==> answers_blank(#[trigger] blanks[i], texts[i], case_sensitive),
    ensures
        grade(blanks, Seq::empty(), case_sensitive, typed_answers(blanks, texts)) == Ok::<nat, ClozeAnswerError>(
            blanks.len(),
        ),
{
    lemma_typed_graded(blanks, case_sensitive, texts, blanks.len());
    let ids = blank_ids(blanks);
    assert(ids.take(blanks.len() as int) =~= ids);
    assert forall|j: int| 0 <= j < blanks.len() implies ids.contains(#[trigger] blanks[j].id) by {
        assert(ids[j] == blanks[j].id);
    }
}

/// One answer to a cloze of one blank is graded by what it says: a typed
/// text counts exactly when it answers the blank (by its answer or any
/// synonym), a chosen option of the cloze exactly when it is the blank's
/// correct option.
pub proof fn lemma_single_blank_grade(blank: ClozeBlankRowView, options: Seq<Uuid>, case_sensitive: bool, answer: ClozeAnswerView)
    requires
        answer.blank_id == blank.id,
        options.len() == 0 ==> answer.option_id is None && answer.text is Some,
        options.len() > 0 ==> answer.text is None && (answer.option_id matches Some(o) && options.contains(o)),
    ensures
        options.len() == 0 ==> grade(seq![blank], options, case_sensitive, seq![answer]) == Ok::<nat, ClozeAnswerError>(
            if answers_blank(blank, answer.text->0, case_sensitive) {
                1nat
            } else {
                0nat
            },
        ),
        options.len() > 0 ==> grade(seq![blank], options, case_sensitive, seq![answer]) == Ok::<nat, ClozeAnswerError>(
            if blank.correct_option_id == answer.option_id {
                1nat
            } else {
                0nat
            },
        ),
{
    let blanks = seq![blank];
    let answers = seq![answer];
    assert(last_blank(blanks, answer.blank_id, 1) == Some(0nat));
    assert(graded(blanks, options, case_sensitive, answers, 0) == Ok::<(Seq<Uuid>, Seq<Uuid>, nat), ClozeAnswerError>(
        (Seq::empty(), Seq::empty(), 0),
    ));
    assert(answers[0] == answer);
    assert(blanks[0] == blank);
    if options.len() == 0 {
        lemma_typed_answer_accepted(blank, answer.text->0, case_sensitive);
    }
    let answered = Seq::<Uuid>::empty().push(blank.id);
    assert(answered[0] == blank.id);
    assert forall|j: int| 0 <= j < blanks.len() implies answered.contains(#[trigger] blanks[j].id) by {
        assert(j == 0);
    }
}

/// The author's answers solve a stored cloze: answering every blank with its
/// correct option, or with its answer typed out where the cloze offers no
/// options, is accepted and gets every blank right.
pub proof fn lemma_author_answers_solve(blanks: Seq<ClozeBlankRowView>, options: Seq<Uuid>, case_sensitive: bool)
    requires
        well_stored(blanks, options),
    ensures
        grade(blanks, options, case_sensitive, author_answers(blanks, options.len() > 0)) == Ok::<nat, ClozeAnswerError>(
            blanks.len(),
        ),
{
    let answers = author_answers(blanks, options.len() > 0);
    lemma_author_graded(blanks, options, case_sensitive, blanks.len());
    let ids = blank_ids(blanks);
    assert(ids.take(blanks.len() as int) =~= ids);
    assert forall|j: int| 0 <= j < blanks.len() implies ids.contains(#[trigger] blanks[j].id) by {
        assert(ids[j] == blanks[j].id);
    }
}

proof fn lemma_graded_stays(
    blanks: Seq<ClozeBlankRowView>,
    options: Seq<Uuid>,
    case_sensitive: bool,
    answers: Seq<ClozeAnswerView>,
    n: nat,
    m: nat,
)
    requires
        n <= m <= answers.len(),
        graded(blanks, options, case_sensitive, answers, n) is Err,
    ensures
        graded(blanks, options, case_sensitive, answers, m) == graded(blanks, options, case_sensitive, answers, n),
    decreases m - n,
{
    if m > n {
        lemma_graded_stays(blanks, options, case_sensitive, answers, n, (m - 1) as nat);
    }
}

proof fn lemma_push_contains<T>(s: Seq<T>, v: T)
    ensures
        forall|x: T| #[trigger] s.push(v).contains(x) == (s.contains(x) || x == v),
{
    assert forall|x: T| #[trigger] s.push(v).contains(x) == (s.contains(x) || x == v) by {
        let t = s.push(v);
        if t.contains(x) {
            let p = choose|p: int| 0 <= p < t.len() && t[p] == x;
            if p < s.len() {
                assert(s[p] == x);
            }
        }
        if s.contains(x) {
            let p = choose|p: int| 0 <= p < s.len() && s[p] == x;
            assert(t[p] == x);
        }
        if x == v {
            assert(t[s.len() as int] == x);
        }
    }
}

proof fn lemma_last_blank(blanks: Seq<ClozeBlankRowView>, id: Uuid, n: nat)
    requires
        n <= blanks.len(),
    ensures
        last_blank(blanks, id, n) matches Some(k) ==> k < n && blanks[k as int].id == id,
        (exists|j: int| 0 <= j < n && #[trigger] blanks[j].id == id) ==> last_blank(blanks, id, n) is Some,
    decreases n,
{
    if n > 0 {
        lemma_last_blank(blanks, id, (n - 1) as nat);
        if blanks[n - 1].id != id && exists|j: int| 0 <= j < n && #[trigger] blanks[j].id == id {
            let j = choose|j: int| 0 <= j < n && #[trigger] blanks[j].id == id;
            assert(j < n - 1);
        }
    }
}

/// The blanks by identifier (the position of the last blank with each), and
/// the set of their identifiers.
fn index_blanks(blanks: &Vec<ClozeBlankRow>) -> (r: (HashMap<Uuid, usize>, HashSet<Uuid>))
    ensures
        forall|id: Uuid| #[trigger] r.0@.contains_key(id) == last_blank(blank_rows(blanks@), id, blanks.len() as nat) is Some,
        forall|id: Uuid| #[trigger] r.0@.contains_key(id) ==> last_blank(blank_rows(blanks@), id, blanks.len() as nat) == Some(r.0@[id] as nat),
        forall|id: Uuid| #[trigger] r.1@.contains(id) == last_blank(blank_rows(blanks@), id, blanks.len() as nat) is Some,
{
    let ghost rows = blank_rows(blanks@);
    let mut by_id: HashMap<Uuid, usize> = HashMap::new();
    let mut ids: HashSet<Uuid> = HashSet::new();
    let mut b: usize = 0;
    while b < blanks.len()
        invariant
            b <= blanks.len(),
            rows == blank_rows(blanks@),
            forall|id: Uuid| #[trigger] by_id@.contains_key(id) == last_blank(rows, id, b as nat) is Some,
            forall|id: Uuid| #[trigger] by_id@.contains_key(id) ==> last_blank(rows, id, b as nat) == Some(by_id@[id] as nat),
            forall|id: Uuid| #[trigger] ids@.contains(id) == last_blank(rows, id, b as nat) is Some,
        decreases blanks.len() - b,
    {
        let id = blanks[b].id;
        assert(rows[b as int].id == id);
        by_id.insert(id, b);
        ids.insert(id);
        assert forall|x: Uuid| #[trigger] last_blank(rows, x, (b + 1) as nat) == if x == id {
            Some(b as nat)
        } else {
            last_blank(rows, x, b as nat)
        } by {}
        b = b + 1;
    }
    (by_id, ids)
}

/// The set of the identifiers of the options.
fn option_set(option_ids: &Vec<Uuid>) -> (s: HashSet<Uuid>)
    ensures
        forall|x: Uuid| #[trigger] s@.contains(x) == option_ids@.contains(x),
{
    let mut s: HashSet<Uuid> = HashSet::new();
    let mut i: usize = 0;
    while i < option_ids.len()
        invariant
            i <= option_ids.len(),
            forall|x: Uuid| #[trigger] s@.contains(x) == option_ids@.take(i as int).contains(x),
        decreases option_ids.len() - i,
    {
        let ghost before = option_ids@.take(i as int);
        s.insert(option_ids[i]);
        proof {
            let after = option_ids@.take(i + 1);
            assert(after =~= before.push(option_ids@[i as int]));
            assert forall|x: Uuid| after.contains(x) == (before.contains(x) || x == option_ids@[i as int]) by {
                if after.contains(x) {
                    let p = choose|p: int| 0 <= p < after.len() && after[p] == x;
                    if p < i {
                        assert(before[p] == x);
                    }
                }
                if before.contains(x) {
                    let p = choose|p: int| 0 <= p < before.len() && before[p] == x;
                    assert(after[p] == x);
                }
                if x == option_ids@[i as int] {
                    assert(after[i as int] == x);
                }
            }
        }
        i = i + 1;
    }
    assert(option_ids@.take(option_ids@.len() as int) =~= option_ids@);
    s
}

#[verifier::loop_isolation(false)]
fn typed_answer_correct(blank: &ClozeBlankRow, text: &Option<String>, case_sensitive: bool) -> (ok: bool)
    ensures
        ok == typed_correct(
            blank@,
            match text {
                Some(t) => Some(t@),
                None => None,
            },
            case_sensitive,
        ),
{
    let raw: Vec<char> = match text {
        Some(t) => chars_of(t.as_str()),
        None => Vec::new(),
    };
    let ghost tv: Option<Seq<char>> = match text {
        Some(t) => Some(t@),
        None => None,
    };
    assert(raw@ == match tv {
        Some(x) => x,
        None => Seq::<char>::empty(),
    });
    let t = trimmed(&raw);
    if t.as_str().is_empty() {
        return false;
    }
    let given = normalize_answer(t.as_str(), case_sensitive);
    let expected = normalize_answer(blank.answer.as_str(), case_sensitive);
    if expected == given {
        return true;
    }
    let ghost syns = texts(blank.synonyms@);
    let mut i: usize = 0;
    while i < blank.synonyms.len()
        invariant
            i <= blank.synonyms.len(),
            syns == texts(blank.synonyms@),
            given@ == normalized(t@, case_sensitive),
            forall|k: int| 0 <= k < i ==> normalized(syns[k], case_sensitive) != given@,
        decreases blank.synonyms.len() - i,
    {
        let synonym = normalize_answer(blank.synonyms[i].as_str(), case_sensitive);
        assert(syns[i as int] == blank.synonyms@[i as int]@);
        if synonym == given {
            assert(norms(syns, case_sensitive)[i as int] == given@);
            assert(norms(syns, case_sensitive).contains(given@));
            return true;
        }
        i = i + 1;
    }
    assert forall|k: int| 0 <= k < norms(syns, case_sensitive).len() implies norms(syns, case_sensitive)[k] != given@ by {
        assert(norms(syns, case_sensitive)[k] == normalized(syns[k], case_sensitive));
    }
    false
}

#[verifier::loop_isolation(false)]
/// Grade the answers of an attempt at a cloze whose stored blanks are
/// `blanks` and whose options have the identifiers `option_ids` (none for a
/// cloze with typed answers). Returns the number of correct answers.
pub fn grade_cloze(
    blanks: &Vec<ClozeBlankRow>,
    option_ids: &Vec<Uuid>,
    case_sensitive: bool,
    answers: &Vec<ClozeAnswer>,
) -> (res: Result<u32, ClozeAnswerError>)
    requires
        answers.len() <= u32::MAX,
    ensures
        match res {
            Ok(n) => grade(blank_rows(blanks@), option_ids@, case_sensitive, answer_views(answers@)) == Ok::<nat, ClozeAnswerError>(n as nat),
            Err(e) => grade(blank_rows(blanks@), option_ids@, case_sensitive, answer_views(answers@)) == Err::<nat, ClozeAnswerError>(e),
        },
        res matches Ok(n) ==> n <= answers.len(),
{
    let ghost rows = blank_rows(blanks@);
    let ghost avs = answer_views(answers@);
    let (blanks_by_id, mut remaining) = index_blanks(blanks);
    let options = option_set(option_ids);
    let mut used_options: HashSet<Uuid> = HashSet::new();
    let ghost mut answered: Seq<Uuid> = Seq::empty();
    let ghost mut used: Seq<Uuid> = Seq::empty();
    let mut correct: u32 = 0;
    let typed = option_ids.len() == 0;
    let mut i: usize = 0;
    while i < answers.len()
        invariant
            i <= answers.len() <= u32::MAX,
            rows == blank_rows(blanks@),
            avs == answer_views(answers@),
            typed == (option_ids.len() == 0),
            correct <= i,
            graded(rows, option_ids@, case_sensitive, avs, i as nat) == Ok::<(Seq<Uuid>, Seq<Uuid>, nat), ClozeAnswerError>(
                (answered, used, correct as nat),
            ),
            forall|id: Uuid| #[trigger] remaining@.contains(id) == (last_blank(rows, id, blanks.len() as nat) is Some
                && !answered.contains(id)),
            forall|o: Uuid| #[trigger] used_options@.contains(o) == used.contains(o),
        decreases answers.len() - i,
    {
        let answer = &answers[i];
        assert(avs[i as int] == answer@);
        proof {
            lemma_last_blank(rows, answer.blank_id, blanks.len() as nat);
        }
        let k = match blanks_by_id.get(&answer.blank_id) {
            Some(k) => *k,
            None => {
                proof {
                    lemma_graded_stays(rows, option_ids@, case_sensitive, avs, (i + 1) as nat, avs.len());
                }
                return Err(ClozeAnswerError::UnknownBlank(answer.blank_id));
            },
        };
        if !remaining.remove(&answer.blank_id) {
            proof {
                lemma_graded_stays(rows, option_ids@, case_sensitive, avs, (i + 1) as nat, avs.len());
            }
            return Err(ClozeAnswerError::RepeatedBlank(answer.blank_id));
        }
        assert(rows[k as int] == blanks@[k as int]@);
        let success = if typed {
            if answer.option_id.is_some() {
                proof {
                    lemma_graded_stays(rows, option_ids@, case_sensitive, avs, (i + 1) as nat, avs.len());
                }
                return Err(ClozeAnswerError::OptionNotAllowed);
            }
            typed_answer_correct(&blanks[k], &answer.text, case_sensitive)
        } else {
            let option_id = match answer.option_id {
                Some(o) => o,
                None => {
                    proof {
                        lemma_graded_stays(rows, option_ids@, case_sensitive, avs, (i + 1) as nat, avs.len());
                    }
                    return Err(ClozeAnswerError::OptionMissing);
                },
            };
            if answer.text.is_some() {
                proof {
                    lemma_graded_stays(rows, option_ids@, case_sensitive, avs, (i + 1) as nat, avs.len());
                }
                return Err(ClozeAnswerError::TextNotAllowed);
            }
            if !options.contains(&option_id) {
                proof {
                    lemma_graded_stays(rows, option_ids@, case_sensitive, avs, (i + 1) as nat, avs.len());
                }
                return Err(ClozeAnswerError::ForeignOption(option_id));
            }
            if !used_options.insert(option_id) {
                proof {
                    lemma_graded_stays(rows, option_ids@, case_sensitive, avs, (i + 1) as nat, avs.len());
                }
                return Err(ClozeAnswerError::OptionReused(option_id));
            }
            proof {
                lemma_push_contains(used, option_id);
                used = used.push(option_id);
            }
            blanks[k].correct_option_id == Some(option_id)
        };
        proof {
            lemma_push_contains(answered, answer.blank_id);
            answered = answered.push(answer.blank_id);
        }
        if success {
            correct = correct + 1;
        }
        i = i + 1;
    }
    if !remaining.is_empty() {
        proof {
            assert(!(remaining@ =~= Set::<Uuid>::empty()));
            let x = choose|x: Uuid| remaining@.contains(x);
            lemma_last_blank(rows, x, blanks.len() as nat);
            let k = last_blank(rows, x, blanks.len() as nat)->0;
            assert(!answered.contains(rows[k as int].id));
        }
        return Err(ClozeAnswerError::Unanswered);
    }
    assert forall|j: int| 0 <= j < blanks.len() implies answered.contains(#[trigger] rows[j].id) by {
        lemma_last_blank(rows, rows[j].id, blanks.len() as nat);
        assert(!remaining@.contains(rows[j].id));
    }
    Ok(correct)
}


// ---------------------------------------------------------------------------
// Messages
// ---------------------------------------------------------------------------

/// `"Placeholder {blank_<p>}"`.
pub open spec fn placeholder_text(p: u32) -> Seq<char> {
    "Placeholder {blank_"@ + decimal(p as nat) + "}"@
}

/// The message that explains a refusal of authored content.
pub open spec fn validation_message(e: ValidationErrorView) -> Seq<char> {
    match e {
        ValidationErrorView::NoPlaceholders => "Content must contain at least one placeholder."@,
        ValidationErrorView::InvalidPlaceholder => "Placeholders must follow the form {blank_<number>} with positive numbers."@,
        ValidationErrorView::DuplicatePlaceholder(p) => placeholder_text(p) + " appears more than once (in the content or definitions)."@,
        ValidationErrorView::MissingDefinition(p) => placeholder_text(p) + " is missing a corresponding definition."@,
        ValidationErrorView::EmptyAnswer(p) => placeholder_text(p) + " must have a non-empty answer."@,
        ValidationErrorView::EmptyOption => "Option labels cannot be empty."@,
        ValidationErrorView::DuplicateOption(label) => "Option \""@ + label + "\" is duplicated."@,
        ValidationErrorView::TooFewOptions { blanks, options } => "Received "@ + decimal(options) + " options for "@
            + decimal(blanks) + " blanks. Variant B requires at least as many options as blanks."@,
        ValidationErrorView::MissingOptionAssignment(p) => placeholder_text(p) + " requires an option assignment when options exist."@,
        ValidationErrorView::UnexpectedOptionAssignment(p) => placeholder_text(p)
            + " references an option even though no options were provided."@,
        ValidationErrorView::OptionOutOfRange { placeholder, index } => placeholder_text(placeholder) + " references option index "@
            + decimal(index) + ", which is out of range."@,
        ValidationErrorView::OptionAlreadyUsed(index) => "Option index "@ + decimal(index) + " is assigned to multiple blanks."@,
    }
}

fn placeholder_prefix(p: u32) -> (s: String)
    ensures
        s@ == placeholder_text(p),
{
    let mut s = String::from_str("Placeholder {blank_");
    push_decimal(&mut s, p as u64);
    s.append("}");
    s
}

impl ValidationError {
    /// The message that explains the refusal.
    pub fn message(&self) -> (m: String)
        ensures
            m@ == validation_message(self@),
    {
        match self {
            ValidationError::NoPlaceholders => String::from_str("Content must contain at least one placeholder."),
            ValidationError::InvalidPlaceholder => String::from_str(
                "Placeholders must follow the form {blank_<number>} with positive numbers.",
            ),
            ValidationError::DuplicatePlaceholder(p) => {
                let mut m = placeholder_prefix(*p);
                m.append(" appears more than once (in the content or definitions).");
                m
            },
            ValidationError::MissingDefinition(p) => {
                let mut m = placeholder_prefix(*p);
                m.append(" is missing a corresponding definition.");
                m
            },
            ValidationError::EmptyAnswer(p) => {
                let mut m = placeholder_prefix(*p);
                m.append(" must have a non-empty answer.");
                m
            },
            ValidationError::EmptyOption => String::from_str("Option labels cannot be empty."),
            ValidationError::DuplicateOption(label) => {
                let mut m = String::from_str("Option \"");
                m.append(label.as_str());
                m.append("\" is duplicated.");
                m
            },
            ValidationError::TooFewOptions { blanks, options } => {
                let mut m = String::from_str("Received ");
                push_decimal(&mut m, *options as u64);
                m.append(" options for ");
                push_decimal(&mut m, *blanks as u64);
                m.append(" blanks. Variant B requires at least as many options as blanks.");
                m
            },
            ValidationError::MissingOptionAssignment(p) => {
                let mut m = placeholder_prefix(*p);
                m.append(" requires an option assignment when options exist.");
                m
            },
            ValidationError::UnexpectedOptionAssignment(p) => {
                let mut m = placeholder_prefix(*p);
                m.append(" references an option even though no options were provided.");
                m
            },
            ValidationError::OptionOutOfRange { placeholder, index } => {
                let mut m = placeholder_prefix(*placeholder);
                m.append(" references option index ");
                push_decimal(&mut m, *index as u64);
                m.append(", which is out of range.");
                m
            },
            ValidationError::OptionAlreadyUsed(index) => {
                let mut m = String::from_str("Option index ");
                push_decimal(&mut m, *index as u64);
                m.append(" is assigned to multiple blanks.");
                m
            },
        }
    }
}

/// The message that explains a refusal of the answers of an attempt.
pub open spec fn answer_message(e: ClozeAnswerError) -> Seq<char> {
    match e {
        ClozeAnswerError::UnknownBlank(id) => "Unknown blank id "@ + uuid_text(id) + "."@,
        ClozeAnswerError::RepeatedBlank(id) => "Blank "@ + uuid_text(id) + " provided multiple times."@,
        ClozeAnswerError::OptionNotAllowed => "option_id is not allowed for type-in clozes."@,
        ClozeAnswerError::OptionMissing => "option_id must be provided for option-based clozes."@,
        ClozeAnswerError::TextNotAllowed => "text answers are not allowed for option-based clozes."@,
        ClozeAnswerError::ForeignOption(id) => "Option "@ + uuid_text(id) + " does not belong to this cloze."@,
        ClozeAnswerError::OptionReused(id) => "Option "@ + uuid_text(id) + " was used more than once."@,
        ClozeAnswerError::Unanswered => "One or more blanks were not answered."@,
    }
}

fn framed_id(prefix: &str, id: Uuid, suffix: &str) -> (s: String)
    ensures
        s@ == prefix@ + uuid_text(id) + suffix@,
{
    let mut s = String::from_str(prefix);
    let t = uuid_to_string(id);
    s.append(t.as_str());
    s.append(suffix);
    s
}

impl ClozeAnswerError {
    /// The message that explains the refusal.
    pub fn message(&self) -> (m: String)
        ensures
            m@ == answer_message(*self),
    {
        match self {
            ClozeAnswerError::UnknownBlank(id) => framed_id("Unknown blank id ", *id, "."),
            ClozeAnswerError::RepeatedBlank(id) => framed_id("Blank ", *id, " provided multiple times."),
            ClozeAnswerError::OptionNotAllowed => String::from_str("option_id is not allowed for type-in clozes."),
            ClozeAnswerError::OptionMissing => String::from_str("option_id must be provided for option-based clozes."),
            ClozeAnswerError::TextNotAllowed => String::from_str("text answers are not allowed for option-based clozes."),
            ClozeAnswerError::ForeignOption(id) => framed_id("Option ", *id, " does not belong to this cloze."),
            ClozeAnswerError::OptionReused(id) => framed_id("Option ", *id, " was used more than once."),
            ClozeAnswerError::Unanswered => String::from_str("One or more blanks were not answered."),
        }
    }
}

/// The message for an attempt with the wrong number of answers.
pub fn answer_count_message(expected: usize, got: usize) -> (m: String)
    ensures
        m@ == "Expected "@ + decimal(expected as nat) + " answers, got "@ + decimal(got as nat) + "."@,
{
    let mut m = String::from_str("Expected ");
    push_decimal(&mut m, expected as u64);
    m.append(" answers, got ");
    push_decimal(&mut m, got as u64);
    m.append(".");
    m
}

/// What an attempt at a cloze answers: whether it solved the cloze, how many
/// blanks were answered correctly, and out of how many.
#[derive(PartialEq, Eq, Structural, Clone, Copy, Debug)]
pub struct ClozeFeedback {
    pub solved: bool,
    pub correct: u32,
    pub total: u32,
}

/// Why an attempt at a cloze is refused.
#[derive(PartialEq, Eq, Structural, Debug)]
pub enum ClozeAttemptError {
    /// The attempt does not give one answer per blank.
    AnswerCount { expected: usize, got: usize },
    /// The answers themselves are refused.
    Answer(ClozeAnswerError),
}

/// The feedback on an attempt: first the number of answers is checked
/// against the number of blanks, then the answers are graded; the cloze is
/// solved when every blank is answered correctly.
pub open spec fn feedback_of(
    blanks: Seq<ClozeBlankRowView>,
    options: Seq<Uuid>,
    case_sensitive: bool,
    answers: Seq<ClozeAnswerView>,
) -> Result<ClozeFeedback, ClozeAttemptError> {
    if answers.len() != blanks.len() {
        Err(ClozeAttemptError::AnswerCount { expected: blanks.len() as usize, got: answers.len() as usize })
    } else {
        match grade(blanks, options, case_sensitive, answers) {
            Err(e) => Err(ClozeAttemptError::Answer(e)),
            Ok(n) => Ok(ClozeFeedback { solved: n == blanks.len(), correct: n as u32, total: blanks.len() as u32 }),
        }
    }
}

/// The feedback on an attempt at a cloze whose stored blanks are `blanks`
/// and whose options have the identifiers `option_ids`: see
/// [`feedback_of`]. The number of correct answers never exceeds the total.
pub fn cloze_feedback(
    blanks: &Vec<ClozeBlankRow>,
    option_ids: &Vec<Uuid>,
    case_sensitive: bool,
    answers: &Vec<ClozeAnswer>,
) -> (res: Result<ClozeFeedback, ClozeAttemptError>)
    requires
        blanks.len() <= u32::MAX,
    ensures
        res == feedback_of(blank_rows(blanks@), option_ids@, case_sensitive, answer_views(answers@)),
        res matches Ok(f) ==> f.correct <= f.total && f.solved == (f.correct == f.total),
{
    if answers.len() != blanks.len() {
        return Err(ClozeAttemptError::AnswerCount { expected: blanks.len(), got: answers.len() });
    }
    match grade_cloze(blanks, option_ids, case_sensitive, answers) {
        Err(e) => Err(ClozeAttemptError::Answer(e)),
        Ok(correct) => {
            let total = blanks.len() as u32;
            Ok(ClozeFeedback { solved: correct == total, correct, total })
        },
    }
}

/// An attempt with the author's answers solves a stored cloze: one answer
/// per blank, every blank right, out of all blanks.
pub proof fn lemma_author_feedback(blanks: Seq<ClozeBlankRowView>, options: Seq<Uuid>, case_sensitive: bool)
    requires
        well_stored(blanks, options),
        blanks.len() <= u32::MAX,
    ensures
        feedback_of(blanks, options, case_sensitive, author_answers(blanks, options.len() > 0)) == Ok::<
            ClozeFeedback,
            ClozeAttemptError,
        >(ClozeFeedback { solved: true, correct: blanks.len() as u32, total: blanks.len() as u32 }),
{
    lemma_author_answers_solve(blanks, options, case_sensitive);
}

impl ClozeAttemptError {
    /// The message that explains the refusal.
    pub fn message(&self) -> (m: String)
        ensures
            m@ == match *self {
                ClozeAttemptError::AnswerCount { expected, got } => "Expected "@ + decimal(expected as nat)
                    + " answers, got "@ + decimal(got as nat) + "."@,
                ClozeAttemptError::Answer(e) => answer_message(e),
            },
    {
        match self {
            ClozeAttemptError::AnswerCount { expected, got } => answer_count_message(*expected, *got),
            ClozeAttemptError::Answer(e) => e.message(),
        }
    }
}

/// The seconds a user still waits before the next attempt at a cloze: the
/// configured timeout (taken as an `i64`) less the whole seconds since the
/// last attempt, where that is positive. It applies whether or not the cloze
/// was solved; without an earlier attempt there is no wait. Times are in
/// microseconds since the Unix epoch.
pub open spec fn cloze_wait_of(timeout: u64, last_attempt: Option<i64>, now: i64) -> Option<u64> {
    match last_attempt {
        None => None,
        Some(then) => {
            let left = (timeout as i64) - quotient_toward_zero(now - then, 1_000_000);
            if left > 0 {
                Some(left as u64)
            } else {
                None
            }
        },
    }
}

/// See [`cloze_wait_of`].
pub fn cloze_wait(timeout: u64, last_attempt: Option<i64>, now: i64) -> (wait: Option<u64>)
    requires
        last_attempt matches Some(then) ==> i64::MIN <= now - then <= i64::MAX,
        last_attempt matches Some(then) ==> i64::MIN <= (timeout as i64) - quotient_toward_zero(now - then, 1_000_000)
            <= i64::MAX,
    ensures
        wait == cloze_wait_of(timeout, last_attempt, now),
{
    match last_attempt {
        None => None,
        Some(then) => submission_wait(timeout, elapsed_seconds(now, then)),
    }
}

/// What an attempt at a cloze changes: nothing once the cloze is solved;
/// otherwise the attempt is counted and stored, a solving attempt marks the
/// cloze solved and sends its rewards unless the user created it. An attempt
/// at a cloze never unlocks it.
pub open spec fn cloze_effects_of(solved_previously: bool, solved: bool, by_creator: bool) -> QuizEffects {
    QuizEffects {
        mark_solved: !solved_previously && solved,
        mark_unlocked: false,
        send_rewards: !solved_previously && solved && !by_creator,
        record_attempt: !solved_previously,
    }
}

/// See [`cloze_effects_of`].
pub fn cloze_effects(solved_previously: bool, solved: bool, user: &User, subtask: &SubtaskModel) -> (effects: QuizEffects)
    ensures
        effects == cloze_effects_of(solved_previously, solved, user.id == subtask.creator),
{
    QuizEffects {
        mark_solved: !solved_previously && solved,
        mark_unlocked: false,
        send_rewards: !solved_previously && solved && user.id != subtask.creator,
        record_attempt: !solved_previously,
    }
}

/// A cloze is solved once: the attempt that solves it marks it solved, and
/// every later attempt changes nothing, so its rewards go out at most once
/// and no later attempt is stored.
pub proof fn lemma_cloze_solved_once(by_creator: bool, later_solved: bool)
    ensures
        cloze_effects_of(false, true, by_creator).mark_solved,
        cloze_effects_of(false, true, by_creator).record_attempt,
        cloze_effects_of(true, later_solved, by_creator) == (QuizEffects {
            mark_solved: false,
            mark_unlocked: false,
            send_rewards: false,
            record_attempt: false,
        }),
{
}


// ---------------------------------------------------------------------------
// Updating a cloze
// ---------------------------------------------------------------------------

/// The index of the last of the first `n` options with this identifier.
pub open spec fn last_position(ids: Seq<Uuid>, id: Uuid, n: nat) -> Option<nat>
    decreases n,
{
    if n == 0 {
        None
    } else if ids[n - 1] == id {
        Some((n - 1) as nat)
    } else {
        last_position(ids, id, (n - 1) as nat)
    }
}

/// The definition a stored blank stands for: its placeholder, answer and
/// synonyms, and the position of its correct option among the options of
/// the cloze.
pub open spec fn stored_definition(blank: ClozeBlankRowView, option_ids: Seq<Uuid>) -> BlankDef {
    BlankDef {
        placeholder: blank.placeholder as u32,
        answer: blank.answer,
        synonyms: blank.synonyms,
        option_index: match blank.correct_option_id {
            Some(id) => match last_position(option_ids, id, option_ids.len()) {
                Some(i) => Some(i as u32),
                None => None,
            },
            None => None,
        },
    }
}

/// The definitions the stored blanks stand for, in their order.
pub open spec fn stored_definitions_of(blanks: Seq<ClozeBlankRowView>, option_ids: Seq<Uuid>) -> Seq<BlankDef> {
    Seq::new(blanks.len(), |i: int| stored_definition(blanks[i], option_ids))
}

fn last_position_exec(ids: &Vec<Uuid>, id: Uuid) -> (r: Option<usize>)
    ensures
        match r {
            Some(i) => last_position(ids@, id, ids@.len()) == Some(i as nat),
            None => last_position(ids@, id, ids@.len()) is None,
        },
{
    let mut i: usize = ids.len();
    while i > 0
        invariant
            i <= ids@.len(),
            last_position(ids@, id, ids@.len()) == last_position(ids@, id, i as nat),
        decreases i,
    {
        if ids[i - 1] == id {
            return Some(i - 1);
        }
        i = i - 1;
    }
    None
}

/// The definitions that the stored blanks of a cloze stand for, as an
/// update starts from them.
pub fn stored_definitions(blanks: &Vec<ClozeBlankRow>, option_ids: &Vec<Uuid>) -> (defs: Vec<CreateClozeBlank>)
    ensures
        defs_of(defs@) == stored_definitions_of(blank_rows(blanks@), option_ids@),
{
    let ghost rows = blank_rows(blanks@);
    let mut defs: Vec<CreateClozeBlank> = Vec::new();
    let mut i: usize = 0;
    while i < blanks.len()
        invariant
            i <= blanks.len(),
            rows == blank_rows(blanks@),
            defs_of(defs@) == stored_definitions_of(rows, option_ids@).take(i as int),
        decreases blanks.len() - i,
    {
        let b = &blanks[i];
        let option_index = match b.correct_option_id {
            Some(id) => match last_position_exec(option_ids, id) {
                Some(k) => Some(k as u32),
                None => None,
            },
            None => None,
        };
        let def = CreateClozeBlank {
            placeholder: b.placeholder as u32,
            answer: b.answer.clone(),
            synonyms: clone_strings(&b.synonyms),
            option_index,
        };
        let ghost before = defs@;
        defs.push(def);
        proof {
            assert(rows[i as int] == blanks@[i as int]@);
            assert(defs_of(defs@) =~= defs_of(before).push(stored_definition(rows[i as int], option_ids@)));
            assert(stored_definitions_of(rows, option_ids@).take(i + 1) =~= stored_definitions_of(
                rows,
                option_ids@,
            ).take(i as int).push(stored_definition(rows[i as int], option_ids@)));
        }
        i = i + 1;
    }
    assert(stored_definitions_of(rows, option_ids@).take(blanks.len() as int) =~= stored_definitions_of(
        rows,
        option_ids@,
    ));
    defs
}

fn same_texts(a: &Vec<String>, b: &Vec<String>) -> (same: bool)
    ensures
        same == (texts(a@) == texts(b@)),
{
    if a.len() != b.len() {
        assert(texts(a@).len() != texts(b@).len());
        return false;
    }
    let mut i: usize = 0;
    while i < a.len()
        invariant
            i <= a.len() == b.len(),
            forall|k: int| 0 <= k < i ==> a@[k]@ == b@[k]@,
        decreases a.len() - i,
    {
        if a[i] != b[i] {
            assert(texts(a@)[i as int] != texts(b@)[i as int]);
            return false;
        }
        i = i + 1;
    }
    assert(texts(a@) =~= texts(b@));
    true
}

fn same_blanks(a: &Vec<CreateClozeBlank>, b: &Vec<CreateClozeBlank>) -> (same: bool)
    ensures
        same == (defs_of(a@) == defs_of(b@)),
{
    if a.len() != b.len() {
        assert(defs_of(a@).len() != defs_of(b@).len());
        return false;
    }
    let mut i: usize = 0;
    while i < a.len()
        invariant
            i <= a.len() == b.len(),
            forall|k: int| 0 <= k < i ==> a@[k]@ == b@[k]@,
        decreases a.len() - i,
    {
        let x = &a[i];
        let y = &b[i];
        let same_option = match (x.option_index, y.option_index) {
            (Some(p), Some(q)) => p == q,
            (None, None) => true,
            _ => false,
        };
        if !(x.placeholder == y.placeholder && x.answer == y.answer && same_texts(&x.synonyms, &y.synonyms)
            && same_option) {
            assert(defs_of(a@)[i as int] != defs_of(b@)[i as int]);
            return false;
        }
        i = i + 1;
    }
    assert(defs_of(a@) =~= defs_of(b@));
    true
}

/// Whether an update changes the authored content of a cloze: its text, its
/// case sensitivity, its blank definitions or its options. An update that
/// changes nothing is answered with the stored cloze, without validation.
pub fn cloze_changed(
    content: &String,
    case_sensitive: bool,
    blanks: &Vec<CreateClozeBlank>,
    options: &Vec<String>,
    stored_content: &String,
    stored_case_sensitive: bool,
    stored_blanks: &Vec<CreateClozeBlank>,
    stored_options: &Vec<String>,
) -> (changed: bool)
    ensures
        changed == !(content@ == stored_content@ && case_sensitive == stored_case_sensitive && defs_of(blanks@)
            == defs_of(stored_blanks@) && texts(options@) == texts(stored_options@)),
{
    *content != *stored_content || case_sensitive != stored_case_sensitive || !same_blanks(blanks, stored_blanks)
        || !same_texts(options, stored_options)
}

} // verus!
