//! Simple questions with typed answers: which characters an answer may hold and
//! when a typed answer matches.
use vstd::prelude::*;

use crate::text::{chars_of, normalize, normalized, texts};

verus! {

/// `char::is_ascii_alphabetic`.
pub open spec fn is_ascii_letter(c: char) -> bool {
    ('A' <= c && c <= 'Z') || ('a' <= c && c <= 'z')
}

/// `char::is_ascii_digit`.
pub open spec fn is_ascii_digit(c: char) -> bool {
    '0' <= c && c <= '9'
}

/// `char::is_ascii_punctuation`.
pub open spec fn is_ascii_punct(c: char) -> bool {
    ||| ('!' <= c && c <= '/')
    ||| (':' <= c && c <= '@')
    ||| ('[' <= c && c <= '`')
    ||| ('{' <= c && c <= '~')
}

/// Whether a character is allowed under the three switches.
pub open spec fn char_allowed(c: char, ascii_letters: bool, digits: bool, punctuation: bool) -> bool {
    &&& (ascii_letters || !is_ascii_letter(c))
    &&& (digits || !is_ascii_digit(c))
    &&& (punctuation || !is_ascii_punct(c))
}

/// Whether every character of every answer is allowed.
pub open spec fn answers_allowed(
    answers: Seq<Seq<char>>,
    ascii_letters: bool,
    digits: bool,
    punctuation: bool,
) -> bool {
    forall|i: int, j: int|
        0 <= i < answers.len() && 0 <= j < answers[i].len() ==> char_allowed(
            #[trigger] answers[i][j],
            ascii_letters,
            digits,
            punctuation,
        )
}

fn allowed(c: char, ascii_letters: bool, digits: bool, punctuation: bool) -> (b: bool)
    ensures
        b == char_allowed(c, ascii_letters, digits, punctuation),
{
    let letter = ('A' <= c && c <= 'Z') || ('a' <= c && c <= 'z');
    let digit = '0' <= c && c <= '9';
    let punct = ('!' <= c && c <= '/') || (':' <= c && c <= '@') || ('[' <= c && c <= '`') || (
    '{' <= c && c <= '~');
    (ascii_letters || !letter) && (digits || !digit) && (punctuation || !punct)
}

/// Whether the answers only contain the kinds of characters that are switched
/// on: letters unless `ascii_letters` is off, and so on.
pub fn check_answers(answers: &[String], ascii_letters: bool, digits: bool, punctuation: bool) -> (ok: bool)
    ensures
        ok == answers_allowed(
            texts(answers@),
            ascii_letters,
            digits,
            punctuation,
        ),
{
    let ghost all = texts(answers@);
    let mut i: usize = 0;
    while i < answers.len()
        invariant
            i <= answers@.len(),
            all == texts(answers@),
            forall|k: int, j: int|
                0 <= k < i && 0 <= j < all[k].len() ==> char_allowed(
                    #[trigger] all[k][j],
                    ascii_letters,
                    digits,
                    punctuation,
                ),
        decreases answers.len() - i,
    {
        let chars = chars_of(answers[i].as_str());
        assert(all[i as int] == answers@[i as int]@);
        let mut j: usize = 0;
        while j < chars.len()
            invariant
                i < answers@.len(),
                all == texts(answers@),
                all.len() == answers@.len(),
                j <= chars.len(),
                chars@ == all[i as int],
                forall|m: int|
                    0 <= m < j ==> char_allowed(
                        #[trigger] all[i as int][m],
                        ascii_letters,
                        digits,
                        punctuation,
                    ),
            decreases chars.len() - j,
        {
            if !allowed(chars[j], ascii_letters, digits, punctuation) {
                assert(!char_allowed(all[i as int][j as int], ascii_letters, digits, punctuation));
                assert(0 <= j < all[i as int].len());
                assert(!answers_allowed(all, ascii_letters, digits, punctuation));
                return false;
            }
            j = j + 1;
        }
        i = i + 1;
    }
    true
}

/// The normal form in which typed answers are compared: trimmed, runs of
/// whitespace collapsed to one space, and ASCII lower case unless the question
/// is case sensitive.
pub fn normalize_answer(answer: &str, case_sensitive: bool) -> (out: String)
    ensures
        out@ == normalized(answer@, case_sensitive),
{
    normalize(answer, case_sensitive)
}

/// Whether a typed answer solves a question: its normal form equals that of
/// one of the accepted answers.
pub fn is_solved_by(answers: &[String], answer: &str, case_sensitive: bool) -> (solved: bool)
    ensures
        solved == exists|i: int|
            0 <= i < answers@.len() && normalized(#[trigger] answers@[i]@, case_sensitive)
                == normalized(answer@, case_sensitive),
{
    let given = normalize_answer(answer, case_sensitive);
    let mut i: usize = 0;
    while i < answers.len()
        invariant
            i <= answers@.len(),
            given@ == normalized(answer@, case_sensitive),
            forall|k: int|
                0 <= k < i ==> normalized(#[trigger] answers@[k]@, case_sensitive) != normalized(
                    answer@,
                    case_sensitive,
                ),
        decreases answers.len() - i,
    {
        let expected = normalize_answer(answers[i].as_str(), case_sensitive);
        if expected == given {
            return true;
        }
        i = i + 1;
    }
    false
}

/// An accepted answer solves its question, whatever whitespace and, where
/// the question ignores case, whatever ASCII case it is typed in.
pub proof fn lemma_accepted_answer_solves(answers: Seq<String>, i: int, typed: Seq<char>, case_sensitive: bool)
    requires
        0 <= i < answers.len(),
        normalized(typed, case_sensitive) == normalized(answers[i]@, case_sensitive),
    ensures
        exists|k: int| 0 <= k < answers.len() && normalized(#[trigger] answers[k]@, case_sensitive) == normalized(typed, case_sensitive),
{
}

} // verus!
