//! Character level text handling shared by the answer checks: Unicode
//! whitespace, trimming, ASCII case folding and the normal form in which typed
//! answers are compared.
use vstd::prelude::*;

verus! {

/// The characters with the Unicode `White_Space` property, which is what
/// `char::is_whitespace` tests.
pub open spec fn is_ws(c: char) -> bool {
    ||| ('\u{9}' <= c && c <= '\u{d}')
    ||| c == ' '
    ||| c == '\u{85}'
    ||| c == '\u{a0}'
    ||| c == '\u{1680}'
    ||| ('\u{2000}' <= c && c <= '\u{200a}')
    ||| c == '\u{2028}'
    ||| c == '\u{2029}'
    ||| c == '\u{202f}'
    ||| c == '\u{205f}'
    ||| c == '\u{3000}'
}

/// ASCII lower case of a character; every other character stays as it is.
pub open spec fn ascii_lower(c: char) -> char {
    if 'A' <= c && c <= 'Z' {
        ((c as u32) + 32) as char
    } else {
        c
    }
}

/// The sequence without its leading whitespace.
pub open spec fn trim_start(s: Seq<char>) -> Seq<char>
    decreases s.len(),
{
    if s.len() > 0 && is_ws(s[0]) {
        trim_start(s.drop_first())
    } else {
        s
    }
}

/// The sequence without its trailing whitespace.
pub open spec fn trim_end(s: Seq<char>) -> Seq<char>
    decreases s.len(),
{
    if s.len() > 0 && is_ws(s.last()) {
        trim_end(s.drop_last())
    } else {
        s
    }
}

/// The sequence without leading and trailing whitespace (`str::trim`).
pub open spec fn trim(s: Seq<char>) -> Seq<char> {
    trim_end(trim_start(s))
}

/// A character as it is compared: itself, or its ASCII lower case where the
/// comparison ignores case.
pub open spec fn fold_case(c: char, case_sensitive: bool) -> char {
    if case_sensitive {
        c
    } else {
        ascii_lower(c)
    }
}

/// Every run of whitespace becomes one space, every other character is case
/// folded.
pub open spec fn collapse(s: Seq<char>, case_sensitive: bool) -> Seq<char>
    decreases s.len(),
{
    if s.len() == 0 {
        Seq::empty()
    } else {
        let before = collapse(s.drop_last(), case_sensitive);
        let c = s.last();
        if is_ws(c) {
            if s.len() >= 2 && is_ws(s[s.len() - 2]) {
                before
            } else {
                before.push(' ')
            }
        } else {
            before.push(fold_case(c, case_sensitive))
        }
    }
}

/// The normal form of a typed answer: trimmed, inner whitespace collapsed to
/// single spaces, and lower case unless the comparison is case sensitive.
pub open spec fn normalized(s: Seq<char>, case_sensitive: bool) -> Seq<char> {
    collapse(trim(s), case_sensitive)
}

/// `char::is_whitespace`.
pub fn is_whitespace(c: char) -> (b: bool)
    ensures
        b == is_ws(c),
{
    ('\u{9}' <= c && c <= '\u{d}') || c == ' ' || c == '\u{85}' || c == '\u{a0}' || c
        == '\u{1680}' || ('\u{2000}' <= c && c <= '\u{200a}') || c == '\u{2028}' || c
        == '\u{2029}' || c == '\u{202f}' || c == '\u{205f}' || c == '\u{3000}'
}

/// `char::to_ascii_lowercase`.
pub fn to_ascii_lowercase(c: char) -> (r: char)
    ensures
        r == ascii_lower(c),
{
    if 'A' <= c && c <= 'Z' {
        let b: u8 = c as u8;
        assert(b as u32 == c as u32);
        (b + 32) as char
    } else {
        c
    }
}

/// `String::push`: appends one character.
#[verifier::external_body]
pub(crate) fn push_char(s: &mut String, c: char)
    ensures
        final(s)@ == old(s)@.push(c),
{
    s.push(c);
}

/// The characters of a string, in order.
pub fn chars_of(s: &str) -> (out: Vec<char>)
    ensures
        out@ == s@,
{
    let mut out: Vec<char> = Vec::new();
    for c in it: s.chars()
        invariant
            out@ == it.seq().take(it.index() as int),
            it.seq() == s@,
    {
        out.push(c);
    }
    out
}

/// The string made of the characters `v[from..to]`.
pub fn string_of(v: &Vec<char>, from: usize, to: usize) -> (s: String)
    requires
        from <= to <= v.len(),
    ensures
        s@ == v@.subrange(from as int, to as int),
{
    let mut s = String::new();
    let mut i = from;
    while i < to
        invariant
            from <= i <= to <= v.len(),
            s@ == v@.subrange(from as int, i as int),
        decreases to - i,
    {
        push_char(&mut s, v[i]);
        assert(v@.subrange(from as int, i + 1) == v@.subrange(from as int, i as int).push(v@[i as int]));
        i = i + 1;
    }
    s
}

proof fn lemma_trim_start_skip(s: Seq<char>, i: int)
    requires
        0 <= i <= s.len(),
        forall|j: int| 0 <= j < i ==> is_ws(#[trigger] s[j]),
    ensures
        trim_start(s) == trim_start(s.skip(i)),
    decreases i,
{
    if i == 0 {
        assert(s.skip(0) =~= s);
    } else {
        lemma_trim_start_skip(s, i - 1);
        let t = s.skip(i - 1);
        assert(t[0] == s[i - 1]);
        assert(t.drop_first() =~= s.skip(i));
    }
}

proof fn lemma_trim_end_take(s: Seq<char>, e: int)
    requires
        0 <= e <= s.len(),
        forall|j: int| e <= j < s.len() ==> is_ws(#[trigger] s[j]),
    ensures
        trim_end(s) == trim_end(s.take(e)),
    decreases s.len() - e,
{
    if e == s.len() {
        assert(s.take(e) =~= s);
    } else {
        lemma_trim_end_take(s, e + 1);
        let t = s.take(e + 1);
        assert(t.last() == s[e]);
        assert(t.drop_last() =~= s.take(e));
    }
}

proof fn lemma_trim_start_first(s: Seq<char>)
    ensures
        trim_start(s).len() == 0 || !is_ws(trim_start(s)[0]),
    decreases s.len(),
{
    if s.len() > 0 && is_ws(s[0]) {
        lemma_trim_start_first(s.drop_first());
    }
}

proof fn lemma_trim_end_last(s: Seq<char>)
    ensures
        trim_end(s).len() == 0 || !is_ws(trim_end(s).last()),
    decreases s.len(),
{
    if s.len() > 0 && is_ws(s.last()) {
        lemma_trim_end_last(s.drop_last());
    }
}

proof fn lemma_trim_end_prefix(s: Seq<char>)
    ensures
        trim_end(s).len() <= s.len(),
        trim_end(s) == s.take(trim_end(s).len() as int),
    decreases s.len(),
{
    if s.len() > 0 && is_ws(s.last()) {
        lemma_trim_end_prefix(s.drop_last());
        assert(s.drop_last().take(trim_end(s).len() as int) =~= s.take(trim_end(s).len() as int));
    } else {
        assert(s.take(s.len() as int) =~= s);
    }
}

/// Trimming a trimmed text changes nothing.
pub proof fn lemma_trim_idempotent(s: Seq<char>)
    ensures
        trim(trim(s)) == trim(s),
{
    let x = trim_start(s);
    lemma_trim_start_first(s);
    let y = trim_end(x);
    lemma_trim_end_prefix(x);
    lemma_trim_end_last(x);
    if y.len() > 0 {
        assert(y[0] == x[0]);
    }
    assert(trim_start(y) == y);
    assert(trim_end(y) == y);
}

/// An ASCII capital letter.
pub open spec fn is_ascii_upper(c: char) -> bool {
    'A' <= c && c <= 'Z'
}

/// The only whitespace of `r` is the plain space.
pub open spec fn spaces_only(r: Seq<char>) -> bool {
    forall|i: int| 0 <= i < r.len() && is_ws(#[trigger] r[i]) ==> r[i] == ' '
}

/// No two spaces of `r` stand side by side.
pub open spec fn single_spaces(r: Seq<char>) -> bool {
    forall|i: int, j: int|
        #![trigger r[i], r[j]]
        0 <= i && j == i + 1 && j < r.len() ==> !(r[i] == ' ' && r[j] == ' ')
}

/// Where case is ignored, `r` holds no ASCII capital letter.
pub open spec fn case_folded(r: Seq<char>, case_sensitive: bool) -> bool {
    !case_sensitive ==> forall|i: int| 0 <= i < r.len() ==> !is_ascii_upper(#[trigger] r[i])
}

/// The characters of `s` that are not whitespace, in order, each case
/// folded.
pub open spec fn letters(s: Seq<char>, case_sensitive: bool) -> Seq<char>
    decreases s.len(),
{
    if s.len() == 0 {
        Seq::empty()
    } else {
        let before = letters(s.drop_last(), case_sensitive);
        if is_ws(s.last()) {
            before
        } else {
            before.push(fold_case(s.last(), case_sensitive))
        }
    }
}

proof fn lemma_fold_case(c: char, case_sensitive: bool)
    ensures
        is_ws(fold_case(c, case_sensitive)) == is_ws(c),
        !case_sensitive ==> !is_ascii_upper(fold_case(c, case_sensitive)),
        case_sensitive || !is_ascii_upper(c) ==> fold_case(c, case_sensitive) == c,
{
    if is_ascii_upper(c) {
        let x = (c as u32) + 32;
        assert(97 <= x <= 122);
        assert((x as char) as u32 == x);
    }
}

proof fn lemma_collapse_shape(t: Seq<char>, case_sensitive: bool)
    ensures
        collapse(t, case_sensitive).len() == 0 <==> t.len() == 0,
        t.len() > 0 ==> (is_ws(collapse(t, case_sensitive)[0]) <==> is_ws(t[0])),
        t.len() > 0 ==> (is_ws(collapse(t, case_sensitive).last()) <==> is_ws(t.last())),
        spaces_only(collapse(t, case_sensitive)),
        single_spaces(collapse(t, case_sensitive)),
        case_folded(collapse(t, case_sensitive), case_sensitive),
        letters(collapse(t, case_sensitive), true) == letters(t, case_sensitive),
    decreases t.len(),
{
    if t.len() > 0 {
        let d = t.drop_last();
        lemma_collapse_shape(d, case_sensitive);
        let before = collapse(d, case_sensitive);
        let c = t.last();
        lemma_fold_case(c, case_sensitive);
        if d.len() > 0 {
            assert(d[0] == t[0]);
            assert(d.last() == t[t.len() - 2]);
        }
        let r = collapse(t, case_sensitive);
        if is_ws(c) && t.len() >= 2 && is_ws(t[t.len() - 2]) {
            assert(r == before);
        } else {
            let x = if is_ws(c) { ' ' } else { fold_case(c, case_sensitive) };
            assert(r == before.push(x));
            assert(r.drop_last() =~= before);
            assert(spaces_only(r)) by {
                assert forall|i: int| 0 <= i < r.len() && is_ws(#[trigger] r[i]) implies r[i] == ' ' by {
                    if i < before.len() {
                        assert(r[i] == before[i]);
                    }
                }
            }
            assert(single_spaces(r)) by {
                assert forall|i: int, j: int| 0 <= i && j == i + 1 && j < r.len() implies !(#[trigger] r[i] == ' '
                    && #[trigger] r[j] == ' ') by {
                    assert(r[i] == before[i]);
                    if j < before.len() {
                        assert(r[j] == before[j]);
                    } else if is_ws(c) {
                        assert(i == before.len() - 1);
                        assert(!is_ws(before.last()));
                    }
                }
            }
            assert(case_folded(r, case_sensitive)) by {
                if !case_sensitive {
                    assert forall|i: int| 0 <= i < r.len() implies !is_ascii_upper(#[trigger] r[i]) by {
                        if i < before.len() {
                            assert(r[i] == before[i]);
                        }
                    }
                }
            }
            if before.len() > 0 {
                assert(r[0] == before[0]);
            }
            assert(fold_case(x, true) == x);
        }
    }
}

proof fn lemma_letters_append(x: Seq<char>, y: Seq<char>, case_sensitive: bool)
    ensures
        letters(x + y, case_sensitive) == letters(x, case_sensitive) + letters(y, case_sensitive),
    decreases y.len(),
{
    if y.len() == 0 {
        assert(x + y =~= x);
        assert(letters(x, case_sensitive) + letters(y, case_sensitive) =~= letters(x, case_sensitive));
    } else {
        lemma_letters_append(x, y.drop_last(), case_sensitive);
        assert((x + y).drop_last() =~= x + y.drop_last());
        assert((x + y).last() == y.last());
        let lx = letters(x, case_sensitive);
        let ly = letters(y.drop_last(), case_sensitive);
        assert((lx + ly).push(fold_case(y.last(), case_sensitive)) =~= lx + ly.push(fold_case(y.last(), case_sensitive)));
    }
}

proof fn lemma_letters_trim(s: Seq<char>, case_sensitive: bool)
    ensures
        letters(trim_start(s), case_sensitive) == letters(s, case_sensitive),
        letters(trim_end(s), case_sensitive) == letters(s, case_sensitive),
    decreases s.len(),
{
    if s.len() > 0 {
        if is_ws(s[0]) {
            lemma_letters_trim(s.drop_first(), case_sensitive);
            let head = seq![s[0]];
            assert(s =~= head + s.drop_first());
            lemma_letters_append(head, s.drop_first(), case_sensitive);
            assert(head.drop_last() =~= Seq::<char>::empty());
            assert(head.last() == s[0]);
            assert(letters(head.drop_last(), case_sensitive) == Seq::<char>::empty());
            assert(letters(head, case_sensitive) =~= Seq::<char>::empty());
            assert(Seq::<char>::empty() + letters(s.drop_first(), case_sensitive) =~= letters(s.drop_first(), case_sensitive));
        }
        if is_ws(s.last()) {
            lemma_letters_trim(s.drop_last(), case_sensitive);
        }
    }
}

proof fn lemma_collapse_fixed(r: Seq<char>, case_sensitive: bool)
    requires
        spaces_only(r),
        single_spaces(r),
        case_folded(r, case_sensitive),
    ensures
        collapse(r, case_sensitive) == r,
    decreases r.len(),
{
    if r.len() > 0 {
        let d = r.drop_last();
        assert(spaces_only(d)) by {
            assert forall|i: int| 0 <= i < d.len() && is_ws(#[trigger] d[i]) implies d[i] == ' ' by {
                assert(d[i] == r[i]);
            }
        }
        assert(single_spaces(d)) by {
            assert forall|i: int, j: int| 0 <= i && j == i + 1 && j < d.len() implies !(#[trigger] d[i] == ' '
                && #[trigger] d[j] == ' ') by {
                assert(d[i] == r[i] && d[j] == r[j]);
            }
        }
        assert(case_folded(d, case_sensitive)) by {
            if !case_sensitive {
                assert forall|i: int| 0 <= i < d.len() implies !is_ascii_upper(#[trigger] d[i]) by {
                    assert(d[i] == r[i]);
                }
            }
        }
        lemma_collapse_fixed(d, case_sensitive);
        let c = r.last();
        lemma_fold_case(c, case_sensitive);
        if is_ws(c) {
            assert(c == ' ');
            if r.len() >= 2 {
                let i = r.len() - 2;
                let j = r.len() - 1;
                assert(!(r[i] == ' ' && r[j] == ' '));
                assert(!is_ws(r[i]));
            }
            assert(d.push(' ') =~= r);
        } else {
            assert(d.push(c) =~= r);
        }
    }
}

/// A text in normal form is its own normal form: trimmed, with plain single
/// spaces as its only whitespace, and (where case is ignored) no ASCII
/// capital letter.
pub proof fn lemma_normal_form_is_fixed(r: Seq<char>, case_sensitive: bool)
    requires
        trim(r) == r,
        spaces_only(r),
        single_spaces(r),
        case_folded(r, case_sensitive),
    ensures
        normalized(r, case_sensitive) == r,
{
    lemma_collapse_fixed(r, case_sensitive);
}

/// The normal form of a typed answer is trimmed, holds no whitespace but
/// single plain spaces, holds no ASCII capital letter where case is ignored,
/// keeps every character of the answer that is not whitespace in order (case
/// folded), and is its own normal form.
pub proof fn lemma_normal_form(s: Seq<char>, case_sensitive: bool)
    ensures
        trim(normalized(s, case_sensitive)) == normalized(s, case_sensitive),
        spaces_only(normalized(s, case_sensitive)),
        single_spaces(normalized(s, case_sensitive)),
        case_folded(normalized(s, case_sensitive), case_sensitive),
        letters(normalized(s, case_sensitive), true) == letters(s, case_sensitive),
        normalized(normalized(s, case_sensitive), case_sensitive) == normalized(s, case_sensitive),
{
    let x = trim_start(s);
    let t = trim_end(x);
    lemma_trim_start_first(s);
    lemma_trim_end_prefix(x);
    lemma_trim_end_last(x);
    if t.len() > 0 {
        assert(t[0] == x[0]);
    }
    let r = collapse(t, case_sensitive);
    lemma_collapse_shape(t, case_sensitive);
    assert(trim_start(r) == r);
    assert(trim_end(r) == r);
    lemma_letters_trim(s, case_sensitive);
    lemma_letters_trim(x, case_sensitive);
    lemma_normal_form_is_fixed(r, case_sensitive);
}

/// The bounds `(start, end)` of the trimmed part of `v`.
pub fn trim_bounds(v: &Vec<char>) -> (r: (usize, usize))
    ensures
        r.0 <= r.1 <= v.len(),
        v@.subrange(r.0 as int, r.1 as int) == trim(v@),
{
    let n = v.len();
    let mut start: usize = 0;
    while start < n && is_whitespace(v[start])
        invariant
            start <= n == v.len(),
            forall|j: int| 0 <= j < start ==> is_ws(#[trigger] v@[j]),
        decreases n - start,
    {
        start = start + 1;
    }
    let mut end: usize = n;
    while end > start && is_whitespace(v[end - 1])
        invariant
            start <= end <= n == v.len(),
            forall|j: int| end <= j < n ==> is_ws(#[trigger] v@[j]),
        decreases end - start,
    {
        end = end - 1;
    }
    proof {
        let s = v@;
        lemma_trim_start_skip(s, start as int);
        let t = s.skip(start as int);
        assert(start == n || !is_ws(t[0]));
        assert(trim_start(t) == t);
        assert forall|j: int| end - start <= j < t.len() implies is_ws(#[trigger] t[j]) by {
            assert(t[j] == s[j + start]);
        }
        lemma_trim_end_take(t, end - start);
        let u = t.take(end - start);
        assert(end == start || !is_ws(u.last()));
        assert(trim_end(u) == u);
        assert(u =~= s.subrange(start as int, end as int));
    }
    (start, end)
}

/// `str::trim` on the characters of `v`.
pub fn trimmed(v: &Vec<char>) -> (s: String)
    ensures
        s@ == trim(v@),
{
    let (start, end) = trim_bounds(v);
    string_of(v, start, end)
}

/// The normal form of a typed answer (see [`normalized`]).
pub fn normalize(value: &str, case_sensitive: bool) -> (out: String)
    ensures
        out@ == normalized(value@, case_sensitive),
{
    let v = chars_of(value);
    let (start, end) = trim_bounds(&v);
    let ghost t = v@.subrange(start as int, end as int);
    let mut out = String::new();
    let mut whitespace = false;
    let mut i = start;
    while i < end
        invariant
            start <= i <= end <= v.len(),
            t == v@.subrange(start as int, end as int),
            out@ == collapse(t.take(i - start), case_sensitive),
            whitespace == (i > start && is_ws(v@[i - 1])),
        decreases end - i,
    {
        let ch = v[i];
        let ghost prefix = t.take(i + 1 - start);
        assert(prefix.drop_last() =~= t.take(i - start));
        assert(prefix.last() == ch);
        assert(prefix.len() >= 2 ==> prefix[prefix.len() - 2] == v@[i - 1]);
        if is_whitespace(ch) {
            if !whitespace {
                push_char(&mut out, ' ');
            }
            whitespace = true;
        } else {
            whitespace = false;
            if case_sensitive {
                push_char(&mut out, ch);
            } else {
                push_char(&mut out, to_ascii_lowercase(ch));
            }
        }
        i = i + 1;
    }
    assert(t.take(end - start) =~= t);
    out
}


/// The ASCII digit for `d < 10`.
pub open spec fn digit_char(d: nat) -> char {
    (48 + d) as char
}

/// The decimal digits of `n`, without leading zeros.
pub open spec fn decimal(n: nat) -> Seq<char>
    decreases n,
{
    if n < 10 {
        seq![digit_char(n)]
    } else {
        decimal(n / 10).push(digit_char(n % 10))
    }
}

/// The decimal text of an integer, with a leading `-` when it is negative.
pub open spec fn signed_decimal(n: int) -> Seq<char> {
    if n < 0 {
        seq!['-'] + decimal((-n) as nat)
    } else {
        decimal(n as nat)
    }
}

/// Append the decimal digits of `n`.
pub fn push_decimal(s: &mut String, n: u64)
    ensures
        final(s)@ == old(s)@ + decimal(n as nat),
    decreases n,
{
    if n >= 10 {
        push_decimal(s, n / 10);
    }
    let d: u8 = (n % 10) as u8;
    push_char(s, (48 + d) as char);
    proof {
        if n < 10 {
            assert(old(s)@ + decimal(n as nat) =~= old(s)@.push(digit_char(n as nat)));
        } else {
            assert(old(s)@ + decimal(n as nat) =~= (old(s)@ + decimal((n / 10) as nat)).push(digit_char((n % 10) as nat)));
        }
    }
}

/// `u64::to_string`.
pub fn u64_to_string(n: u64) -> (s: String)
    ensures
        s@ == decimal(n as nat),
{
    let mut s = String::new();
    push_decimal(&mut s, n);
    assert(Seq::<char>::empty() + decimal(n as nat) =~= decimal(n as nat));
    s
}

/// `i64::to_string`.
pub fn i64_to_string(n: i64) -> (s: String)
    ensures
        s@ == signed_decimal(n as int),
{
    let mut s = String::new();
    if n < 0 {
        push_char(&mut s, '-');
        let magnitude: u64 = if n == i64::MIN {
            9223372036854775808u64
        } else {
            (-n) as u64
        };
        push_decimal(&mut s, magnitude);
    } else {
        push_decimal(&mut s, n as u64);
        assert(Seq::<char>::empty() + decimal(n as nat) =~= decimal(n as nat));
    }
    s
}


/// Whether `pat` occurs in `s` at position `i`.
pub open spec fn occurs_at(s: Seq<char>, pat: Seq<char>, i: int) -> bool {
    0 <= i && i + pat.len() <= s.len() && s.subrange(i, i + pat.len()) == pat
}

/// Whether `pat` occurs somewhere in `s` (`str::contains`).
pub open spec fn contains_text(s: Seq<char>, pat: Seq<char>) -> bool {
    exists|i: int| occurs_at(s, pat, i)
}

/// Whether `s` begins with `pat` (`str::starts_with`).
pub open spec fn starts_with_text(s: Seq<char>, pat: Seq<char>) -> bool {
    occurs_at(s, pat, 0)
}

/// Whether the characters of `pat` stand in `v` at position `i`.
pub fn occurs_at_exec(v: &Vec<char>, pat: &Vec<char>, i: usize) -> (b: bool)
    ensures
        b == occurs_at(v@, pat@, i as int),
{
    if i > v.len() || pat.len() > v.len() - i {
        return false;
    }
    let mut k: usize = 0;
    while k < pat.len()
        invariant
            k <= pat.len(),
            i + pat.len() <= v.len(),
            forall|j: int| 0 <= j < k ==> v@[i + j] == pat@[j],
        decreases pat.len() - k,
    {
        if v[i + k] != pat[k] {
            assert(v@.subrange(i as int, i + pat.len())[k as int] != pat@[k as int]);
            return false;
        }
        k = k + 1;
    }
    assert(v@.subrange(i as int, i + pat.len()) =~= pat@);
    true
}

/// Whether `pat` occurs somewhere in `v`.
pub fn contains_exec(v: &Vec<char>, pat: &Vec<char>) -> (b: bool)
    ensures
        b == contains_text(v@, pat@),
{
    if pat.len() > v.len() {
        return false;
    }
    let last = v.len() - pat.len();
    let mut i: usize = 0;
    while i < last
        invariant
            i <= last == v.len() - pat.len(),
            forall|j: int| 0 <= j < i ==> !occurs_at(v@, pat@, j),
        decreases last - i,
    {
        if occurs_at_exec(v, pat, i) {
            return true;
        }
        i = i + 1;
    }
    if occurs_at_exec(v, pat, last) {
        return true;
    }
    false
}

/// Whether two texts are equal.
pub fn text_eq(a: &str, b: &str) -> (eq: bool)
    ensures
        eq == (a@ == b@),
{
    let x = chars_of(a);
    let y = chars_of(b);
    if x.len() != y.len() {
        return false;
    }
    let mut i: usize = 0;
    while i < x.len()
        invariant
            i <= x.len() == y.len(),
            x@ == a@,
            y@ == b@,
            forall|j: int| 0 <= j < i ==> x@[j] == y@[j],
        decreases x.len() - i,
    {
        if x[i] != y[i] {
            assert(x@[i as int] != y@[i as int]);
            return false;
        }
        i = i + 1;
    }
    assert(x@ =~= y@);
    true
}

/// The characters `v[from..to]` as a vector of their own.
pub fn sub_chars(v: &Vec<char>, from: usize, to: usize) -> (out: Vec<char>)
    requires
        from <= to <= v.len(),
    ensures
        out@ == v@.subrange(from as int, to as int),
{
    let mut out: Vec<char> = Vec::new();
    let mut i = from;
    while i < to
        invariant
            from <= i <= to <= v.len(),
            out@ == v@.subrange(from as int, i as int),
        decreases to - i,
    {
        out.push(v[i]);
        assert(v@.subrange(from as int, i + 1) == v@.subrange(from as int, i as int).push(v@[i as int]));
        i = i + 1;
    }
    out
}

/// The texts of a list of strings.
pub open spec fn texts(strings: Seq<String>) -> Seq<Seq<char>> {
    strings.map_values(|s: String| s@)
}

/// The text of an optional string.
pub open spec fn opt_text(o: Option<String>) -> Option<Seq<char>> {
    match o {
        Some(s) => Some(s@),
        None => None,
    }
}

/// Append the characters `v[from..to]`.
pub fn push_chars(s: &mut String, v: &Vec<char>, from: usize, to: usize)
    requires
        from <= to <= v.len(),
    ensures
        final(s)@ == old(s)@ + v@.subrange(from as int, to as int),
{
    let mut i = from;
    while i < to
        invariant
            from <= i <= to <= v.len(),
            s@ == old(s)@ + v@.subrange(from as int, i as int),
        decreases to - i,
    {
        push_char(s, v[i]);
        assert(old(s)@ + v@.subrange(from as int, i + 1) =~= (old(s)@ + v@.subrange(from as int, i as int)).push(v@[i as int]));
        i = i + 1;
    }
}

} // verus!
