//! Verified text primitives: character classes, fixed-pattern matching at a
//! position, and maximal character runs. The product-page scraper and the
//! URL helpers are built on these.

use vstd::prelude::*;

verus! {

/// View of a sequence of string pairs as a sequence of character-sequence
/// pairs.
pub open spec fn pairs_view(s: Seq<(String, String)>) -> Seq<(Seq<char>, Seq<char>)> {
    s.map_values(|p: (String, String)| (p.0@, p.1@))
}

/// ASCII letter, digit or underscore.
pub open spec fn is_word_char(c: char) -> bool {
    ('a' <= c && c <= 'z') || ('A' <= c && c <= 'Z') || ('0' <= c && c <= '9') || c == '_'
}

/// ASCII whitespace as it occurs in the vendor's markup.
pub open spec fn is_space_char(c: char) -> bool {
    c == ' ' || c == '\t' || c == '\n' || c == '\r'
}

/// A character that may occur in a language label: word characters,
/// whitespace and parentheses.
pub open spec fn is_lang_char(c: char) -> bool {
    is_word_char(c) || is_space_char(c) || c == '(' || c == ')'
}

/// Decimal digit.
pub open spec fn is_digit(c: char) -> bool {
    '0' <= c && c <= '9'
}

/// Upper-case hexadecimal digit.
pub open spec fn is_hex_upper(c: char) -> bool {
    ('0' <= c && c <= '9') || ('A' <= c && c <= 'F')
}

pub open spec fn lang_pred() -> spec_fn(char) -> bool {
    |c: char| is_lang_char(c)
}

pub open spec fn space_pred() -> spec_fn(char) -> bool {
    |c: char| is_space_char(c)
}

pub open spec fn digit_pred() -> spec_fn(char) -> bool {
    |c: char| is_digit(c)
}

/// The fixed pattern `pat` occurs in `h` at position `i`.
pub open spec fn matches_at(h: Seq<char>, i: int, pat: Seq<char>) -> bool {
    0 <= i && i + pat.len() <= h.len() && h.subrange(i, i + pat.len()) == pat
}

/// End of the maximal run of characters satisfying `p` that starts at `i`.
pub open spec fn run_end(h: Seq<char>, i: int, p: spec_fn(char) -> bool) -> int
    decreases h.len() - i,
{
    if 0 <= i && i < h.len() && p(h[i]) {
        run_end(h, i + 1, p)
    } else {
        i
    }
}

pub proof fn lemma_run_end_bounds(h: Seq<char>, i: int, p: spec_fn(char) -> bool)
    requires
        0 <= i <= h.len(),
    ensures
        i <= run_end(h, i, p) <= h.len(),
        forall|k: int| i <= k < run_end(h, i, p) ==> p(h[k]),
        run_end(h, i, p) < h.len() ==> !p(h[run_end(h, i, p)]),
    decreases h.len() - i,
{
    if 0 <= i && i < h.len() && p(h[i]) {
        lemma_run_end_bounds(h, i + 1, p);
    }
}

/// Executable check that `pat` occurs in `h` at position `i`.
pub fn contains_at(h: &str, i: usize, pat: &str) -> (b: bool)
    requires
        i <= h@.len(),
    ensures
        b == matches_at(h@, i as int, pat@),
{
    let hlen = h.unicode_len();
    let n = pat.unicode_len();
    if n > hlen - i {
        assert(i + pat@.len() > h@.len());
        return false;
    }
    let mut k: usize = 0;
    while k < n
        invariant
            i + n <= hlen,
            hlen == h@.len(),
            n == pat@.len(),
            k <= n,
            forall|j: int| 0 <= j < k ==> h@[i + j] == pat@[j],
        decreases n - k,
    {
        if h.get_char(i + k) != pat.get_char(k) {
            assert(h@.subrange(i as int, i + pat@.len()) != pat@) by {
                assert(h@.subrange(i as int, i + pat@.len())[k as int] != pat@[k as int]);
            }
            return false;
        }
        k += 1;
    }
    assert(h@.subrange(i as int, i + pat@.len()) =~= pat@);
    true
}

/// Executable equality of two strings, in terms of their views.
pub fn str_eq(a: &str, b: &str) -> (r: bool)
    ensures
        r == (a@ == b@),
{
    let x = a.to_owned();
    let y = b.to_owned();
    x == y
}

/// Executable end of the maximal run of language characters from `i`.
pub fn lang_run_end(h: &str, i: usize) -> (r: usize)
    requires
        i <= h@.len(),
    ensures
        r == run_end(h@, i as int, lang_pred()),
        i <= r <= h@.len(),
{
    run_end_exec(h, i, 0)
}

/// Executable end of the maximal run of whitespace characters from `i`.
pub fn space_run_end(h: &str, i: usize) -> (r: usize)
    requires
        i <= h@.len(),
    ensures
        r == run_end(h@, i as int, space_pred()),
        i <= r <= h@.len(),
{
    run_end_exec(h, i, 1)
}

/// Executable end of the maximal run of decimal digits from `i`.
pub fn digit_run_end(h: &str, i: usize) -> (r: usize)
    requires
        i <= h@.len(),
    ensures
        r == run_end(h@, i as int, digit_pred()),
        i <= r <= h@.len(),
{
    run_end_exec(h, i, 2)
}

/// Spec class selected by a class code: language characters, whitespace,
/// or digits.
pub open spec fn class_pred(class: int) -> spec_fn(char) -> bool {
    if class == 0 {
        lang_pred()
    } else if class == 1 {
        space_pred()
    } else {
        digit_pred()
    }
}

fn class_char(class: u8, c: char) -> (b: bool)
    ensures
        b == class_pred(class as int)(c),
{
    let u = c as u32;
    let word = (97 <= u && u <= 122) || (65 <= u && u <= 90) || (48 <= u && u <= 57) || u == 95;
    let space = u == 32 || u == 9 || u == 10 || u == 13;
    if class == 0 {
        assert(('a' <= c && c <= 'z') == (97 <= u && u <= 122));
        assert(('A' <= c && c <= 'Z') == (65 <= u && u <= 90));
        assert(('0' <= c && c <= '9') == (48 <= u && u <= 57));
        assert((c == '_') == (u == 95));
        assert((c == ' ') == (u == 32));
        assert((c == '\t') == (u == 9));
        assert((c == '\n') == (u == 10));
        assert((c == '\r') == (u == 13));
        assert((c == '(') == (u == 40));
        assert((c == ')') == (u == 41));
        word || space || u == 40 || u == 41
    } else if class == 1 {
        assert((c == ' ') == (u == 32));
        assert((c == '\t') == (u == 9));
        assert((c == '\n') == (u == 10));
        assert((c == '\r') == (u == 13));
        space
    } else {
        assert(('0' <= c && c <= '9') == (48 <= u && u <= 57));
        48 <= u && u <= 57
    }
}

/// Executable check for a decimal digit.
pub fn digit_char(c: char) -> (b: bool)
    ensures
        b == is_digit(c),
{
    let u = c as u32;
    assert(('0' <= c && c <= '9') == (48 <= u && u <= 57));
    48 <= u && u <= 57
}

/// Executable check for an upper-case hexadecimal digit.
pub fn hex_char(c: char) -> (b: bool)
    ensures
        b == is_hex_upper(c),
{
    let u = c as u32;
    assert(('0' <= c && c <= '9') == (48 <= u && u <= 57));
    assert(('A' <= c && c <= 'F') == (65 <= u && u <= 70));
    (48 <= u && u <= 57) || (65 <= u && u <= 70)
}

fn run_end_exec(h: &str, i: usize, class: u8) -> (r: usize)
    requires
        i <= h@.len(),
    ensures
        r == run_end(h@, i as int, class_pred(class as int)),
        i <= r <= h@.len(),
{
    let ghost p = class_pred(class as int);
    let hlen = h.unicode_len();
    let mut j: usize = i;
    while j < hlen
        invariant
            i <= j <= hlen,
            hlen == h@.len(),
            run_end(h@, i as int, p) == run_end(h@, j as int, p),
            p == class_pred(class as int),
        decreases hlen - j,
    {
        let c = h.get_char(j);
        if !class_char(class, c) {
            assert(run_end(h@, j as int, p) == j);
            proof {
                lemma_run_end_bounds(h@, i as int, p);
            }
            return j;
        }
        assert(run_end(h@, j as int, p) == run_end(h@, j + 1, p));
        j += 1;
    }
    assert(run_end(h@, j as int, p) == j);
    proof {
        lemma_run_end_bounds(h@, i as int, p);
    }
    j
}

} // verus!
