//! The markdown importer's parser: reads a document of `## Topic`
//! headings, numbered `### n. Question` headings, and `**Answer:**`
//! sections into parsed topics with their questions and answers.

use vstd::prelude::*;

verus! {

use vstd::string::{StrSliceExecFns, StringExecFns};

/// Whether a character is Unicode whitespace, as
/// `char::is_whitespace` decides it: a function of the character
/// alone.
pub uninterp spec fn whitespace(c: char) -> bool;

/// Relies on `char::is_whitespace`: a pure predicate on the
/// character's Unicode category.
#[verifier::external_body]
fn is_whitespace_char(c: char) -> (r: bool)
    ensures
        r == whitespace(c),
{
    c.is_whitespace()
}

/// How many whitespace characters the sequence starts with.
pub open spec fn ws_prefix_len(s: Seq<char>) -> int
    decreases s.len(),
{
    if s.len() == 0 {
        0
    } else if whitespace(s.first()) {
        1 + ws_prefix_len(s.drop_first())
    } else {
        0
    }
}

/// How many whitespace characters the sequence ends with.
pub open spec fn ws_suffix_len(s: Seq<char>) -> int
    decreases s.len(),
{
    if s.len() == 0 {
        0
    } else if whitespace(s.last()) {
        1 + ws_suffix_len(s.drop_last())
    } else {
        0
    }
}

/// The sequence with surrounding whitespace removed.
pub open spec fn spec_trim(s: Seq<char>) -> Seq<char> {
    let t = s.skip(ws_prefix_len(s));
    t.take(t.len() - ws_suffix_len(t))
}

proof fn lemma_ws_prefix(s: Seq<char>)
    ensures
        0 <= ws_prefix_len(s) <= s.len(),
        forall|i: int| 0 <= i < ws_prefix_len(s) ==> whitespace(#[trigger] s[i]),
        ws_prefix_len(s) < s.len() ==> !whitespace(s[ws_prefix_len(s)]),
    decreases s.len(),
{
    if s.len() > 0 && whitespace(s.first()) {
        lemma_ws_prefix(s.drop_first());
        assert(forall|i: int| 0 <= i < s.drop_first().len() ==> s.drop_first()[i] == s[i + 1]);
        assert forall|i: int| 0 <= i < ws_prefix_len(s) implies whitespace(#[trigger] s[i]) by {
            if i > 0 {
                assert(whitespace(s.drop_first()[i - 1]));
            }
        }
    }
}

proof fn lemma_ws_suffix(s: Seq<char>)
    ensures
        0 <= ws_suffix_len(s) <= s.len(),
        forall|i: int| s.len() - ws_suffix_len(s) <= i < s.len() ==> whitespace(#[trigger] s[i]),
        ws_suffix_len(s) < s.len() ==> !whitespace(s[s.len() - ws_suffix_len(s) - 1]),
    decreases s.len(),
{
    if s.len() > 0 && whitespace(s.last()) {
        lemma_ws_suffix(s.drop_last());
        assert forall|i: int| s.len() - ws_suffix_len(s) <= i < s.len()
            implies whitespace(#[trigger] s[i]) by {
            if i < s.len() - 1 {
                assert(whitespace(s.drop_last()[i]));
            }
        }
    }
}

/// The number of leading whitespace characters, counted.
fn count_ws_prefix(s: &str) -> (r: usize)
    ensures
        r == ws_prefix_len(s@),
{
    let n = s.unicode_len();
    let mut i: usize = 0;
    proof {
        lemma_ws_prefix(s@);
        assert(s@.skip(0) =~= s@);
    }
    while i < n
        invariant
            n == s@.len(),
            i <= n,
            forall|j: int| 0 <= j < i ==> whitespace(#[trigger] s@[j]),
        decreases n - i,
    {
        if !is_whitespace_char(s.get_char(i)) {
            proof {
                lemma_ws_prefix_exact(s@, i as int);
            }
            return i;
        }
        i = i + 1;
    }
    proof {
        lemma_ws_prefix_index(s@, n as int);
        lemma_ws_prefix(s@);
    }
    n
}

/// Up to a point where all earlier characters are whitespace, the
/// whitespace prefix reaches at least that point.
proof fn lemma_ws_prefix_index(s: Seq<char>, i: int)
    requires
        0 <= i <= s.len(),
        forall|j: int| 0 <= j < i ==> whitespace(#[trigger] s[j]),
    ensures
        ws_prefix_len(s) >= i,
    decreases i,
{
    if i > 0 {
        assert(whitespace(s[0]));
        assert(whitespace(s.first()));
        assert(forall|j: int| 0 <= j < s.drop_first().len() ==> s.drop_first()[j] == s[j + 1]);
        assert forall|j: int| 0 <= j < i - 1 implies whitespace(#[trigger] s.drop_first()[j]) by {
            assert(whitespace(s[j + 1]));
        }
        lemma_ws_prefix_index(s.drop_first(), i - 1);
        assert(ws_prefix_len(s) == 1 + ws_prefix_len(s.drop_first()));
    } else {
        lemma_ws_prefix(s);
    }
}

/// A non-whitespace character after a whitespace run pins the prefix
/// length.
proof fn lemma_ws_prefix_exact(s: Seq<char>, i: int)
    requires
        0 <= i < s.len(),
        forall|j: int| 0 <= j < i ==> whitespace(#[trigger] s[j]),
        !whitespace(s[i]),
    ensures
        ws_prefix_len(s) == i,
{
    lemma_ws_prefix_index(s, i);
    lemma_ws_prefix(s);
    if ws_prefix_len(s) > i {
        assert(whitespace(s[i]));
    }
}

/// The number of trailing whitespace characters, counted.
fn count_ws_suffix(s: &str) -> (r: usize)
    ensures
        r == ws_suffix_len(s@),
{
    let n = s.unicode_len();
    let mut i: usize = 0;
    while i < n
        invariant
            n == s@.len(),
            i <= n,
            forall|j: int| n - i <= j < n ==> whitespace(#[trigger] s@[j]),
        decreases n - i,
    {
        if !is_whitespace_char(s.get_char(n - 1 - i)) {
            proof {
                lemma_ws_suffix_exact(s@, i as int);
            }
            return i;
        }
        i = i + 1;
    }
    proof {
        lemma_ws_suffix_index(s@, n as int);
        lemma_ws_suffix(s@);
    }
    n
}

/// Up to a count where all later characters are whitespace, the
/// whitespace suffix reaches at least that count.
proof fn lemma_ws_suffix_index(s: Seq<char>, i: int)
    requires
        0 <= i <= s.len(),
        forall|j: int| s.len() - i <= j < s.len() ==> whitespace(#[trigger] s[j]),
    ensures
        ws_suffix_len(s) >= i,
    decreases i,
{
    if i > 0 {
        assert(whitespace(s[s.len() - 1]));
        assert(whitespace(s.last()));
        assert(s.drop_last() =~= s.take(s.len() - 1));
        assert forall|j: int| s.drop_last().len() - (i - 1) <= j < s.drop_last().len()
            implies whitespace(#[trigger] s.drop_last()[j]) by {
            assert(whitespace(s[j]));
        }
        lemma_ws_suffix_index(s.drop_last(), i - 1);
        assert(ws_suffix_len(s) == 1 + ws_suffix_len(s.drop_last()));
    } else {
        lemma_ws_suffix(s);
    }
}

/// A non-whitespace character before a whitespace run pins the suffix
/// length.
proof fn lemma_ws_suffix_exact(s: Seq<char>, i: int)
    requires
        0 <= i < s.len(),
        forall|j: int| s.len() - i <= j < s.len() ==> whitespace(#[trigger] s[j]),
        !whitespace(s[s.len() - 1 - i]),
    ensures
        ws_suffix_len(s) == i,
{
    lemma_ws_suffix_index(s, i);
    lemma_ws_suffix(s);
    if ws_suffix_len(s) > i {
        assert(whitespace(s[s.len() - 1 - i]));
    }
}

/// The string with surrounding whitespace removed.
fn trim_str(s: &str) -> (r: String)
    ensures
        r@ == spec_trim(s@),
{
    let a = count_ws_prefix(s);
    let n = s.unicode_len();
    if a == n {
        proof {
            assert(s@.skip(a as int) =~= Seq::<char>::empty());
            assert(spec_trim(s@) =~= Seq::<char>::empty());
        }
        return String::new();
    }
    let b = count_ws_suffix(s);
    proof {
        lemma_ws_prefix(s@);
        lemma_ws_suffix(s@);
        lemma_ws_suffix_of_skip(s@, a as int);
    }
    let piece = s.substring_char(a, n - b);
    proof {
        assert(s@.subrange(a as int, n - b) =~= spec_trim(s@));
    }
    piece.to_owned()
}

/// Trimming the front does not change the back's whitespace run, as
/// long as something non-whitespace separates them.
proof fn lemma_ws_suffix_of_skip(s: Seq<char>, a: int)
    requires
        0 <= a <= s.len(),
        a == ws_prefix_len(s),
        a < s.len(),
    ensures
        ws_suffix_len(s.skip(a)) == ws_suffix_len(s),
        ws_suffix_len(s) <= s.len() - a,
    decreases a,
{
    lemma_ws_prefix(s);
    lemma_ws_suffix(s);
    if a == 0 {
        assert(s.skip(0) =~= s);
    } else {
        let d = s.drop_first();
        assert(whitespace(s[0]));
        assert(forall|j: int| 0 <= j < d.len() ==> d[j] == s[j + 1]);
        assert(ws_prefix_len(d) == a - 1);
        assert(!whitespace(s[a])) by {
            lemma_ws_prefix(s);
        }
        // the last non-whitespace character bounds the suffix run
        assert(ws_suffix_len(s) <= s.len() - a - 1 + 1) by {
            if ws_suffix_len(s) > s.len() - a {
                assert(whitespace(s[a]));
            }
        }
        assert(ws_suffix_len(d) == ws_suffix_len(s)) by {
            lemma_ws_suffix(d);
            lemma_ws_suffix_index(d, ws_suffix_len(s));
            if ws_suffix_len(d) > ws_suffix_len(s) {
                assert(whitespace(d[d.len() - ws_suffix_len(s) - 1]));
                assert(d[d.len() - ws_suffix_len(s) - 1] == s[s.len() - ws_suffix_len(s) - 1]);
            }
        }
        assert(ws_prefix_len(d) == a - 1 && a - 1 < d.len());
        lemma_ws_suffix_of_skip(d, a - 1);
        assert(d.skip(a - 1) =~= s.skip(a));
    }
}


/// Whether one sequence begins with another.
pub open spec fn is_prefix(s: Seq<char>, p: Seq<char>) -> bool {
    p.len() <= s.len() && (forall|i: int| 0 <= i < p.len() ==> s[i] == p[i])
}

/// Whether the string begins with the given prefix.
fn has_prefix(s: &str, p: &str) -> (r: bool)
    ensures
        r == is_prefix(s@, p@),
{
    let np = p.unicode_len();
    let ns = s.unicode_len();
    if np > ns {
        return false;
    }
    let mut i: usize = 0;
    while i < np
        invariant
            np == p@.len(),
            ns == s@.len(),
            np <= ns,
            i <= np,
            forall|j: int| 0 <= j < i ==> s@[j] == p@[j],
        decreases np - i,
    {
        if s.get_char(i) != p.get_char(i) {
            return false;
        }
        i = i + 1;
    }
    true
}

/// An ASCII decimal digit.
pub open spec fn is_digit(c: char) -> bool {
    '0' <= c <= '9'
}

/// How many decimal digits the sequence starts with.
pub open spec fn digits_len(s: Seq<char>) -> int
    decreases s.len(),
{
    if s.len() == 0 {
        0
    } else if is_digit(s.first()) {
        1 + digits_len(s.drop_first())
    } else {
        0
    }
}

/// The number the first `k` characters denote in decimal.
pub open spec fn digits_val(s: Seq<char>, k: int) -> int
    decreases k,
{
    if k <= 0 {
        0
    } else {
        digits_val(s, k - 1) * 10 + (s[k - 1] as int - '0' as int)
    }
}

/// The question number at the head of a heading: a run of digits
/// followed by a dot, provided the number fits a 32-bit integer.
pub open spec fn q_number(s: Seq<char>) -> Option<int> {
    let k = digits_len(s);
    if k > 0 && k < s.len() && s[k] == '.' && digits_val(s, k) <= i32::MAX {
        Some(digits_val(s, k))
    } else {
        None
    }
}

/// The heading with its `n.` prefix and the whitespace after it
/// removed; a heading without that prefix is untouched.
pub open spec fn strip_q_prefix(s: Seq<char>) -> Seq<char> {
    let k = digits_len(s);
    if k > 0 && k < s.len() && s[k] == '.' {
        let rest = s.skip(k + 1);
        rest.skip(ws_prefix_len(rest))
    } else {
        s
    }
}

proof fn lemma_digits(s: Seq<char>)
    ensures
        0 <= digits_len(s) <= s.len(),
        forall|i: int| 0 <= i < digits_len(s) ==> is_digit(#[trigger] s[i]),
        digits_len(s) < s.len() ==> !is_digit(s[digits_len(s)]),
    decreases s.len(),
{
    if s.len() > 0 && is_digit(s.first()) {
        lemma_digits(s.drop_first());
        assert(forall|i: int| 0 <= i < s.drop_first().len() ==> s.drop_first()[i] == s[i + 1]);
        assert forall|i: int| 0 <= i < digits_len(s) implies is_digit(#[trigger] s[i]) by {
            if i > 0 {
                assert(is_digit(s.drop_first()[i - 1]));
            }
        }
    }
}

proof fn lemma_digits_index(s: Seq<char>, i: int)
    requires
        0 <= i <= s.len(),
        forall|j: int| 0 <= j < i ==> is_digit(#[trigger] s[j]),
    ensures
        digits_len(s) >= i,
    decreases i,
{
    if i > 0 {
        assert(is_digit(s[0]));
        assert(is_digit(s.first()));
        assert(forall|j: int| 0 <= j < s.drop_first().len() ==> s.drop_first()[j] == s[j + 1]);
        assert forall|j: int| 0 <= j < i - 1 implies is_digit(#[trigger] s.drop_first()[j]) by {
            assert(is_digit(s[j + 1]));
        }
        lemma_digits_index(s.drop_first(), i - 1);
        assert(digits_len(s) == 1 + digits_len(s.drop_first()));
    } else {
        lemma_digits(s);
    }
}

proof fn lemma_digits_exact(s: Seq<char>, i: int)
    requires
        0 <= i <= s.len(),
        forall|j: int| 0 <= j < i ==> is_digit(#[trigger] s[j]),
        i < s.len() ==> !is_digit(s[i]),
    ensures
        digits_len(s) == i,
{
    lemma_digits_index(s, i);
    lemma_digits(s);
    if digits_len(s) > i {
        assert(is_digit(s[i]));
    }
}

proof fn lemma_digits_val_nonneg(s: Seq<char>, k: int)
    requires
        forall|j: int| 0 <= j < k ==> is_digit(#[trigger] s[j]),
    ensures
        digits_val(s, k) >= 0,
    decreases k,
{
    if k > 0 {
        lemma_digits_val_nonneg(s, k - 1);
        assert(is_digit(s[k - 1]));
    }
}

/// Counts the leading digits of a heading.
fn count_digits(s: &str) -> (r: usize)
    ensures
        r == digits_len(s@),
{
    let n = s.unicode_len();
    let mut i: usize = 0;
    while i < n
        invariant
            n == s@.len(),
            i <= n,
            forall|j: int| 0 <= j < i ==> is_digit(#[trigger] s@[j]),
        decreases n - i,
    {
        let c = s.get_char(i);
        if !('0' <= c && c <= '9') {
            proof {
                lemma_digits_exact(s@, i as int);
            }
            return i;
        }
        i = i + 1;
    }
    proof {
        lemma_digits_exact(s@, n as int);
    }
    n
}

/// Reads the question number off a heading, refusing one that is not
/// a digit run followed by a dot or that overflows a 32-bit integer.
pub fn extract_question_number(text: &str) -> (r: Option<i32>)
    ensures
        match r {
            Some(v) => q_number(text@) == Some(v as int),
            None => q_number(text@) is None,
        },
{
    let n = text.unicode_len();
    let k = count_digits(text);
    proof {
        lemma_digits(text@);
    }
    if k == 0 || k == n {
        return None;
    }
    if text.get_char(k) != '.' {
        return None;
    }
    let mut val: i64 = 0;
    let mut over = false;
    let mut j: usize = 0;
    proof {
        lemma_digits_val_nonneg(text@, 0);
    }
    while j < k
        invariant
            k == digits_len(text@),
            k <= text@.len(),
            j <= k,
            forall|a: int| 0 <= a < digits_len(text@) ==> is_digit(#[trigger] text@[a]),
            !over ==> val == digits_val(text@, j as int) && 0 <= val <= i32::MAX,
            over ==> digits_val(text@, j as int) > i32::MAX,
        decreases k - j,
    {
        let c = text.get_char(j);
        proof {
            assert(is_digit(text@[j as int]));
            lemma_digits_val_nonneg(text@, j as int);
        }
        let d = (c as u32) - ('0' as u32);
        if over {
            proof {
                assert(digits_val(text@, j as int + 1) == digits_val(text@, j as int) * 10 + (
                text@[j as int] as int - '0' as int));
                assert(digits_val(text@, j as int) * 10 >= digits_val(text@, j as int)) by {
                    assert(digits_val(text@, j as int) > 0);
                }
            }
        } else {
            let next = val * 10 + (d as i64);
            proof {
                assert(next == digits_val(text@, j as int + 1));
            }
            if next > (i32::MAX as i64) {
                over = true;
            } else {
                val = next;
            }
        }
        j = j + 1;
    }
    if over {
        return None;
    }
    Some(val as i32)
}

/// Removes the `n.` prefix and the whitespace after it from a heading
/// that has one.
pub fn remove_question_number_prefix(text: &str) -> (r: String)
    ensures
        r@ == strip_q_prefix(text@),
{
    let n = text.unicode_len();
    let k = count_digits(text);
    proof {
        lemma_digits(text@);
    }
    if k == 0 || k == n {
        return text.to_owned();
    }
    if text.get_char(k) != '.' {
        return text.to_owned();
    }
    let rest = text.substring_char(k + 1, n);
    proof {
        assert(rest@ =~= text@.skip(k as int + 1));
    }
    let w = count_ws_prefix(rest);
    proof {
        lemma_ws_prefix(rest@);
    }
    let out = rest.substring_char(w, rest.unicode_len());
    proof {
        assert(out@ =~= rest@.skip(w as int));
    }
    out.to_owned()
}

/// Where the first line break sits, or the length when there is none.
pub open spec fn first_nl(s: Seq<char>) -> int
    decreases s.len(),
{
    if s.len() == 0 {
        0
    } else if s.first() == '\n' {
        0
    } else {
        1 + first_nl(s.drop_first())
    }
}

/// A line with a carriage return left by a CRLF terminator removed.
pub open spec fn strip_cr(s: Seq<char>) -> Seq<char> {
    if s.len() > 0 && s.last() == '\r' {
        s.drop_last()
    } else {
        s
    }
}

/// The document split into lines: terminators are a line feed or a
/// carriage return and line feed; a final line needs none.
pub open spec fn split_lines(s: Seq<char>) -> Seq<Seq<char>>
    decreases s.len(),
    via split_lines_dec
{
    if s.len() == 0 {
        Seq::empty()
    } else {
        let n = first_nl(s);
        if n >= s.len() {
            seq![s]
        } else {
            seq![strip_cr(s.take(n))] + split_lines(s.skip(n + 1))
        }
    }
}

#[via_fn]
proof fn split_lines_dec(s: Seq<char>) {
    lemma_first_nl(s);
}

proof fn lemma_first_nl(s: Seq<char>)
    ensures
        0 <= first_nl(s) <= s.len(),
        forall|i: int| 0 <= i < first_nl(s) ==> (#[trigger] s[i]) != '\n',
        first_nl(s) < s.len() ==> s[first_nl(s)] == '\n',
    decreases s.len(),
{
    if s.len() > 0 && s.first() != '\n' {
        lemma_first_nl(s.drop_first());
        assert(forall|i: int| 0 <= i < s.drop_first().len() ==> s.drop_first()[i] == s[i + 1]);
        assert forall|i: int| 0 <= i < first_nl(s) implies (#[trigger] s[i]) != '\n' by {
            if i > 0 {
                assert(s.drop_first()[i - 1] != '\n');
            }
        }
    }
}

proof fn lemma_first_nl_exact(s: Seq<char>, i: int)
    requires
        0 <= i <= s.len(),
        forall|j: int| 0 <= j < i ==> (#[trigger] s[j]) != '\n',
        i < s.len() ==> s[i] == '\n',
    ensures
        first_nl(s) == i,
    decreases i,
{
    if i > 0 {
        assert(s[0] != '\n');
        assert(s.first() != '\n');
        assert(forall|j: int| 0 <= j < s.drop_first().len() ==> s.drop_first()[j] == s[j + 1]);
        assert forall|j: int| 0 <= j < i - 1 implies (#[trigger] s.drop_first()[j]) != '\n' by {
            assert(s[j + 1] != '\n');
        }
        lemma_first_nl_exact(s.drop_first(), i - 1);
        assert(first_nl(s) == 1 + first_nl(s.drop_first()));
    } else {
        lemma_first_nl(s);
        if first_nl(s) > 0 {
            assert(s[0] != '\n');
        }
    }
}

/// Splits the document into its lines.
fn split_lines_of(s: &str) -> (r: Vec<String>)
    ensures
        r@.map_values(|x: String| x@) =~~= split_lines(s@),
{
    let n = s.unicode_len();
    let mut out: Vec<String> = Vec::new();
    let mut start: usize = 0;
    let mut i: usize = 0;
    proof {
        assert(s@.skip(0) =~= s@);
        assert(out@.map_values(|x: String| x@) =~= Seq::<Seq<char>>::empty());
    }
    while i < n
        invariant
            n == s@.len(),
            start <= i <= n,
            split_lines(s@) =~~= out@.map_values(|x: String| x@) + split_lines(
                s@.skip(start as int),
            ),
            forall|j: int| start <= j < i ==> (#[trigger] s@[j]) != '\n',
        decreases n - i,
    {
        if s.get_char(i) == '\n' {
            let ghost rest = s@.skip(start as int);
            proof {
                assert forall|j: int| 0 <= j < i - start implies (#[trigger] rest[j]) != '\n' by {
                    assert(rest[j] == s@[start + j]);
                }
                assert(rest[i - start] == s@[i as int]);
                lemma_first_nl_exact(rest, i - start);
                assert(rest.take(i - start) =~= s@.subrange(start as int, i as int));
                assert(rest.skip(i - start + 1) =~= s@.skip(i as int + 1));
            }
            let seg = if i > start && s.get_char(i - 1) == '\r' {
                let g = s.substring_char(start, i - 1);
                proof {
                    assert(s@.subrange(start as int, i as int).last() == '\r');
                    assert(strip_cr(s@.subrange(start as int, i as int)) =~= s@.subrange(
                        start as int,
                        i - 1,
                    ));
                }
                g
            } else {
                let g = s.substring_char(start, i);
                proof {
                    assert(strip_cr(s@.subrange(start as int, i as int)) =~= s@.subrange(
                        start as int,
                        i as int,
                    ));
                }
                g
            };
            let owned = seg.to_owned();
            out.push(owned);
            proof {
                assert(out@ =~= out@.drop_last().push(out@.last()));
                crate::collect::lemma_map_push(out@.drop_last(), |x: String| x@, out@.last());
                assert(out@.map_values(|x: String| x@) + split_lines(s@.skip(i as int + 1))
                    =~~= out@.drop_last().map_values(|x: String| x@) + (seq![
                    strip_cr(rest.take(i - start)),
                ] + split_lines(rest.skip(i - start + 1))));
            }
            start = i + 1;
        }
        i = i + 1;
    }
    if start < n {
        let ghost rest = s@.skip(start as int);
        proof {
            assert forall|j: int| 0 <= j < rest.len() implies (#[trigger] rest[j]) != '\n' by {
                assert(rest[j] == s@[start + j]);
            }
            lemma_first_nl_exact(rest, n - start);
        }
        let seg = s.substring_char(start, n);
        let owned = seg.to_owned();
        out.push(owned);
        proof {
            assert(seg@ =~= rest);
            assert(out@ =~= out@.drop_last().push(out@.last()));
            crate::collect::lemma_map_push(out@.drop_last(), |x: String| x@, out@.last());
            assert(out@.drop_last().map_values(|x: String| x@) + seq![rest]
                =~~= out@.map_values(|x: String| x@));
        }
    } else {
        proof {
            assert(s@.skip(start as int) =~= Seq::<char>::empty());
            assert(out@.map_values(|x: String| x@) + Seq::<Seq<char>>::empty()
                =~~= out@.map_values(|x: String| x@));
        }
    }
    out
}


/// A parsed answer, as markdown text.
#[derive(Clone, Debug, PartialEq)]
pub struct ParsedAnswer {
    pub markdown: String,
}

/// A parsed numbered question with its answer.
#[derive(Clone, Debug, PartialEq)]
pub struct ParsedQuestion {
    pub question_number: i32,
    pub question: String,
    pub answer: ParsedAnswer,
}

/// A parsed topic with its questions.
#[derive(Clone, Debug, PartialEq)]
pub struct ParsedTopic {
    pub name: String,
    pub questions: Vec<ParsedQuestion>,
}

/// Spec-level parsed question.
pub struct ParsedQuestionV {
    pub question_number: int,
    pub question: Seq<char>,
    pub answer: Seq<char>,
}

/// Spec-level parsed topic.
pub struct ParsedTopicV {
    pub name: Seq<char>,
    pub questions: Seq<ParsedQuestionV>,
}

impl View for ParsedQuestion {
    type V = ParsedQuestionV;

    open spec fn view(&self) -> ParsedQuestionV {
        ParsedQuestionV {
            question_number: self.question_number as int,
            question: self.question@,
            answer: self.answer.markdown@,
        }
    }
}

impl View for ParsedTopic {
    type V = ParsedTopicV;

    open spec fn view(&self) -> ParsedTopicV {
        ParsedTopicV {
            name: self.name@,
            questions: self.questions@.map_values(|q: ParsedQuestion| q@),
        }
    }
}

/// Spec view of an optional parsed question.
pub open spec fn opt_qv(q: Option<ParsedQuestion>) -> Option<ParsedQuestionV> {
    match q {
        Some(q) => Some(q@),
        None => None,
    }
}

/// The question under construction, completed with the accumulated
/// answer text, trimmed.
pub open spec fn fin_q(q: Option<ParsedQuestionV>, ans: Seq<char>) -> Option<ParsedQuestionV> {
    match q {
        Some(q) => Some(ParsedQuestionV { answer: spec_trim(ans), ..q }),
        None => None,
    }
}

/// A question list with a completed question appended, if one was
/// under construction.
pub open spec fn qs_plus(
    qs: Seq<ParsedQuestionV>,
    q: Option<ParsedQuestionV>,
) -> Seq<ParsedQuestionV> {
    match q {
        Some(q) => qs.push(q),
        None => qs,
    }
}

/// The parser's state between lines: finished topics, the topic and
/// question under construction, the answer text gathered so far, and
/// whether the scan is inside an answer section.
pub struct MdStV {
    pub topics: Seq<ParsedTopicV>,
    pub cur_name: Option<Seq<char>>,
    pub cur_qs: Seq<ParsedQuestionV>,
    pub cur_q: Option<ParsedQuestionV>,
    pub answer: Seq<char>,
    pub in_answer: bool,
}

/// The parser's starting state.
pub open spec fn md_init() -> MdStV {
    MdStV {
        topics: Seq::empty(),
        cur_name: None,
        cur_qs: Seq::empty(),
        cur_q: None,
        answer: Seq::empty(),
        in_answer: false,
    }
}

/// One line's effect on the parser state.
pub open spec fn md_step(st: MdStV, line: Seq<char>) -> MdStV {
    let t = spec_trim(line);
    if is_prefix(t, "## "@) && !is_prefix(t, "### "@) {
        MdStV {
            topics: match st.cur_name {
                Some(nm) => st.topics.push(
                    ParsedTopicV { name: nm, questions: qs_plus(st.cur_qs, fin_q(st.cur_q, st.answer)) },
                ),
                None => st.topics,
            },
            cur_name: Some(spec_trim(t.skip(3))),
            cur_qs: Seq::empty(),
            cur_q: if st.cur_name is Some {
                None
            } else {
                st.cur_q
            },
            answer: Seq::empty(),
            in_answer: false,
        }
    } else if is_prefix(t, "### "@) {
        let qt = spec_trim(t.skip(4));
        match q_number(qt) {
            Some(n) => MdStV {
                topics: st.topics,
                cur_name: st.cur_name,
                cur_qs: if st.cur_name is Some {
                    qs_plus(st.cur_qs, fin_q(st.cur_q, st.answer))
                } else {
                    st.cur_qs
                },
                cur_q: Some(
                    ParsedQuestionV {
                        question_number: n,
                        question: strip_q_prefix(qt),
                        answer: Seq::empty(),
                    },
                ),
                answer: Seq::empty(),
                in_answer: false,
            },
            None => st,
        }
    } else if is_prefix(t, "**Answer:**"@) {
        MdStV { answer: Seq::empty(), in_answer: true, ..st }
    } else if st.in_answer && st.cur_q is Some {
        if t == "---"@ {
            st
        } else {
            MdStV { answer: st.answer + t + seq!['\n'], ..st }
        }
    } else {
        st
    }
}

/// The parser state after a run of lines.
pub open spec fn run_md(st: MdStV, lines: Seq<Seq<char>>) -> MdStV
    decreases lines.len(),
{
    if lines.len() == 0 {
        st
    } else {
        run_md(md_step(st, lines.first()), lines.drop_first())
    }
}

/// Parsing one more line.
pub proof fn lemma_md_snoc(st: MdStV, lines: Seq<Seq<char>>, line: Seq<char>)
    ensures
        run_md(st, lines.push(line)) == md_step(run_md(st, lines), line),
    decreases lines.len(),
{
    if lines.len() == 0 {
        reveal_with_fuel(run_md, 3);
        assert(lines.push(line).first() == line);
        assert(lines.push(line).drop_first() =~= Seq::<Seq<char>>::empty());
    } else {
        assert(lines.push(line).first() == lines.first());
        assert(lines.push(line).drop_first() =~= lines.drop_first().push(line));
        lemma_md_snoc(md_step(st, lines.first()), lines.drop_first(), line);
    }
}

/// After the last line, the topic under construction is completed.
pub open spec fn md_finish(st: MdStV) -> Seq<ParsedTopicV> {
    match st.cur_name {
        Some(nm) => st.topics.push(
            ParsedTopicV { name: nm, questions: qs_plus(st.cur_qs, fin_q(st.cur_q, st.answer)) },
        ),
        None => st.topics,
    }
}

/// What a whole document parses to.
pub open spec fn parse_markdown(content: Seq<char>) -> Seq<ParsedTopicV> {
    md_finish(run_md(md_init(), split_lines(content)))
}

/// Completes the question under construction with the accumulated
/// answer text.
pub fn finalize_question(question: Option<ParsedQuestion>, answer_content: &str) -> (r: Option<
    ParsedQuestion,
>)
    ensures
        opt_qv(r) == fin_q(opt_qv(question), answer_content@),
{
    match question {
        Some(mut q) => {
            q.answer = ParsedAnswer { markdown: trim_str(answer_content) };
            Some(q)
        }
        None => None,
    }
}

/// Parses a markdown document of `## Topic` headings, numbered
/// `### n. Question` headings and `**Answer:**` sections into topics
/// with their questions. Unnumbered `###` headings are ignored; `---`
/// separators inside an answer are skipped; the answer text is the
/// gathered lines, trimmed.
pub fn parse_markdown_file(content: &str) -> (r: Result<Vec<ParsedTopic>, String>)
    ensures
        match r {
            Ok(topics) => topics@.map_values(|t: ParsedTopic| t@) =~~= parse_markdown(content@),
            Err(_) => false,
        },
{
    let lines = split_lines_of(content);
    let ghost lv = lines@.map_values(|x: String| x@);

    let mut topics: Vec<ParsedTopic> = Vec::new();
    let mut cur_name: Option<String> = None;
    let mut cur_qs: Vec<ParsedQuestion> = Vec::new();
    let mut cur_q: Option<ParsedQuestion> = None;
    let mut answer: String = String::new();
    let mut in_answer: bool = false;

    let mut i: usize = 0;
    proof {
        assert(lv.take(0) =~= Seq::<Seq<char>>::empty());
        assert(st_matches(
            run_md(md_init(), lv.take(0)),
            topics@,
            cur_name,
            cur_qs@,
            cur_q,
            answer@,
            in_answer,
        ));
    }
    while i < lines.len()
        invariant
            lv == lines@.map_values(|x: String| x@),
            i <= lines@.len(),
            st_matches(
                run_md(md_init(), lv.take(i as int)),
                topics@,
                cur_name,
                cur_qs@,
                cur_q,
                answer@,
                in_answer,
            ),
        decreases lines@.len() - i,
    {
        proof {
            assert(lv.take(i as int + 1) =~= lv.take(i as int).push(lv[i as int]));
            lemma_md_snoc(md_init(), lv.take(i as int), lv[i as int]);
        }
        let ghost pre = run_md(md_init(), lv.take(i as int));
        let line = trim_str(lines[i].as_str());
        proof {
            assert(lines[i as int]@ == lv[i as int]);
        }
        if has_prefix(line.as_str(), "## ") && !has_prefix(line.as_str(), "### ") {
            let prev_name = cur_name;
            match prev_name {
                Some(nm) => {
                    let taken = cur_q;
                    cur_q = None;
                    let mut qs: Vec<ParsedQuestion> = Vec::new();
                    core::mem::swap(&mut qs, &mut cur_qs);
                    match finalize_question(taken, answer.as_str()) {
                        Some(q) => {
                            qs.push(q);
                            proof {
                                assert(qs@ =~= qs@.drop_last().push(qs@.last()));
                                crate::collect::lemma_map_push(
                                    qs@.drop_last(),
                                    |x: ParsedQuestion| x@,
                                    qs@.last(),
                                );
                            }
                        }
                        None => {}
                    }
                    proof {
                        assert(qs@.map_values(|x: ParsedQuestion| x@) =~~= qs_plus(
                            pre.cur_qs,
                            fin_q(pre.cur_q, pre.answer),
                        ));
                    }
                    let t = ParsedTopic { name: nm, questions: qs };
                    topics.push(t);
                    proof {
                        assert(topics@ =~= topics@.drop_last().push(topics@.last()));
                        crate::collect::lemma_map_push(
                            topics@.drop_last(),
                            |x: ParsedTopic| x@,
                            topics@.last(),
                        );
                        assert(topics@.last()@.questions =~~= qs_plus(
                            pre.cur_qs,
                            fin_q(pre.cur_q, pre.answer),
                        ));
                    }
                }
                None => {}
            }
            let nlen = line.as_str().unicode_len();
            proof {
                assert(is_prefix(line@, "## "@));
                reveal_strlit("## ");
                assert(("## "@).len() == 3);
            }
            let tail = line.as_str().substring_char(3, nlen);
            cur_name = Some(trim_str(tail));
            cur_qs = Vec::new();
            answer = String::new();
            in_answer = false;
            proof {
                assert(tail@ =~= line@.skip(3));
            }
        } else if has_prefix(line.as_str(), "### ") {
            let nlen = line.as_str().unicode_len();
            proof {
                assert(is_prefix(line@, "### "@));
                reveal_strlit("### ");
                assert(("### "@).len() == 4);
            }
            let tail = line.as_str().substring_char(4, nlen);
            let qt = trim_str(tail);
            proof {
                assert(tail@ =~= line@.skip(4));
            }
            match extract_question_number(qt.as_str()) {
                Some(n) => {
                    if cur_name.is_some() {
                        let taken = cur_q;
                        cur_q = None;
                        match finalize_question(taken, answer.as_str()) {
                            Some(q) => {
                                cur_qs.push(q);
                                proof {
                                    assert(cur_qs@ =~= cur_qs@.drop_last().push(cur_qs@.last()));
                                    crate::collect::lemma_map_push(
                                        cur_qs@.drop_last(),
                                        |x: ParsedQuestion| x@,
                                        cur_qs@.last(),
                                    );
                                }
                            }
                            None => {}
                        }
                        proof {
                            assert(cur_qs@.map_values(|x: ParsedQuestion| x@) =~~= qs_plus(
                                pre.cur_qs,
                                fin_q(pre.cur_q, pre.answer),
                            ));
                        }
                    }
                    let clean = remove_question_number_prefix(qt.as_str());
                    cur_q = Some(
                        ParsedQuestion {
                            question_number: n,
                            question: clean,
                            answer: ParsedAnswer { markdown: String::new() },
                        },
                    );
                    answer = String::new();
                    in_answer = false;
                }
                None => {}
            }
        } else if has_prefix(line.as_str(), "**Answer:**") {
            in_answer = true;
            answer = String::new();
        } else if in_answer && cur_q.is_some() {
            if !crate::str_eq(&line, "---") {
                let ghost a0 = answer@;
                answer.append(line.as_str());
                crate::push_char(&mut answer, '\n');
                proof {
                    assert(answer@ =~= a0 + line@ + seq!['\n']);
                }
            }
        }
        i = i + 1;
        proof {
            let post = md_step(pre, lv[i - 1]);
            assert(post.topics =~~= topics@.map_values(|t: ParsedTopic| t@));
            assert(post.cur_name == (match cur_name {
                Some(s) => Some(s@),
                None => None::<Seq<char>>,
            }));
            assert(post.cur_qs =~~= cur_qs@.map_values(|q: ParsedQuestion| q@));
            assert(post.cur_q == opt_qv(cur_q));
            assert(post.answer == answer@);
            assert(post.in_answer == in_answer);
        }
    }
    proof {
        assert(lv.take(lv.len() as int) =~= lv);
    }
    let final_name = cur_name;
    match final_name {
        Some(nm) => {
            let taken = cur_q;
            match finalize_question(taken, answer.as_str()) {
                Some(q) => {
                    cur_qs.push(q);
                    proof {
                        assert(cur_qs@ =~= cur_qs@.drop_last().push(cur_qs@.last()));
                        crate::collect::lemma_map_push(
                            cur_qs@.drop_last(),
                            |x: ParsedQuestion| x@,
                            cur_qs@.last(),
                        );
                    }
                }
                None => {}
            }
            proof {
                let last_st = run_md(md_init(), lv);
                assert(cur_qs@.map_values(|x: ParsedQuestion| x@) =~~= qs_plus(
                    last_st.cur_qs,
                    fin_q(last_st.cur_q, last_st.answer),
                ));
            }
            let t = ParsedTopic { name: nm, questions: cur_qs };
            topics.push(t);
            proof {
                assert(topics@ =~= topics@.drop_last().push(topics@.last()));
                crate::collect::lemma_map_push(
                    topics@.drop_last(),
                    |x: ParsedTopic| x@,
                    topics@.last(),
                );
                assert(topics@.last()@.questions =~~= qs_plus(
                    run_md(md_init(), lv).cur_qs,
                    fin_q(run_md(md_init(), lv).cur_q, run_md(md_init(), lv).answer),
                ));
            }
        }
        None => {}
    }
    proof {
        assert(topics@.map_values(|t: ParsedTopic| t@) =~~= md_finish(run_md(md_init(), lv)));
    }
    Ok(topics)
}

/// The executable parser state agrees with the specification state.
pub open spec fn st_matches(
    st: MdStV,
    topics: Seq<ParsedTopic>,
    cur_name: Option<String>,
    cur_qs: Seq<ParsedQuestion>,
    cur_q: Option<ParsedQuestion>,
    answer: Seq<char>,
    in_answer: bool,
) -> bool {
    &&& st.topics =~~= topics.map_values(|t: ParsedTopic| t@)
    &&& st.cur_name == (match cur_name {
        Some(s) => Some(s@),
        None => None::<Seq<char>>,
    })
    &&& st.cur_qs =~~= cur_qs.map_values(|q: ParsedQuestion| q@)
    &&& st.cur_q == opt_qv(cur_q)
    &&& st.answer == answer
    &&& st.in_answer == in_answer
}

} // verus!
