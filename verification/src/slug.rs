//! URL slugs for imported topic names: lower-cased, with every run of
//! non-alphanumeric characters collapsed into a single separator and
//! none left at either end.

use vstd::prelude::*;

verus! {

use vstd::string::StrSliceExecFns;

/// The Unicode lower-casing of a character sequence, as
/// `str::to_lowercase` computes it: a function of the characters
/// alone.
pub uninterp spec fn lower_of(s: Seq<char>) -> Seq<char>;

/// Whether a character is Unicode-alphanumeric, as
/// `char::is_alphanumeric` decides it: a function of the character
/// alone.
pub uninterp spec fn alphanumeric(c: char) -> bool;

/// Relies on `str::to_lowercase`: Unicode lower-casing, deterministic
/// in the input string.
#[verifier::external_body]
fn to_lowercase(s: &str) -> (r: String)
    ensures
        r@ == lower_of(s@),
{
    s.to_lowercase()
}

/// Relies on `char::is_alphanumeric`: a pure predicate on the
/// character's Unicode category.
#[verifier::external_body]
fn is_alphanumeric_char(c: char) -> (r: bool)
    ensures
        r == alphanumeric(c),
{
    c.is_alphanumeric()
}

/// Slugification of an already lower-cased sequence: alphanumeric
/// characters are kept; each maximal run of other characters becomes
/// one `'-'`, except at the start and end, where it disappears.
///
/// `started` records whether anything has been emitted yet and
/// `pending` whether a separator is owed before the next kept
/// character.
pub open spec fn collapse(m: Seq<char>, started: bool, pending: bool) -> Seq<char>
    decreases m.len(),
{
    if m.len() == 0 {
        Seq::empty()
    } else if !alphanumeric(m.first()) {
        collapse(m.drop_first(), started, started)
    } else if pending {
        seq!['-', m.first()] + collapse(m.drop_first(), true, false)
    } else {
        seq![m.first()] + collapse(m.drop_first(), true, false)
    }
}

/// The slug of a name.
pub open spec fn slug_of(s: Seq<char>) -> Seq<char> {
    collapse(lower_of(s), false, false)
}

/// Derives a URL slug from a topic name: lower-cases it, keeps the
/// alphanumeric characters, and joins the pieces between them with
/// single dashes.
pub fn generate_slug(name: &str) -> (r: String)
    ensures
        r@ == slug_of(name@),
{
    let lowered = to_lowercase(name);
    let n = lowered.as_str().unicode_len();
    let mut out = String::new();
    let mut started = false;
    let mut pending = false;
    let mut i: usize = 0;
    proof {
        assert(lowered@.skip(0) =~= lowered@);
    }
    while i < n
        invariant
            n == lowered@.len(),
            i <= n,
            slug_of(name@) == out@ + collapse(lowered@.skip(i as int), started, pending),
            lowered@ == lower_of(name@),
        decreases n - i,
    {
        let c = lowered.as_str().get_char(i);
        proof {
            assert(lowered@.skip(i as int).first() == c);
            assert(lowered@.skip(i as int).drop_first() =~= lowered@.skip(i as int + 1));
        }
        if is_alphanumeric_char(c) {
            let ghost o0 = out@;
            if pending {
                crate::push_char(&mut out, '-');
            }
            crate::push_char(&mut out, c);
            proof {
                let head: Seq<char> = if pending {
                    seq!['-', c]
                } else {
                    seq![c]
                };
                assert(out@ =~= o0 + head);
                assert(o0 + (head + collapse(lowered@.skip(i as int + 1), true, false)) =~= out@
                    + collapse(lowered@.skip(i as int + 1), true, false));
            }
            started = true;
            pending = false;
        } else {
            pending = started;
        }
        i = i + 1;
    }
    proof {
        assert(lowered@.skip(n as int) =~= Seq::<char>::empty());
        assert(out@ + Seq::<char>::empty() =~= out@);
    }
    out
}

} // verus!
