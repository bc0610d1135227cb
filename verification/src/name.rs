//! Display names that are safe inside a quoted header value.
//!
//! A client-declared file name is untrusted. Before it is echoed into a
//! response header it is reduced to letters, underscores and single periods.

use vstd::prelude::*;
use crate::text::{chars_of, string_of};

verus! {

/// Whether Unicode classes `c` as Alphabetic, as `char::is_alphabetic` reports
/// it.
pub uninterp spec fn unicode_alphabetic(c: char) -> bool;

/// Whether Unicode classes `c` as Alphabetic.
///
/// Trusted: this is `char::is_alphabetic`; the contract only gives its answer
/// the name `unicode_alphabetic`.
#[verifier::external_body]
fn is_unicode_alphabetic(c: char) -> (r: bool)
    ensures
        r == unicode_alphabetic(c),
{
    c.is_alphabetic()
}

/// Among the ASCII characters the letters `a` to `z` and `A` to `Z`; beyond
/// them, every character that Unicode calls alphabetic.
pub open spec fn is_letter(c: char) -> bool {
    if c as int <= 127 {
        ('a' <= c && c <= 'z') || ('A' <= c && c <= 'Z')
    } else {
        unicode_alphabetic(c)
    }
}

/// The output after one more input character `c`, given the output `out` so far.
///
/// An underscore or letter is kept as it is. A period is dropped while the
/// output is empty, and kept after that unless it follows another period.
/// Everything else, such a second period included, becomes one underscore
/// unless the output already ends in one.
pub open spec fn emit(out: Seq<char>, c: char) -> Seq<char> {
    if c == '_' || is_letter(c) {
        out.push(c)
    } else if c == '.' && out.len() == 0 {
        out
    } else if c == '.' && out.last() != '.' {
        out.push('.')
    } else if out.len() == 0 || out.last() != '_' {
        out.push('_')
    } else {
        out
    }
}

/// The output after every character of `s` has been scanned, left to right.
pub open spec fn scanned(s: Seq<char>) -> Seq<char>
    decreases s.len(),
{
    if s.len() == 0 {
        Seq::empty()
    } else {
        emit(scanned(s.drop_last()), s.last())
    }
}

/// The name used when the scan leaves nothing.
pub open spec fn fallback_name() -> Seq<char> {
    seq!['u', 'n', 'n', 'a', 'm', 'e', 'd']
}

/// The sanitized form of `s`.
pub open spec fn sanitized(s: Seq<char>) -> Seq<char> {
    if scanned(s).len() == 0 {
        fallback_name()
    } else {
        scanned(s)
    }
}

/// Made of letters, underscores and periods only, where no period leads and no
/// period follows another.
pub open spec fn is_tidy(t: Seq<char>) -> bool {
    &&& forall|i: int| 0 <= i < t.len() ==> is_letter(#[trigger] t[i]) || t[i] == '_' || t[i] == '.'
    &&& t.len() > 0 ==> t[0] != '.'
    &&& forall|i: int| 0 < i < t.len() ==> !(#[trigger] t[i] == '.' && t[i - 1] == '.')
}

/// A tidy name that is not empty: what a header may carry.
pub open spec fn is_safe_name(t: Seq<char>) -> bool {
    t.len() > 0 && is_tidy(t)
}

/// One step of the scan keeps a tidy output tidy.
pub proof fn lemma_emit_tidy(out: Seq<char>, c: char)
    requires
        is_tidy(out),
    ensures
        is_tidy(emit(out, c)),
{
    let r = emit(out, c);
    if r != out {
        let d = r.last();
        assert(r == out.push(d));
        assert forall|i: int| 0 <= i < r.len() implies is_letter(#[trigger] r[i]) || r[i] == '_'
            || r[i] == '.' by {
            if i < out.len() {
                assert(r[i] == out[i]);
            }
        }
        assert forall|i: int| 0 < i < r.len() implies !(#[trigger] r[i] == '.' && r[i - 1] == '.') by {
            if i < out.len() {
                assert(r[i] == out[i]);
                assert(r[i - 1] == out[i - 1]);
            } else {
                assert(r[i - 1] == out.last());
            }
        }
    }
}

/// The scan of any input is tidy.
pub proof fn lemma_scanned_tidy(s: Seq<char>)
    ensures
        is_tidy(scanned(s)),
    decreases s.len(),
{
    if s.len() > 0 {
        lemma_scanned_tidy(s.drop_last());
        lemma_emit_tidy(scanned(s.drop_last()), s.last());
    }
}

/// The scan leaves a tidy input as it is.
pub proof fn lemma_scanned_fixes_tidy(t: Seq<char>)
    requires
        is_tidy(t),
    ensures
        scanned(t) == t,
    decreases t.len(),
{
    if t.len() > 0 {
        let head = t.drop_last();
        assert(is_tidy(head)) by {
            assert forall|i: int| 0 <= i < head.len() implies is_letter(#[trigger] head[i])
                || head[i] == '_' || head[i] == '.' by {
                assert(head[i] == t[i]);
            }
            assert forall|i: int| 0 < i < head.len() implies !(#[trigger] head[i] == '.' && head[i
                - 1] == '.') by {
                assert(head[i] == t[i]);
                assert(head[i - 1] == t[i - 1]);
            }
            if head.len() > 0 {
                assert(head[0] == t[0]);
            }
        }
        lemma_scanned_fixes_tidy(head);
        let c = t.last();
        if c == '.' {
            assert(t[t.len() - 1] == '.');
            assert(t.len() > 1);
            assert(head.last() == t[t.len() - 2]);
        }
        assert(emit(head, c) == head.push(c));
        assert(head.push(c) =~= t);
    }
}

/// Every sanitized name is safe: it is never empty, holds only letters,
/// underscores and periods, and no period leads it or follows another period.
pub proof fn lemma_sanitized_safe(s: Seq<char>)
    ensures
        is_safe_name(sanitized(s)),
{
    lemma_scanned_tidy(s);
}

/// Sanitizing is idempotent: a sanitized name sanitizes to itself.
pub proof fn lemma_sanitized_idempotent(s: Seq<char>)
    ensures
        sanitized(sanitized(s)) == sanitized(s),
{
    lemma_sanitized_safe(s);
    lemma_scanned_fixes_tidy(sanitized(s));
}

/// Sanitizing leaves every safe name as it is.
pub proof fn lemma_sanitized_keeps_safe(t: Seq<char>)
    requires
        is_safe_name(t),
    ensures
        sanitized(t) == t,
{
    lemma_scanned_fixes_tidy(t);
}

/// A safe name holds no ASCII character but letters, the underscore and the
/// period: no quote, no backslash, no slash, no control character.
pub proof fn lemma_safe_name_ascii(t: Seq<char>, i: int)
    requires
        is_safe_name(t),
        0 <= i < t.len(),
        t[i] as int <= 127,
    ensures
        ('a' <= t[i] && t[i] <= 'z') || ('A' <= t[i] && t[i] <= 'Z') || t[i] == '_' || t[i] == '.',
        t[i] != '"' && t[i] != '\\' && t[i] != '/' && t[i] != '\r' && t[i] != '\n',
        t[i] as int >= 32,
{
}

/// Whether `c` is a letter.
pub fn is_letter_char(c: char) -> (r: bool)
    ensures
        r == is_letter(c),
{
    let code: u32 = c as u32;
    if code <= 127 {
        ('a' <= c && c <= 'z') || ('A' <= c && c <= 'Z')
    } else {
        is_unicode_alphabetic(c)
    }
}

/// Reduces an untrusted name to one that is safe inside a quoted header value.
///
/// Never fails; an input that is empty or made of periods only gives
/// `unnamed`.
pub fn sanitize_name(s: &str) -> (r: String)
    ensures
        r@ == sanitized(s@),
        is_safe_name(r@),
{
    let input = chars_of(s);
    let mut out: Vec<char> = Vec::new();
    let mut i: usize = 0;
    while i < input.len()
        invariant
            i <= input.len(),
            out@ == scanned(input@.take(i as int)),
        decreases input.len() - i,
    {
        let c = input[i];
        proof {
            assert(input@.take(i + 1).drop_last() =~= input@.take(i as int));
            assert(input@.take(i + 1).last() == c);
        }
        let n = out.len();
        if c == '_' || is_letter_char(c) {
            out.push(c);
        } else if c == '.' {
            if n > 0 {
                if out[n - 1] != '.' {
                    out.push('.');
                } else {
                    out.push('_');
                }
            }
        } else if n == 0 || out[n - 1] != '_' {
            out.push('_');
        }
        i += 1;
    }
    proof {
        assert(input@.take(input@.len() as int) =~= input@);
        lemma_sanitized_safe(s@);
    }
    if out.len() == 0 {
        let r = String::from_str("unnamed");
        proof {
            reveal_strlit("unnamed");
            assert(r@ =~= fallback_name());
        }
        r
    } else {
        string_of(&out)
    }
}

} // verus!
