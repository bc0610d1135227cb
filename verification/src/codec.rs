//! The sidecar record kept beside each stored file, and its text form.
//!
//! A record is written as one compact JSON object with the two string members
//! `original_name` and `mime_type`, in that order. That form is read back by
//! the code in this file; any other JSON document is handed to `serde_json`,
//! so that spacing, member order and unknown members do not matter.

use vstd::prelude::*;
use vstd::utf8::{decode_utf8, encode_utf8, valid_utf8};
use crate::text::{chars_of, push_char, string_of};

verus! {

/// What a client declared about an uploaded file.
#[derive(Debug, Clone, PartialEq, Eq)]
pub struct FileMetadata {
    pub original_name: String,
    pub mime_type: String,
}

/// The mathematical value of a `FileMetadata`.
pub struct MetadataView {
    pub original_name: Seq<char>,
    pub mime_type: Seq<char>,
}

impl View for FileMetadata {
    type V = MetadataView;

    open spec fn view(&self) -> MetadataView {
        MetadataView { original_name: self.original_name@, mime_type: self.mime_type@ }
    }
}

/// Why stored bytes are not a record.
#[derive(Debug, Clone, Copy, PartialEq, Eq)]
pub enum DecodeError {
    /// The bytes are not UTF-8.
    NotText,
    /// The text is no JSON object with the two string members of a record.
    Malformed,
}

/// The lowercase hexadecimal digit for `n`, where `0 <= n < 16`.
pub open spec fn hex_digit(n: int) -> char {
    if n < 10 {
        (48 + n) as char
    } else {
        (87 + n) as char
    }
}

/// The value of a hexadecimal digit of either case.
pub open spec fn hex_value(c: char) -> Option<int> {
    if '0' <= c && c <= '9' {
        Some(c as int - 48)
    } else if 'a' <= c && c <= 'f' {
        Some(c as int - 87)
    } else if 'A' <= c && c <= 'F' {
        Some(c as int - 55)
    } else {
        None
    }
}

/// Whether `c` is one of the control characters below the space.
pub open spec fn is_control(c: char) -> bool {
    c as int <= 31
}

/// Whether `code` is a Unicode scalar value, so that a `char` can hold it.
pub open spec fn is_scalar_code(code: int) -> bool {
    (0 <= code && code <= 0xD7FF) || (0xE000 <= code && code <= 0x10FFFF)
}

/// How one character stands inside a quoted string: the quote, the backslash
/// and the control characters are escaped, everything else stands for itself.
pub open spec fn escaped(c: char) -> Seq<char> {
    if c == '"' {
        seq!['\\', '"']
    } else if c == '\\' {
        seq!['\\', '\\']
    } else if c == '\u{8}' {
        seq!['\\', 'b']
    } else if c == '\t' {
        seq!['\\', 't']
    } else if c == '\n' {
        seq!['\\', 'n']
    } else if c == '\u{c}' {
        seq!['\\', 'f']
    } else if c == '\r' {
        seq!['\\', 'r']
    } else if is_control(c) {
        seq!['\\', 'u', '0', '0', hex_digit(c as int / 16), hex_digit(c as int % 16)]
    } else {
        seq![c]
    }
}

/// The escaped forms of the characters of `s`, one after another.
pub open spec fn escaped_all(s: Seq<char>) -> Seq<char>
    decreases s.len(),
{
    if s.len() == 0 {
        Seq::empty()
    } else {
        escaped_all(s.drop_last()) + escaped(s.last())
    }
}

/// The value of the four hexadecimal digits at positions 2 to 5 of `t`.
pub open spec fn four_hex(t: Seq<char>) -> Option<int> {
    if t.len() < 6 {
        None
    } else {
        match (hex_value(t[2]), hex_value(t[3]), hex_value(t[4]), hex_value(t[5])) {
            (Some(a), Some(b), Some(c), Some(d)) => Some(((a * 16 + b) * 16 + c) * 16 + d),
            _ => None,
        }
    }
}

/// The character that the text `t` starts with inside a quoted string, and how
/// many characters of `t` spell it. `None` where `t` starts with a raw control
/// character, an unknown or cut-off escape, or an escaped surrogate.
pub open spec fn unescape_first(t: Seq<char>) -> Option<(char, int)> {
    if t.len() == 0 {
        None
    } else if t[0] == '\\' {
        if t.len() < 2 {
            None
        } else if t[1] == '"' || t[1] == '\\' || t[1] == '/' {
            Some((t[1], 2))
        } else if t[1] == 'b' {
            Some(('\u{8}', 2))
        } else if t[1] == 't' {
            Some(('\t', 2))
        } else if t[1] == 'n' {
            Some(('\n', 2))
        } else if t[1] == 'f' {
            Some(('\u{c}', 2))
        } else if t[1] == 'r' {
            Some(('\r', 2))
        } else if t[1] == 'u' {
            match four_hex(t) {
                Some(code) => if is_scalar_code(code) {
                    Some((code as char, 6))
                } else {
                    None
                },
                None => None,
            }
        } else {
            None
        }
    } else if is_control(t[0]) {
        None
    } else {
        Some((t[0], 1))
    }
}

/// Reads the rest of a quoted string from `t`, which starts just behind the
/// opening quote, onto `acc`: the string's content and the text behind its
/// closing quote.
pub open spec fn scan_string(t: Seq<char>, acc: Seq<char>) -> Option<(Seq<char>, Seq<char>)>
    decreases t.len(),
{
    if t.len() == 0 {
        None
    } else if t[0] == '"' {
        Some((acc, t.skip(1)))
    } else {
        match unescape_first(t) {
            Some((c, k)) => if 0 < k <= t.len() {
                scan_string(t.skip(k), acc.push(c))
            } else {
                None
            },
            None => None,
        }
    }
}

/// The text `t` without its leading `p`, where it starts with `p`.
pub open spec fn strip_prefix(t: Seq<char>, p: Seq<char>) -> Option<Seq<char>> {
    if p.is_prefix_of(t) {
        Some(t.skip(p.len() as int))
    } else {
        None
    }
}

/// What stands before the name.
pub open spec fn opening() -> Seq<char> {
    "{\"original_name\":\""@
}

/// What stands between the name's closing quote and the content type.
pub open spec fn middle() -> Seq<char> {
    ",\"mime_type\":\""@
}

/// What stands behind the content type's closing quote.
pub open spec fn closing() -> Seq<char> {
    "}"@
}

/// The text form of a record.
pub open spec fn encoded_text(m: MetadataView) -> Seq<char> {
    opening() + escaped_all(m.original_name) + seq!['"'] + middle() + escaped_all(m.mime_type)
        + seq!['"'] + closing()
}

/// The record that the text `t` spells, if it spells one.
pub open spec fn decoded_text(t: Seq<char>) -> Option<MetadataView> {
    match strip_prefix(t, opening()) {
        Some(t1) => match scan_string(t1, Seq::empty()) {
            Some((name, t2)) => match strip_prefix(t2, middle()) {
                Some(t3) => match scan_string(t3, Seq::empty()) {
                    Some((mime, t4)) => if t4 == closing() {
                        Some(MetadataView { original_name: name, mime_type: mime })
                    } else {
                        None
                    },
                    None => None,
                },
                None => None,
            },
            None => None,
        },
        None => None,
    }
}

/// The stored bytes of a record: its text form in UTF-8.
pub open spec fn encoded(m: MetadataView) -> Seq<u8> {
    encode_utf8(encoded_text(m))
}

/// The name of the member that holds the declared file name.
pub open spec fn name_key() -> Seq<char> {
    "original_name"@
}

/// The name of the member that holds the declared content type.
pub open spec fn mime_key() -> Seq<char> {
    "mime_type"@
}

/// The string that `serde_json` finds under the member `key` of the JSON
/// document `bytes`. `None` where the bytes are not exactly one JSON document,
/// where the document is no object or has no such member, and where the member
/// is not a string.
pub uninterp spec fn json_string_member(bytes: Seq<u8>, key: Seq<char>) -> Option<Seq<char>>;

/// The record that `serde_json` finds in the bytes `b`, if it finds both
/// members.
pub open spec fn decoded_json(b: Seq<u8>) -> Option<MetadataView> {
    match (json_string_member(b, name_key()), json_string_member(b, mime_key())) {
        (Some(name), Some(mime)) => Some(MetadataView { original_name: name, mime_type: mime }),
        _ => None,
    }
}

/// The record that the bytes `b` hold, or why they hold none: what the compact
/// form spells where the bytes are in it, and what `serde_json` finds in them
/// otherwise.
pub open spec fn decoded(b: Seq<u8>) -> Result<MetadataView, DecodeError> {
    if !valid_utf8(b) {
        Err(DecodeError::NotText)
    } else {
        match decoded_text(decode_utf8(b)) {
            Some(m) => Ok(m),
            None => match decoded_json(b) {
                Some(m) => Ok(m),
                None => Err(DecodeError::Malformed),
            },
        }
    }
}

/// Reading the escaped form of `c` gives `c` back and goes on behind it.
pub proof fn lemma_scan_escaped(c: char, tail: Seq<char>, acc: Seq<char>)
    ensures
        scan_string(escaped(c) + tail, acc) == scan_string(tail, acc.push(c)),
{
    let e = escaped(c);
    let t = e + tail;
    assert(t.skip(e.len() as int) =~= tail);
    assert(t[0] == e[0]);
    if e.len() >= 2 {
        assert(t[1] == e[1]);
    }
    if e.len() == 6 {
        let hi = c as int / 16;
        let lo = c as int % 16;
        assert(t[2] == '0' && t[3] == '0');
        assert(t[4] == hex_digit(hi));
        assert(t[5] == hex_digit(lo));
        assert(0 <= hi < 2 && 0 <= lo < 16);
        assert(hex_value(hex_digit(hi)) == Some(hi));
        assert(hex_value(hex_digit(lo)) == Some(lo));
        assert(four_hex(t) == Some(c as int));
        assert((c as int) as char == c);
    }
    assert(unescape_first(t) == Some((c, e.len() as int)));
}

/// Reading the escaped form of `s` gives `s` back and goes on behind it.
pub proof fn lemma_scan_escaped_all(s: Seq<char>, tail: Seq<char>, acc: Seq<char>)
    ensures
        scan_string(escaped_all(s) + tail, acc) == scan_string(tail, acc + s),
    decreases s.len(),
{
    if s.len() == 0 {
        assert(escaped_all(s) + tail =~= tail);
        assert(acc + s =~= acc);
    } else {
        let head = s.drop_last();
        let c = s.last();
        assert(escaped_all(s) + tail =~= escaped_all(head) + (escaped(c) + tail));
        lemma_scan_escaped_all(head, escaped(c) + tail, acc);
        lemma_scan_escaped(c, tail, acc + head);
        assert((acc + head).push(c) =~= acc + s);
    }
}

/// A quoted string reads back as what was escaped into it.
pub proof fn lemma_scan_quoted(s: Seq<char>, rest: Seq<char>)
    ensures
        scan_string(escaped_all(s) + seq!['"'] + rest, Seq::empty()) == Some((s, rest)),
{
    let tail = seq!['"'] + rest;
    assert(escaped_all(s) + seq!['"'] + rest =~= escaped_all(s) + tail);
    lemma_scan_escaped_all(s, tail, Seq::empty());
    assert(Seq::<char>::empty() + s =~= s);
    assert(tail[0] == '"');
    assert(tail.skip(1) =~= rest);
}

/// Text that was put behind a prefix is what is left when the prefix is taken
/// off again.
pub proof fn lemma_strip_prefix(p: Seq<char>, rest: Seq<char>)
    ensures
        strip_prefix(p + rest, p) == Some(rest),
{
    assert((p + rest).subrange(0, p.len() as int) =~= p);
    assert((p + rest).skip(p.len() as int) =~= rest);
}

/// The text form of a record reads back as that record.
pub proof fn lemma_text_round_trip(m: MetadataView)
    ensures
        decoded_text(encoded_text(m)) == Some(m),
{
    let q = seq!['"'];
    let r3 = closing();
    let r2 = middle() + escaped_all(m.mime_type) + q + r3;
    let r1 = escaped_all(m.original_name) + q + r2;
    assert(encoded_text(m) =~= opening() + r1);
    lemma_strip_prefix(opening(), r1);
    lemma_scan_quoted(m.original_name, r2);
    assert(r2 =~= middle() + (escaped_all(m.mime_type) + q + r3));
    lemma_strip_prefix(middle(), escaped_all(m.mime_type) + q + r3);
    lemma_scan_quoted(m.mime_type, r3);
}

/// Decoding what was encoded gives the record back, whatever its name and
/// content type hold.
pub proof fn lemma_round_trip(m: MetadataView)
    ensures
        decoded(encoded(m)) == Ok::<MetadataView, DecodeError>(m),
{
    broadcast use vstd::utf8::encode_utf8_valid_utf8, vstd::utf8::encode_utf8_decode_utf8;

    lemma_text_round_trip(m);
    assert(valid_utf8(encode_utf8(encoded_text(m))));
    assert(decode_utf8(encode_utf8(encoded_text(m))) == encoded_text(m));
}

/// Reads bytes as UTF-8 text.
///
/// Trusted: this is `std::str::from_utf8`, which std documents as succeeding
/// exactly on valid UTF-8 and then giving the text that the bytes spell.
#[verifier::external_body]
fn utf8_text<'a>(bytes: &'a [u8]) -> (r: Option<&'a str>)
    ensures
        r is Some <==> valid_utf8(bytes@),
        r is Some ==> r->0@ == decode_utf8(bytes@),
{
    std::str::from_utf8(bytes).ok()
}

/// Looks up a string member of a JSON document.
///
/// Trusted: this parses the bytes with `serde_json::from_slice` into a
/// `serde_json::Value`, looks the member up with `Value::get` and reads it with
/// `Value::as_str`. The contract only gives the outcome the name
/// `json_string_member`.
#[verifier::external_body]
fn string_member(bytes: &[u8], key: &str) -> (r: Option<String>)
    ensures
        (match r {
            Some(s) => Some(s@),
            None => None,
        }) == json_string_member(bytes@, key@),
{
    let value: serde_json::Value = serde_json::from_slice(bytes).ok()?;
    value.get(key)?.as_str().map(|s| s.to_string())
}

/// The character with the given code, where a `char` can hold it.
///
/// Trusted: this is `char::from_u32`, which std documents as `None` for the
/// surrogates and for codes above `0x10FFFF`, and the character otherwise.
#[verifier::external_body]
fn char_of_code(code: u32) -> (r: Option<char>)
    ensures
        r == (if is_scalar_code(code as int) {
            Some(code as char)
        } else {
            None
        }),
{
    char::from_u32(code)
}

fn code_of(c: char) -> (r: u32)
    ensures
        r as int == c as int,
{
    c as u32
}

fn hex_digit_char(n: u8) -> (r: char)
    requires
        n < 16,
    ensures
        r == hex_digit(n as int),
{
    if n < 10 {
        (48u8 + n) as char
    } else {
        (87u8 + n) as char
    }
}

fn hex_value_of(c: char) -> (r: Option<u32>)
    ensures
        match r {
            Some(v) => hex_value(c) == Some(v as int) && v < 16,
            None => hex_value(c) is None,
        },
{
    let code: u32 = c as u32;
    if '0' <= c && c <= '9' {
        Some(code - 48)
    } else if 'a' <= c && c <= 'f' {
        Some(code - 87)
    } else if 'A' <= c && c <= 'F' {
        Some(code - 55)
    } else {
        None
    }
}

fn push_escaped(out: &mut String, c: char)
    ensures
        final(out)@ == old(out)@ + escaped(c),
{
    let code: u32 = c as u32;
    if c == '"' || c == '\\' {
        push_char(out, '\\');
        push_char(out, c);
    } else if code <= 31 {
        push_char(out, '\\');
        if c == '\u{8}' {
            push_char(out, 'b');
        } else if c == '\t' {
            push_char(out, 't');
        } else if c == '\n' {
            push_char(out, 'n');
        } else if c == '\u{c}' {
            push_char(out, 'f');
        } else if c == '\r' {
            push_char(out, 'r');
        } else {
            let low: u8 = code as u8;
            push_char(out, 'u');
            push_char(out, '0');
            push_char(out, '0');
            push_char(out, hex_digit_char(low / 16));
            push_char(out, hex_digit_char(low % 16));
        }
    } else {
        push_char(out, c);
    }
    assert(final(out)@ =~= old(out)@ + escaped(c));
}

fn push_escaped_all(out: &mut String, s: &str)
    ensures
        final(out)@ == old(out)@ + escaped_all(s@),
{
    let chars = chars_of(s);
    let mut i: usize = 0;
    assert(old(out)@ + escaped_all(chars@.take(0)) =~= old(out)@);
    while i < chars.len()
        invariant
            i <= chars.len(),
            out@ == old(out)@ + escaped_all(chars@.take(i as int)),
        decreases chars.len() - i,
    {
        push_escaped(out, chars[i]);
        proof {
            let next = chars@.take(i + 1);
            assert(next.drop_last() =~= chars@.take(i as int));
            assert(next.last() == chars@[i as int]);
            assert(out@ =~= old(out)@ + escaped_all(next));
        }
        i += 1;
    }
    assert(chars@.take(chars@.len() as int) =~= chars@);
}

/// The text form of a record.
pub fn encode_text(m: &FileMetadata) -> (r: String)
    ensures
        r@ == encoded_text(m@),
{
    let mut out = String::from_str("{\"original_name\":\"");
    push_escaped_all(&mut out, m.original_name.as_str());
    push_char(&mut out, '"');
    out.append(",\"mime_type\":\"");
    push_escaped_all(&mut out, m.mime_type.as_str());
    push_char(&mut out, '"');
    out.append("}");
    assert(out@ =~= encoded_text(m@));
    out
}

/// The bytes to store for a record.
pub fn encode(m: &FileMetadata) -> (r: Vec<u8>)
    ensures
        r@ == encoded(m@),
        decoded(r@) == Ok::<MetadataView, DecodeError>(m@),
{
    proof {
        lemma_round_trip(m@);
    }
    let text = encode_text(m);
    text.as_str().as_bytes_vec()
}

/// The character that starts at `i` inside a quoted string, and where the next
/// one starts.
fn unescape_at(text: &Vec<char>, i: usize) -> (r: Option<(char, usize)>)
    requires
        i < text.len(),
    ensures
        match r {
            Some((c, next)) => i < next <= text.len() && unescape_first(text@.skip(i as int))
                == Some((c, next - i)),
            None => unescape_first(text@.skip(i as int)) is None,
        },
{
    let ghost t = text@.skip(i as int);
    let n = text.len();
    let c = text[i];
    let plain: u32 = code_of(c);
    assert(t[0] == c);
    if c == '\\' {
        if n - i < 2 {
            return None;
        }
        let d = text[i + 1];
        assert(t[1] == d);
        if d == '"' || d == '\\' || d == '/' {
            Some((d, i + 2))
        } else if d == 'b' {
            Some(('\u{8}', i + 2))
        } else if d == 't' {
            Some(('\t', i + 2))
        } else if d == 'n' {
            Some(('\n', i + 2))
        } else if d == 'f' {
            Some(('\u{c}', i + 2))
        } else if d == 'r' {
            Some(('\r', i + 2))
        } else if d == 'u' {
            if n - i < 6 {
                return None;
            }
            assert(t[2] == text@[i + 2] && t[3] == text@[i + 3] && t[4] == text@[i + 4] && t[5]
                == text@[i + 5]);
            match (
                hex_value_of(text[i + 2]),
                hex_value_of(text[i + 3]),
                hex_value_of(text[i + 4]),
                hex_value_of(text[i + 5]),
            ) {
                (Some(h3), Some(h2), Some(h1), Some(h0)) => {
                    let code: u32 = ((h3 * 16 + h2) * 16 + h1) * 16 + h0;
                    assert(four_hex(t) == Some(code as int));
                    match char_of_code(code) {
                        Some(ch) => Some((ch, i + 6)),
                        None => None,
                    }
                },
                _ => None,
            }
        } else {
            None
        }
    } else if plain <= 31 {
        None
    } else {
        Some((c, i + 1))
    }
}

/// Reads a quoted string whose content starts at `start`: the content, and the
/// place behind the closing quote.
fn scan_string_at(text: &Vec<char>, start: usize) -> (r: Option<(Vec<char>, usize)>)
    requires
        start <= text.len(),
    ensures
        match r {
            Some((s, next)) => start < next <= text.len() && scan_string(
                text@.skip(start as int),
                Seq::empty(),
            ) == Some((s@, text@.skip(next as int))),
            None => scan_string(text@.skip(start as int), Seq::empty()) is None,
        },
{
    let mut acc: Vec<char> = Vec::new();
    let mut i: usize = start;
    while i < text.len()
        invariant
            start <= i <= text.len(),
            scan_string(text@.skip(start as int), Seq::empty()) == scan_string(
                text@.skip(i as int),
                acc@,
            ),
        decreases text.len() - i,
    {
        let ghost t = text@.skip(i as int);
        assert(t[0] == text@[i as int]);
        if text[i] == '"' {
            assert(t.skip(1) =~= text@.skip(i + 1));
            return Some((acc, i + 1));
        }
        match unescape_at(text, i) {
            Some((c, next)) => {
                assert(t.skip(next - i) =~= text@.skip(next as int));
                acc.push(c);
                i = next;
            },
            None => {
                return None;
            },
        }
    }
    None
}

/// Where the text goes on behind `lit`, if `lit` stands at `start`.
fn expect_at(text: &Vec<char>, start: usize, lit: &str) -> (r: Option<usize>)
    requires
        start <= text.len(),
    ensures
        match r {
            Some(next) => start <= next <= text.len() && strip_prefix(
                text@.skip(start as int),
                lit@,
            ) == Some(text@.skip(next as int)),
            None => strip_prefix(text@.skip(start as int), lit@) is None,
        },
{
    let want = chars_of(lit);
    let ghost t = text@.skip(start as int);
    if text.len() - start < want.len() {
        return None;
    }
    let mut k: usize = 0;
    while k < want.len()
        invariant
            k <= want.len(),
            start + want.len() <= text.len(),
            want@ == lit@,
            t == text@.skip(start as int),
            forall|j: int| 0 <= j < k ==> t[j] == want@[j],
        decreases want.len() - k,
    {
        if text[start + k] != want[k] {
            assert(t[k as int] != want@[k as int]);
            assert(t.subrange(0, want@.len() as int)[k as int] != want@[k as int]);
            return None;
        }
        assert(t[k as int] == text@[start + k]);
        k += 1;
    }
    assert(t.subrange(0, want@.len() as int) =~= want@);
    assert(t.skip(want@.len() as int) =~= text@.skip(start + want@.len()));
    Some(start + want.len())
}

/// The record that the text spells in the compact form, if it is in that
/// form.
pub fn decode_text(text: &str) -> (r: Option<FileMetadata>)
    ensures
        match r {
            Some(m) => decoded_text(text@) == Some(m@),
            None => decoded_text(text@) is None,
        },
{
    let chars = chars_of(text);
    assert(chars@.skip(0) =~= text@);
    let after_open = match expect_at(&chars, 0, "{\"original_name\":\"") {
        Some(p) => p,
        None => {
            return None;
        },
    };
    let (name, after_name) = match scan_string_at(&chars, after_open) {
        Some(p) => p,
        None => {
            return None;
        },
    };
    let after_middle = match expect_at(&chars, after_name, ",\"mime_type\":\"") {
        Some(p) => p,
        None => {
            return None;
        },
    };
    let (mime, after_mime) = match scan_string_at(&chars, after_middle) {
        Some(p) => p,
        None => {
            return None;
        },
    };
    match expect_at(&chars, after_mime, "}") {
        Some(end) => {
            if end != chars.len() {
                proof {
                    let rest = chars@.skip(after_mime as int);
                    assert(rest.len() != closing().len()) by {
                        assert(chars@.skip(end as int).len() > 0);
                        assert(rest.skip(closing().len() as int) == chars@.skip(end as int));
                    }
                }
                return None;
            }
            proof {
                let rest = chars@.skip(after_mime as int);
                assert(rest.skip(closing().len() as int).len() == 0);
                assert(rest =~= closing());
            }
        },
        None => {
            proof {
                let rest = chars@.skip(after_mime as int);
                if rest == closing() {
                    assert(rest.subrange(0, rest.len() as int) =~= rest);
                }
            }
            return None;
        },
    }
    Some(FileMetadata { original_name: string_of(&name), mime_type: string_of(&mime) })
}

/// The record that `serde_json` finds in the bytes, if it finds both members.
pub fn decode_json(bytes: &[u8]) -> (r: Option<FileMetadata>)
    ensures
        match r {
            Some(m) => decoded_json(bytes@) == Some(m@),
            None => decoded_json(bytes@) is None,
        },
{
    let name = string_member(bytes, "original_name");
    let mime = string_member(bytes, "mime_type");
    record_of_members(name, mime)
}

/// The record made of two members, where both were found.
pub fn record_of_members(name: Option<String>, mime: Option<String>) -> (r: Option<FileMetadata>)
    ensures
        match (name, mime) {
            (Some(n), Some(t)) => r is Some && r->0.original_name@ == n@ && r->0.mime_type@
                == t@,
            _ => r is None,
        },
{
    match (name, mime) {
        (Some(original_name), Some(mime_type)) => Some(FileMetadata { original_name, mime_type }),
        _ => None,
    }
}

/// Reads a stored record back.
///
/// Fails with `NotText` exactly when the bytes are not UTF-8, and with
/// `Malformed` exactly when they are but hold no record.
pub fn decode(bytes: &[u8]) -> (r: Result<FileMetadata, DecodeError>)
    ensures
        match r {
            Ok(m) => decoded(bytes@) == Ok::<MetadataView, DecodeError>(m@),
            Err(e) => decoded(bytes@) == Err::<MetadataView, DecodeError>(e),
        },
{
    match utf8_text(bytes) {
        None => Err(DecodeError::NotText),
        Some(text) => match decode_text(text) {
            Some(m) => Ok(m),
            None => match decode_json(bytes) {
                Some(m) => Ok(m),
                None => Err(DecodeError::Malformed),
            },
        },
    }
}

} // verus!
