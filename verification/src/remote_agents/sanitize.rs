//! What may be shown of the text that a remote session reports.

use vstd::prelude::*;
use vstd::string::*;

use crate::ordered_map::{keys_ascend, lemma_entry_found, lemma_key_found, MetadataMap};
use crate::text::{ascii_alphanumeric, chars_of, control_char, is_ascii_alphanumeric, is_control_char};

verus! {

pub const MAX_REMOTE_TEXT_CHARS: usize = 256;

pub const MAX_REMOTE_TOKEN_CHARS: usize = 512;

pub const MAX_REMOTE_ID_CHARS: usize = 256;

pub const MAX_METADATA_KEY_CHARS: usize = 32;

/// The characters that steer the direction of text.
pub open spec fn bidi_control(c: char) -> bool {
    c == '\u{061c}' || c == '\u{200e}' || c == '\u{200f}' || ('\u{202a}' <= c <= '\u{202e}') || (
    '\u{2066}' <= c <= '\u{2069}')
}

/// Whether a character steers the direction of text.
pub fn is_bidi_control(ch: char) -> (r: bool)
    ensures
        r == bidi_control(ch),
{
    ch == '\u{061c}' || ch == '\u{200e}' || ch == '\u{200f}' || ('\u{202a}' <= ch && ch
        <= '\u{202e}') || ('\u{2066}' <= ch && ch <= '\u{2069}')
}

/// A character that may be shown: neither a control nor a direction character.
pub open spec fn showable(c: char) -> bool {
    !control_char(c) && !bidi_control(c)
}

/// The characters of a text that may be shown, in order.
pub open spec fn shown_chars(text: Seq<char>) -> Seq<char> {
    text.filter(|c: char| showable(c))
}

/// What is kept of a remote text: the first characters that may be shown.
pub open spec fn sanitized(text: Seq<char>, max_chars: nat) -> Seq<char> {
    let shown = shown_chars(text);
    if shown.len() <= max_chars {
        shown
    } else {
        shown.take(max_chars as int)
    }
}

/// Keeps the first `max_chars` characters of a remote text that may be shown.
pub fn sanitize_remote_text(value: &str, max_chars: usize) -> (text: String)
    ensures
        text@ == sanitized(value@, max_chars as nat),
{
    let chars = chars_of(value);
    let mut text = String::new();
    let mut kept: usize = 0;
    let mut i: usize = 0;
    proof {
        assert(shown_chars(chars@.take(0)) =~= Seq::<char>::empty());
    }
    while i < chars.len() && kept < max_chars
        invariant
            i <= chars.len(),
            kept <= max_chars,
            kept == text@.len(),
            text@ == shown_chars(chars@.take(i as int)),
        decreases chars.len() - i,
    {
        let c = chars[i];
        proof {
            assert(chars@.take(i + 1) =~= chars@.take(i as int).push(c));
            chars@.take(i as int).lemma_filter_push(c, |c: char| showable(c));
        }
        if !is_control_char(c) && !is_bidi_control(c) {
            text.push(c);
            kept = kept + 1;
        }
        i = i + 1;
    }
    proof {
        let head = chars@.take(i as int);
        let tail = chars@.skip(i as int);
        assert(chars@ =~= head + tail);
        Seq::filter_distributes_over_add(head, tail, |c: char| showable(c));
        assert(shown_chars(chars@) == shown_chars(head) + shown_chars(tail));
        if i == chars.len() {
            assert(tail =~= Seq::<char>::empty());
            assert(shown_chars(tail) =~= Seq::<char>::empty());
            assert(shown_chars(chars@) =~= text@);
        } else {
            assert(shown_chars(chars@).take(max_chars as int) =~= text@);
            if shown_chars(chars@).len() <= max_chars {
                assert(shown_chars(chars@) =~= text@);
            }
        }
    }
    text
}

/// A text that can be shown whole and is within a limit.
pub open spec fn clean_text(text: Seq<char>, max_chars: nat) -> bool {
    &&& text.len() <= max_chars
    &&& forall|i: int| 0 <= i < text.len() ==> showable(#[trigger] text[i])
}

/// What is kept of a remote text can be shown, and is no longer than the limit.
pub proof fn sanitized_text_is_showable(text: Seq<char>, max_chars: nat)
    ensures
        sanitized(text, max_chars).len() <= max_chars,
        forall|i: int|
            0 <= i < sanitized(text, max_chars).len() ==> showable(
                #[trigger] sanitized(text, max_chars)[i],
            ),
{
    assert forall|i: int| 0 <= i < sanitized(text, max_chars).len() implies showable(
        #[trigger] sanitized(text, max_chars)[i],
    ) by {
        assert(sanitized(text, max_chars)[i] == shown_chars(text)[i]);
        text.lemma_filter_pred(|c: char| showable(c), i);
    }
}

proof fn lemma_all_shown(text: Seq<char>)
    requires
        forall|i: int| 0 <= i < text.len() ==> showable(#[trigger] text[i]),
    ensures
        shown_chars(text) == text,
    decreases text.len(),
{
    if text.len() == 0 {
        assert(shown_chars(text) =~= text);
    } else {
        let c = text.last();
        let head = text.drop_last();
        lemma_all_shown(head);
        head.lemma_filter_push(c, |c: char| showable(c));
        assert(text =~= head.push(c));
    }
}

/// A text within the limit that can be shown whole is kept as it is.
pub proof fn sanitized_keeps_showable_text(text: Seq<char>, max_chars: nat)
    requires
        text.len() <= max_chars,
        forall|i: int| 0 <= i < text.len() ==> showable(#[trigger] text[i]),
    ensures
        sanitized(text, max_chars) == text,
{
    lemma_all_shown(text);
}

/// Sanitizing a text again changes nothing.
pub proof fn sanitizing_twice_changes_nothing(text: Seq<char>, max_chars: nat)
    ensures
        sanitized(sanitized(text, max_chars), max_chars) == sanitized(text, max_chars),
{
    sanitized_text_is_showable(text, max_chars);
    sanitized_keeps_showable_text(sanitized(text, max_chars), max_chars);
}

/// The sanitized form of a text that may be absent.
pub open spec fn sanitized_option(text: Option<String>, max_chars: nat) -> Option<Seq<char>> {
    match text {
        Some(text) => Some(sanitized(text@, max_chars)),
        None => None,
    }
}

/// Sanitizes a text that may be absent.
pub fn sanitize_remote_option(value: &Option<String>, max_chars: usize) -> (text: Option<String>)
    ensures
        text is Some <==> value is Some,
        text matches Some(t) ==> sanitized_option(*value, max_chars as nat) == Some(t@),
{
    match value {
        Some(value) => Some(sanitize_remote_text(value.as_str(), max_chars)),
        None => None,
    }
}

/// A name under which metadata may stand: ASCII letters, digits, underscores and hyphens.
pub open spec fn metadata_key(key: Seq<char>) -> bool {
    &&& 0 < key.len() <= MAX_METADATA_KEY_CHARS
    &&& forall|i: int|
        0 <= i < key.len() ==> (ascii_alphanumeric(#[trigger] key[i]) || key[i] == '_' || key[i]
            == '-')
}

/// Whether metadata may stand under a name.
pub fn is_metadata_key(key: &str) -> (r: bool)
    ensures
        r == metadata_key(key@),
{
    let chars = chars_of(key);
    if chars.len() == 0 || chars.len() > MAX_METADATA_KEY_CHARS {
        return false;
    }
    let mut i: usize = 0;
    while i < chars.len()
        invariant
            chars@ == key@,
            i <= chars.len(),
            forall|j: int|
                0 <= j < i ==> (ascii_alphanumeric(#[trigger] chars@[j]) || chars@[j] == '_'
                    || chars@[j] == '-'),
        decreases chars.len() - i,
    {
        if !(is_ascii_alphanumeric(chars[i]) || chars[i] == '_' || chars[i] == '-') {
            assert(!(ascii_alphanumeric(key@[i as int]) || key@[i as int] == '_' || key@[i as int]
                == '-'));
            return false;
        }
        i = i + 1;
    }
    true
}

/// What is kept of remote metadata: the well-named entries, with sanitized values.
pub open spec fn sanitized_map(values: Map<Seq<char>, Seq<char>>, max_value_chars: nat) -> Map<
    Seq<char>,
    Seq<char>,
> {
    Map::new(
        |key: Seq<char>| values.dom().contains(key) && metadata_key(key),
        |key: Seq<char>| sanitized(values[key], max_value_chars),
    )
}

/// Keeps the well-named entries of remote metadata, with sanitized values.
pub fn sanitize_remote_map(values: MetadataMap, max_value_chars: usize) -> (kept: MetadataMap)
    ensures
        kept@ == sanitized_map(values@, max_value_chars as nat),
{
    let mut kept = MetadataMap::new();
    let n = values.len();
    let ghost entries = values.entries();
    let mut i: usize = 0;
    while i < n
        invariant
            n == entries.len(),
            entries == values.entries(),
            keys_ascend(entries),
            i <= n,
            forall|key: Seq<char>| #[trigger]
                kept@.dom().contains(key) <==> (metadata_key(key) && exists|j: int|
                    0 <= j < i && (#[trigger] entries[j]).0 == key),
            forall|key: Seq<char>| #[trigger]
                kept@.dom().contains(key) ==> kept@[key] == sanitized(
                    values@[key],
                    max_value_chars as nat,
                ),
        decreases n - i,
    {
        let ghost before = kept@;
        let key = values.key_at(i);
        proof {
            lemma_entry_found(entries, i as int);
        }
        if is_metadata_key(key.as_str()) {
            kept.insert(
                key.clone(),
                sanitize_remote_text(values.value_at(i).as_str(), max_value_chars),
            );
        }
        proof {
            assert forall|k: Seq<char>| #[trigger]
                kept@.dom().contains(k) <==> (metadata_key(k) && exists|j: int|
                    0 <= j < i + 1 && (#[trigger] entries[j]).0 == k) by {
                if kept@.dom().contains(k) {
                    if before.dom().contains(k) {
                        let j = choose|j: int| 0 <= j < i && (#[trigger] entries[j]).0 == k;
                        assert(entries[j].0 == k);
                    } else {
                        assert(entries[i as int].0 == k);
                    }
                }
                if metadata_key(k) && exists|j: int|
                    0 <= j < i + 1 && (#[trigger] entries[j]).0 == k {
                    let j = choose|j: int| 0 <= j < i + 1 && (#[trigger] entries[j]).0 == k;
                    if j < i {
                        assert(before.dom().contains(k));
                    }
                }
            }
        }
        i = i + 1;
    }
    proof {
        assert forall|key: Seq<char>| kept@.dom().contains(key) == sanitized_map(
            values@,
            max_value_chars as nat,
        ).dom().contains(key) by {
            if values@.dom().contains(key) {
                lemma_key_found(entries, key);
            }
            if kept@.dom().contains(key) {
                let j = choose|j: int| 0 <= j < n && (#[trigger] entries[j]).0 == key;
                lemma_entry_found(entries, j);
            }
        }
        assert(kept@ =~= sanitized_map(values@, max_value_chars as nat));
    }
    kept
}

/// An identifier that a remote session may use.
pub open spec fn valid_remote_id(id: Seq<char>) -> bool {
    &&& 0 < id.len() <= MAX_REMOTE_ID_CHARS
    &&& forall|i: int| 0 <= i < id.len() ==> !control_char(#[trigger] id[i])
}

/// The complaint about an identifier of the given kind.
pub open spec fn invalid_id_message(kind: Seq<char>) -> Seq<char> {
    "remote "@ + kind + " id is invalid"@
}

/// Accepts an identifier that a remote session may use.
pub fn validate_remote_id(kind: &str, value: &str) -> (result: Result<(), String>)
    ensures
        result is Ok <==> valid_remote_id(value@),
        result matches Err(error) ==> error@ == invalid_id_message(kind@),
{
    let chars = chars_of(value);
    let mut valid = chars.len() > 0 && chars.len() <= MAX_REMOTE_ID_CHARS;
    let mut i: usize = 0;
    while i < chars.len()
        invariant
            chars@ == value@,
            i <= chars.len(),
            valid == (0 < chars@.len() <= MAX_REMOTE_ID_CHARS && forall|j: int|
                0 <= j < i ==> !control_char(#[trigger] chars@[j])),
        decreases chars.len() - i,
    {
        if is_control_char(chars[i]) {
            valid = false;
        }
        i = i + 1;
    }
    if valid {
        Ok(())
    } else {
        let mut error = "remote ".to_owned();
        error.append(kind);
        error.append(" id is invalid");
        Err(error)
    }
}

} // verus!
