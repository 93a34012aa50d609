//! What holds of texts: their characters, their order, and the numbers in them.

use vstd::prelude::*;
use vstd::string::*;

use crate::config::{source_label, RemoteAgentSourceConfig};
use crate::remote_agents::host::{host_key, key_session, key_target, separator_position};
use crate::remote_agents::sanitize::{
    bidi_control, clean_text, invalid_id_message, metadata_key, sanitized, sanitized_map,
    sanitized_option, showable, shown_chars, valid_remote_id,
};
use crate::state::{pane_id_text, tab_id_text};
use crate::text::{
    ascii_alphanumeric, control_char, decimal, digit_char, text_less, trim_end, trim_start, trimmed,
    white_space,
};

verus! {

/// The classes of characters, by code point: control characters are those below the space, and
/// those from delete up to the end of the second control block; letters and digits are those of
/// ASCII.
pub proof fn character_classes_go_by_code_point(c: char)
    ensures
        control_char(c) <==> (c as int) < 32 || 127 <= (c as int) < 160,
        ascii_alphanumeric(c) <==> 48 <= (c as int) <= 57 || 65 <= (c as int) <= 90 || 97 <= (
        c as int) <= 122,
        white_space(c) <==> 9 <= (c as int) <= 13 || (c as int) == 32 || (c as int) == 133 || (
        c as int) == 160 || (c as int) == 5760 || 8192 <= (c as int) <= 8202 || (c as int) == 8232
            || (c as int) == 8233 || (c as int) == 8239 || (c as int) == 8287 || (c as int)
            == 12288,
        bidi_control(c) <==> (c as int) == 1564 || (c as int) == 8206 || (c as int) == 8207
            || 8234 <= (c as int) <= 8238 || 8294 <= (c as int) <= 8297,
{
}

/// Sanitizing goes through a text from its start: a character that may be shown is kept while there
/// is room, every other one is left out, and nothing is added or moved.
pub proof fn sanitizing_keeps_what_may_be_shown(text: Seq<char>, c: char, max_chars: nat)
    ensures
        ({
            let hidden = (c as int) < 32 || 127 <= (c as int) < 160 || (c as int) == 1564 || (
            c as int) == 8206 || (c as int) == 8207 || 8234 <= (c as int) <= 8238 || 8294 <= (
            c as int) <= 8297;
            let before = sanitized(text, max_chars);
            let after = sanitized(text.push(c), max_chars);
            &&& hidden ==> after == before
            &&& !hidden && before.len() < max_chars ==> after == before.push(c)
            &&& before.len() >= max_chars ==> after == before
        }),
        sanitized(Seq::empty(), max_chars) == Seq::<char>::empty(),
        sanitized(text, max_chars).len() <= max_chars,
{
    text.lemma_filter_push(c, |c: char| showable(c));
    let shown = shown_chars(text);
    assert(shown_chars(text.push(c)) == if showable(c) {
        shown.push(c)
    } else {
        shown
    });
    assert(shown_chars(Seq::<char>::empty()) =~= Seq::<char>::empty());
    if shown.len() >= max_chars {
        assert(shown.push(c).take(max_chars as int) =~= shown.take(max_chars as int));
        if shown.len() == max_chars {
            assert(shown.take(max_chars as int) =~= shown);
        }
    }
}

/// What is kept of a text does not depend on what stands behind the characters that fill the limit,
/// and a shorter limit keeps the start of what a longer one keeps.
pub proof fn shorter_limits_keep_the_start(text: Seq<char>, fewer: nat, more: nat)
    requires
        fewer <= more,
    ensures
        sanitized(text, fewer) == if sanitized(text, more).len() <= fewer {
            sanitized(text, more)
        } else {
            sanitized(text, more).take(fewer as int)
        },
{
    let shown = shown_chars(text);
    if shown.len() > more {
        assert(shown.take(more as int).take(fewer as int) =~= shown.take(fewer as int));
        if fewer == more {
            assert(shown.take(more as int) =~= shown.take(fewer as int));
        }
    }
}

/// A remote identifier is valid if it has 1 to 256 characters, none of them a control character; a
/// name of metadata if it has 1 to 32 letters, digits, underscores and hyphens.
pub proof fn valid_names_go_by_their_characters(id: Seq<char>)
    ensures
        valid_remote_id(id) <==> 1 <= id.len() <= 256 && forall|i: int|
            0 <= i < id.len() ==> !((#[trigger] id[i] as int) < 32 || 127 <= (id[i] as int) < 160),
        metadata_key(id) <==> 1 <= id.len() <= 32 && forall|i: int|
            0 <= i < id.len() ==> (48 <= (#[trigger] id[i] as int) <= 57 || 65 <= (id[i] as int)
                <= 90 || 97 <= (id[i] as int) <= 122 || (id[i] as int) == 95 || (id[i] as int)
                == 45),
{
    if valid_remote_id(id) {
        assert forall|i: int| 0 <= i < id.len() implies !((#[trigger] id[i] as int) < 32 || 127 <= (
        id[i] as int) < 160) by {
            assert(!control_char(id[i]));
        }
    }
    if metadata_key(id) {
        assert forall|i: int| 0 <= i < id.len() implies (48 <= (#[trigger] id[i] as int) <= 57 || 65
            <= (id[i] as int) <= 90 || 97 <= (id[i] as int) <= 122 || (id[i] as int) == 95 || (
        id[i] as int) == 45) by {
            assert(ascii_alphanumeric(id[i]) || id[i] == '_' || id[i] == '-');
        }
    }
}

/// The first character in which two texts differ decides which of them comes first.
pub proof fn first_difference_decides(a: Seq<char>, b: Seq<char>, k: int)
    requires
        0 <= k < a.len(),
        k < b.len(),
        forall|i: int| 0 <= i < k ==> #[trigger] a[i] == b[i],
        a[k] != b[k],
    ensures
        text_less(a, b) <==> (a[k] as int) < (b[k] as int),
    decreases k,
{
    if k > 0 {
        assert(a[0] == b[0]);
        let x = a.drop_first();
        let y = b.drop_first();
        assert forall|i: int| 0 <= i < k - 1 implies #[trigger] x[i] == y[i] by {
            assert(a[i + 1] == b[i + 1]);
        }
        first_difference_decides(x, y, k - 1);
    }
}

/// The start of a text comes before the whole of it, and no text comes before its own start.
pub proof fn starts_come_first(a: Seq<char>, rest: Seq<char>)
    ensures
        rest.len() > 0 ==> text_less(a, a + rest),
        !text_less(a + rest, a),
    decreases a.len(),
{
    let whole = a + rest;
    if a.len() > 0 {
        assert(whole.drop_first() =~= a.drop_first() + rest);
        starts_come_first(a.drop_first(), rest);
    }
}

/// The decimal notation of a number ends in its last digit, behind the notation of what stands
/// before that digit.
pub proof fn decimal_ends_in_the_last_digit(n: nat)
    ensures
        decimal(n).len() > 0,
        (decimal(n).last() as int) == 48 + n % 10,
        n < 10 ==> decimal(n).len() == 1,
        n >= 10 ==> decimal(n).drop_last() == decimal(n / 10),
{
    if n >= 10 {
        assert(decimal(n).drop_last() =~= decimal(n / 10));
    }
    let d = (n % 10) as nat;
    assert((digit_char(d) as int) == 48 + d);
}

/// Different numbers are written differently.
pub proof fn decimals_tell_numbers_apart(a: nat, b: nat)
    requires
        decimal(a) == decimal(b),
    ensures
        a == b,
    decreases a,
{
    decimal_ends_in_the_last_digit(a);
    decimal_ends_in_the_last_digit(b);
    assert(a % 10 == b % 10);
    if a >= 10 && b >= 10 {
        decimals_tell_numbers_apart(a / 10, b / 10);
    } else if a >= 10 {
        decimal_ends_in_the_last_digit(a / 10);
        assert(decimal(a).len() == decimal(a).drop_last().len() + 1);
    } else if b >= 10 {
        decimal_ends_in_the_last_digit(b / 10);
        assert(decimal(b).len() == decimal(b).drop_last().len() + 1);
    }
}

proof fn lemma_trim_start(s: Seq<char>) -> (from: int)
    ensures
        0 <= from <= s.len(),
        trim_start(s) == s.skip(from),
        forall|k: int| 0 <= k < from ==> white_space(#[trigger] s[k]),
        from < s.len() ==> !white_space(s[from]),
    decreases s.len(),
{
    if s.len() > 0 && white_space(s[0]) {
        let rest = s.drop_first();
        let inner = lemma_trim_start(rest);
        assert(rest.skip(inner) =~= s.skip(inner + 1));
        assert forall|k: int| 0 <= k < inner + 1 implies white_space(#[trigger] s[k]) by {
            if k > 0 {
                assert(rest[k - 1] == s[k]);
            }
        }
        inner + 1
    } else {
        assert(s.skip(0) =~= s);
        0
    }
}

proof fn lemma_trim_end(s: Seq<char>) -> (to: int)
    ensures
        0 <= to <= s.len(),
        trim_end(s) == s.take(to),
        forall|k: int| to <= k < s.len() ==> white_space(#[trigger] s[k]),
        to > 0 ==> !white_space(s[to - 1]),
    decreases s.len(),
{
    if s.len() > 0 && white_space(s.last()) {
        let rest = s.drop_last();
        let to = lemma_trim_end(rest);
        assert(rest.take(to) =~= s.take(to));
        assert forall|k: int| to <= k < s.len() implies white_space(#[trigger] s[k]) by {
            if k < rest.len() {
                assert(rest[k] == s[k]);
            }
        }
        to
    } else {
        let to = s.len() as int;
        assert(s.take(to) =~= s);
        to
    }
}

/// Trimming takes off the white space at both ends of a text and nothing else.
pub proof fn trimming_takes_off_the_ends(s: Seq<char>)
    ensures
        exists|from: int, to: int|
            0 <= from <= to <= s.len() && trimmed(s) == #[trigger] s.subrange(from, to) && (
            forall|k: int|
                0 <= k < s.len() && (k < from || k >= to) ==> white_space(#[trigger] s[k])) && (from
                < to ==> !white_space(s[from]) && !white_space(s[to - 1])),
{
    let from = lemma_trim_start(s);
    let started = s.skip(from);
    let kept = lemma_trim_end(started);
    let to = from + kept;
    assert(started.take(kept) =~= s.subrange(from, to));
    assert forall|k: int| 0 <= k < s.len() && (k < from || k >= to) implies white_space(
        #[trigger] s[k],
    ) by {
        if k >= to {
            assert(started[k - from] == s[k]);
        }
    }
    if from < to {
        assert(started[kept - 1] == s[to - 1]);
    }
}

/// The identifier of a tab is that of its workspace and its number behind `:t`, that of a pane
/// likewise behind `:p`, so that in one workspace no two numbers and no tab and pane share one.
pub proof fn public_ids_tell_numbers_apart(workspace: Seq<char>, a: nat, b: nat)
    ensures
        tab_id_text(workspace, a) == workspace + seq![':', 't'] + decimal(a),
        pane_id_text(workspace, a) == workspace + seq![':', 'p'] + decimal(a),
        tab_id_text(workspace, a) == tab_id_text(workspace, b) <==> a == b,
        pane_id_text(workspace, a) == pane_id_text(workspace, b) <==> a == b,
        tab_id_text(workspace, a) != pane_id_text(workspace, b),
{
    reveal_strlit(":t");
    reveal_strlit(":p");
    assert(":t"@ =~= seq![':', 't']);
    assert(":p"@ =~= seq![':', 'p']);
    let n = workspace.len() as int;
    if tab_id_text(workspace, a) == tab_id_text(workspace, b) {
        assert(tab_id_text(workspace, a).skip(n + 2) =~= decimal(a));
        assert(tab_id_text(workspace, b).skip(n + 2) =~= decimal(b));
        decimals_tell_numbers_apart(a, b);
    }
    if pane_id_text(workspace, a) == pane_id_text(workspace, b) {
        assert(pane_id_text(workspace, a).skip(n + 2) =~= decimal(a));
        assert(pane_id_text(workspace, b).skip(n + 2) =~= decimal(b));
        decimals_tell_numbers_apart(a, b);
    }
    assert(tab_id_text(workspace, a)[n + 1] == 't');
    assert(pane_id_text(workspace, b)[n + 1] == 'p');
}

/// The key of a host is its target, the unit separator, and its session, in this order.
pub proof fn keys_hold_target_and_session(target: Seq<char>, session: Seq<char>)
    ensures
        host_key(target, session).len() == target.len() + 1 + session.len(),
        host_key(target, session).take(target.len() as int) == target,
        (host_key(target, session)[target.len() as int] as int) == 31,
        host_key(target, session).skip(target.len() as int + 1) == session,
{
    assert(host_key(target, session).take(target.len() as int) =~= target);
    assert(host_key(target, session).skip(target.len() as int + 1) =~= session);
}

/// A key without a separator names a target alone.
pub proof fn keys_without_separator_name_a_target(key: Seq<char>)
    requires
        forall|i: int| 0 <= i < key.len() ==> (#[trigger] key[i] as int) != 31,
    ensures
        key_target(key) == key,
        key_session(key) == Seq::<char>::empty(),
    decreases key.len(),
{
    lemma_no_separator(key);
    assert(key.take(key.len() as int) =~= key);
}

proof fn lemma_no_separator(key: Seq<char>)
    requires
        forall|i: int| 0 <= i < key.len() ==> (#[trigger] key[i] as int) != 31,
    ensures
        separator_position(key) == key.len(),
    decreases key.len(),
{
    if key.len() > 0 {
        assert((key[0] as int) != 31);
        let rest = key.drop_first();
        assert forall|i: int| 0 <= i < rest.len() implies (#[trigger] rest[i] as int) != 31 by {
            assert(rest[i] == key[i + 1]);
        }
        lemma_no_separator(rest);
    }
}

/// A source stands under its label, or under its target where it has none, followed by its session
/// unless that is the default one. So the label of a source does not change with its target where
/// it has a label of its own.
pub proof fn sources_stand_under_their_names(source: RemoteAgentSourceConfig)
    ensures
        ({
            let name = if source.label is Some {
                source.label->0@
            } else {
                source.target@
            };
            let shown = source_label(source);
            &&& source.session@ == "default"@ ==> shown == name
            &&& source.session@ != "default"@ ==> shown.len() == name.len() + 1
                + source.session@.len() && shown.take(name.len() as int) == name
                && shown[name.len() as int] == '/' && shown.skip(name.len() as int + 1)
                == source.session@
        }),
{
    reveal_strlit("/");
    let name = if source.label is Some {
        source.label->0@
    } else {
        source.target@
    };
    let shown = source_label(source);
    if source.session@ != "default"@ {
        assert(shown.take(name.len() as int) =~= name);
        assert(shown.skip(name.len() as int + 1) =~= source.session@);
    }
}

/// A text that is there is sanitized like any other, and one that is not stays away.
pub proof fn options_are_sanitized_where_they_are(text: Option<String>, max_chars: nat)
    ensures
        text is None ==> sanitized_option(text, max_chars) is None,
        text matches Some(t) ==> sanitized_option(text, max_chars) == Some(
            sanitized(t@, max_chars),
        ),
{
}

/// Of metadata all is kept that has a valid name, under that name, with its text sanitized.
pub proof fn metadata_is_sanitized_by_name(
    values: Map<Seq<char>, Seq<char>>,
    key: Seq<char>,
    max_chars: nat,
)
    ensures
        sanitized_map(values, max_chars).dom().contains(key) <==> values.dom().contains(key)
            && metadata_key(key),
        sanitized_map(values, max_chars).dom().contains(key) ==> sanitized_map(
            values,
            max_chars,
        )[key] == sanitized(values[key], max_chars),
{
}

/// A text is clean if it is no longer than the limit and holds neither control characters nor those
/// that change the direction of the text.
pub proof fn clean_texts_go_by_their_characters(text: Seq<char>, max_chars: nat)
    ensures
        clean_text(text, max_chars) <==> text.len() <= max_chars && forall|i: int|
            0 <= i < text.len() ==> !((#[trigger] text[i] as int) < 32 || 127 <= (text[i] as int)
                < 160 || (text[i] as int) == 1564 || (text[i] as int) == 8206 || (text[i] as int)
                == 8207 || 8234 <= (text[i] as int) <= 8238 || 8294 <= (text[i] as int) <= 8297),
{
    if clean_text(text, max_chars) {
        assert forall|i: int| 0 <= i < text.len() implies !((#[trigger] text[i] as int) < 32 || 127
            <= (text[i] as int) < 160 || (text[i] as int) == 1564 || (text[i] as int) == 8206 || (
        text[i] as int) == 8207 || 8234 <= (text[i] as int) <= 8238 || 8294 <= (text[i] as int)
            <= 8297) by {
            assert(showable(text[i]));
        }
    }
}

/// An identifier that is refused is named by its kind.
pub proof fn refused_identifiers_are_named_by_kind(kind: Seq<char>)
    ensures
        invalid_id_message(kind) == "remote "@ + kind + " id is invalid"@,
{
}

} // verus!
