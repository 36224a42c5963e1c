//! The text form of the store: a bracketed, comma-separated list of objects,
//! each a braced list of `"name":"value"` members. A quote or a backslash
//! inside a name or a value is written with a backslash in front.
//!
//! Reading never fails. A text that is no bracketed list stands for no
//! record. Between the brackets, text between objects is passed over, an
//! object runs to the first closing brace outside a string literal, an
//! object that does not end is left out, and inside an object everything
//! that is no member is passed over. A member that a record lacks counts as
//! empty.

use vstd::prelude::*;
use crate::text::{is_space, trim_start, trimmed};
use crate::record::WindowView;

verus! {

/// A list of names with their values.
pub type Pairs = Seq<(Seq<char>, Seq<char>)>;

// ---------------------------------------------------------------- writing

/// `s` with a backslash put before each quote and each backslash.
pub open spec fn escaped(s: Seq<char>) -> Seq<char>
    decreases s.len(),
{
    if s.len() == 0 {
        Seq::empty()
    } else if s[0] == '"' || s[0] == '\\' {
        seq!['\\', s[0]] + escaped(s.drop_first())
    } else {
        seq![s[0]] + escaped(s.drop_first())
    }
}

/// `s` as a string literal: escaped, between quotes.
pub open spec fn quoted(s: Seq<char>) -> Seq<char> {
    seq!['"'] + escaped(s) + seq!['"']
}

/// A name and its value as a member of an object.
pub open spec fn member_text(pair: (Seq<char>, Seq<char>)) -> Seq<char> {
    quoted(pair.0) + seq![':'] + quoted(pair.1)
}

/// The parts one after the other, with `separator` between neighbours.
pub open spec fn joined(parts: Seq<Seq<char>>, separator: char) -> Seq<char>
    decreases parts.len(),
{
    if parts.len() == 0 {
        Seq::empty()
    } else if parts.len() == 1 {
        parts[0]
    } else {
        parts[0] + seq![separator] + joined(parts.drop_first(), separator)
    }
}

/// The members of an object, separated by commas.
pub open spec fn members_text(pairs: Pairs) -> Seq<char> {
    joined(pairs.map_values(|p: (Seq<char>, Seq<char>)| member_text(p)), ',')
}

/// The members that a record is written with. The preview is written only
/// where the record has one.
pub open spec fn fields_of(w: WindowView) -> Pairs {
    let fixed = seq![
        ("address"@, w.key),
        ("display_title"@, w.display_label),
        ("class"@, w.window_class),
        ("original_title"@, w.original_title),
    ];
    match w.preview_path {
        Some(path) => fixed.push(("preview"@, path)),
        None => fixed,
    }
}

/// A record as an object.
pub open spec fn object_text(w: WindowView) -> Seq<char> {
    seq!['{'] + members_text(fields_of(w)) + seq!['}']
}

/// The text form of a sequence of records.
pub open spec fn encoded(records: Seq<WindowView>) -> Seq<char> {
    seq!['['] + joined(records.map_values(|w: WindowView| object_text(w)), ',') + seq![']']
}

// ---------------------------------------------------------------- reading

/// Reads a string literal whose opening quote has just been passed: the
/// characters up to the closing quote, each backslash giving way to the
/// character behind it, and the text after the closing quote. `None` where
/// the text ends before the literal does.
pub open spec fn literal(s: Seq<char>) -> Option<(Seq<char>, Seq<char>)>
    decreases s.len(),
{
    if s.len() == 0 {
        None
    } else if s[0] == '"' {
        Some((Seq::empty(), s.drop_first()))
    } else if s[0] == '\\' {
        if s.len() < 2 {
            None
        } else {
            match literal(s.skip(2)) {
                Some((content, rest)) => Some((seq![s[1]] + content, rest)),
                None => None,
            }
        }
    } else {
        match literal(s.drop_first()) {
            Some((content, rest)) => Some((seq![s[0]] + content, rest)),
            None => None,
        }
    }
}

/// Whether `c` opens a nested value: a brace or a bracket.
pub open spec fn opens(c: char) -> bool {
    c == '{' || c == '['
}

/// Whether `c` closes a nested value: a brace or a bracket.
pub open spec fn closes(c: char) -> bool {
    c == '}' || c == ']'
}

/// Whether `c` ends a value that is written without quotes.
pub open spec fn ends_bare(c: char) -> bool {
    is_space(c) || c == ',' || closes(c) || c == '"'
}

/// The length of the value without quotes that `s` starts with.
pub open spec fn bare_len(s: Seq<char>) -> nat
    decreases s.len(),
{
    if s.len() > 0 && !ends_bare(s[0]) {
        1 + bare_len(s.drop_first())
    } else {
        0
    }
}

/// The length of what is left of a nested value at the start of `s`, where
/// `depth` braces and brackets are open: up to and with the one that closes
/// the outermost of them. Braces and brackets count alike, and none counts
/// inside a string literal. `None` where the text ends before the value
/// does.
pub open spec fn nested_len(s: Seq<char>, depth: nat) -> Option<nat>
    decreases s.len(),
{
    if s.len() == 0 {
        None
    } else if s[0] == '"' {
        match literal(s.drop_first()) {
            None => None,
            Some((_, rest)) => {
                proof {
                    lemma_literal_rest(s.drop_first());
                }
                match nested_len(rest, depth) {
                    Some(n) => Some((s.len() - rest.len() + n) as nat),
                    None => None,
                }
            },
        }
    } else if closes(s[0]) && depth <= 1 {
        Some(1)
    } else {
        let inside = if opens(s[0]) {
            depth + 1
        } else if closes(s[0]) {
            (depth - 1) as nat
        } else {
            depth
        };
        match nested_len(s.drop_first(), inside) {
            Some(n) => Some(n + 1),
            None => None,
        }
    }
}

/// The value that `s` starts with, and the text behind it. A value is a
/// string literal, read without its quotes and escapes; or a nested value,
/// which opens with a brace or a bracket and runs to the one that closes
/// it, taken as it stands; or a run of characters without quotes, which may
/// be empty. `None` where a literal or a nested value does not end.
pub open spec fn value(s: Seq<char>) -> Option<(Seq<char>, Seq<char>)> {
    if s.len() > 0 && s[0] == '"' {
        literal(s.drop_first())
    } else if s.len() > 0 && opens(s[0]) {
        match nested_len(s, 0) {
            Some(n) => Some((s.take(n as int), s.skip(n as int))),
            None => None,
        }
    } else {
        Some((s.take(bare_len(s) as int), s.skip(bare_len(s) as int)))
    }
}

/// The text behind the first comma of `s` that stands outside a string
/// literal; nothing where there is no such comma.
pub open spec fn behind_comma(s: Seq<char>) -> Seq<char>
    decreases s.len(),
{
    if s.len() == 0 {
        s
    } else if s[0] == ',' {
        s.drop_first()
    } else if s[0] == '"' {
        match literal(s.drop_first()) {
            None => Seq::empty(),
            Some((_, rest)) => {
                proof {
                    lemma_literal_rest(s.drop_first());
                }
                behind_comma(rest)
            },
        }
    } else {
        behind_comma(s.drop_first())
    }
}

/// The members found in `s`, in the order in which they stand there. A
/// member is a string literal, a colon, and a value. White space may stand
/// around the colon. Behind a member the reading goes on behind the next
/// comma, so that nothing inside a value is read as a member, and no two
/// members stand in one comma-separated part. A literal that no colon
/// follows is passed over, as is every other character before a member. A
/// literal or a nested value that does not end ends the reading.
pub open spec fn members(s: Seq<char>) -> Pairs
    decreases s.len(),
{
    if s.len() == 0 {
        Seq::empty()
    } else if s[0] == '"' {
        match literal(s.drop_first()) {
            None => Seq::empty(),
            Some((name, rest)) => {
                let colon = trim_start(rest);
                if colon.len() > 0 && colon[0] == ':' {
                    let start = trim_start(colon.drop_first());
                    match value(start) {
                        None => Seq::empty(),
                        Some((content, after)) => {
                            proof {
                                lemma_literal_rest(s.drop_first());
                                lemma_trim_start_suffix(rest);
                                lemma_trim_start_suffix(colon.drop_first());
                                lemma_value_rest(start);
                                lemma_behind_comma_suffix(after);
                            }
                            seq![(name, content)] + members(behind_comma(after))
                        },
                    }
                } else {
                    proof {
                        lemma_literal_rest(s.drop_first());
                    }
                    members(rest)
                }
            },
        }
    } else {
        members(s.drop_first())
    }
}

/// The value of the last member of `pairs` that is named `name`.
pub open spec fn lookup(pairs: Pairs, name: Seq<char>) -> Option<Seq<char>>
    decreases pairs.len(),
{
    if pairs.len() == 0 {
        None
    } else if pairs.last().0 == name {
        Some(pairs.last().1)
    } else {
        lookup(pairs.drop_last(), name)
    }
}

/// The value of the last member named `name`, or the empty string where no
/// member has that name.
pub open spec fn lookup_or_empty(pairs: Pairs, name: Seq<char>) -> Seq<char> {
    match lookup(pairs, name) {
        Some(value) => value,
        None => Seq::empty(),
    }
}

/// The record that a list of members stands for.
pub open spec fn record_of(pairs: Pairs) -> WindowView {
    WindowView {
        key: lookup_or_empty(pairs, "address"@),
        display_label: lookup_or_empty(pairs, "display_title"@),
        window_class: lookup_or_empty(pairs, "class"@),
        original_title: lookup_or_empty(pairs, "original_title"@),
        preview_path: lookup(pairs, "preview"@),
    }
}

/// Where the object ends whose opening brace has just been passed: the index
/// of the first closing brace outside a string literal. `None` where there
/// is none.
pub open spec fn object_end(s: Seq<char>) -> Option<int>
    decreases s.len(),
{
    if s.len() == 0 {
        None
    } else if s[0] == '}' {
        Some(0)
    } else if s[0] == '"' {
        match literal(s.drop_first()) {
            None => None,
            Some((_, rest)) => {
                proof {
                    lemma_literal_rest(s.drop_first());
                }
                match object_end(rest) {
                    Some(k) => Some(s.len() - rest.len() + k),
                    None => None,
                }
            },
        }
    } else {
        match object_end(s.drop_first()) {
            Some(k) => Some(k + 1),
            None => None,
        }
    }
}

/// The records found in `s`, in the order in which they stand there: one for
/// each object. Text outside objects is passed over. An opening brace whose
/// object does not end is passed over too, and the reading goes on behind
/// it.
pub open spec fn records(s: Seq<char>) -> Seq<WindowView>
    decreases s.len(),
{
    if s.len() == 0 {
        Seq::empty()
    } else if s[0] == '{' {
        match object_end(s.drop_first()) {
            None => records(s.drop_first()),
            Some(k) => {
                proof {
                    lemma_object_end_bounds(s.drop_first());
                }
                seq![record_of(members(s.subrange(1, k + 1)))] + records(s.skip(k + 2))
            },
        }
    } else {
        records(s.drop_first())
    }
}

/// The records that a text stands for: those found between the brackets of
/// a text that, white space at its ends apart, opens with a bracket and
/// closes with one. Any other text stands for no record.
pub open spec fn decoded(text: Seq<char>) -> Seq<WindowView> {
    let list = trimmed(text);
    if list.len() >= 2 && list[0] == '[' && list.last() == ']' {
        records(list.subrange(1, list.len() - 1))
    } else {
        Seq::empty()
    }
}

// ---------------------------------------------------------------- bounds

/// What follows a literal is a proper end piece of the text it was read from.
pub proof fn lemma_literal_rest(s: Seq<char>)
    ensures
        literal(s) matches Some((_, rest)) ==> rest.len() < s.len() && rest == s.skip(
            s.len() - rest.len(),
        ),
    decreases s.len(),
{
    if s.len() >= 2 && s[0] == '\\' {
        lemma_literal_rest(s.skip(2));
    } else if s.len() > 0 && s[0] != '"' && s[0] != '\\' {
        lemma_literal_rest(s.drop_first());
    }
}

/// A text without its leading white space is an end piece of the text.
pub proof fn lemma_trim_start_suffix(s: Seq<char>)
    ensures
        trim_start(s).len() <= s.len(),
        trim_start(s) == s.skip(s.len() - trim_start(s).len()),
    decreases s.len(),
{
    if s.len() > 0 && is_space(s[0]) {
        lemma_trim_start_suffix(s.drop_first());
    }
}

/// A value without quotes is no longer than the text it starts.
pub proof fn lemma_bare_len(s: Seq<char>)
    ensures
        bare_len(s) <= s.len(),
    decreases s.len(),
{
    if s.len() > 0 && !ends_bare(s[0]) {
        lemma_bare_len(s.drop_first());
    }
}

/// A nested value is no longer than the text it starts.
pub proof fn lemma_nested_len(s: Seq<char>, depth: nat)
    ensures
        nested_len(s, depth) matches Some(n) ==> 0 < n <= s.len(),
    decreases s.len(),
{
    if s.len() > 0 && s[0] == '"' {
        lemma_literal_rest(s.drop_first());
        if let Some((_, rest)) = literal(s.drop_first()) {
            lemma_nested_len(rest, depth);
        }
    } else if s.len() > 0 && !(closes(s[0]) && depth <= 1) {
        let inside = if opens(s[0]) {
            depth + 1
        } else if closes(s[0]) {
            (depth - 1) as nat
        } else {
            depth
        };
        lemma_nested_len(s.drop_first(), inside);
    }
}

/// What follows a value is an end piece of the text it was read from.
pub proof fn lemma_value_rest(s: Seq<char>)
    ensures
        value(s) matches Some((_, rest)) ==> rest.len() <= s.len() && rest == s.skip(
            s.len() - rest.len(),
        ),
{
    if s.len() > 0 && s[0] == '"' {
        lemma_literal_rest(s.drop_first());
        if let Some((_, rest)) = literal(s.drop_first()) {
            assert(s.drop_first().skip(s.drop_first().len() - rest.len()) =~= s.skip(
                s.len() - rest.len(),
            ));
        }
    } else if s.len() > 0 && opens(s[0]) {
        lemma_nested_len(s, 0);
    } else {
        lemma_bare_len(s);
    }
}

/// What stands behind a comma is an end piece of the text.
pub proof fn lemma_behind_comma_suffix(s: Seq<char>)
    ensures
        behind_comma(s).len() <= s.len(),
        behind_comma(s) == s.skip(s.len() - behind_comma(s).len()),
    decreases s.len(),
{
    if s.len() > 0 && s[0] == '"' {
        lemma_literal_rest(s.drop_first());
        if let Some((_, rest)) = literal(s.drop_first()) {
            lemma_behind_comma_suffix(rest);
            assert(rest.skip(rest.len() - behind_comma(rest).len()) =~= s.skip(
                s.len() - behind_comma(rest).len(),
            ));
        }
    } else if s.len() > 0 && s[0] != ',' {
        lemma_behind_comma_suffix(s.drop_first());
    }
}

/// The end of an object is the index of a closing brace.
pub proof fn lemma_object_end_bounds(s: Seq<char>)
    ensures
        object_end(s) matches Some(k) ==> 0 <= k < s.len() && s[k] == '}',
    decreases s.len(),
{
    if s.len() > 0 && s[0] == '"' {
        lemma_literal_rest(s.drop_first());
        if let Some((_, rest)) = literal(s.drop_first()) {
            lemma_object_end_bounds(rest);
        }
    } else if s.len() > 0 && s[0] != '}' {
        lemma_object_end_bounds(s.drop_first());
    }
}

} // verus!
