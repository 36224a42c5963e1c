//! Reading gives back what writing was given.

use vstd::prelude::*;
use crate::codec::shifted;
use crate::format::{
    behind_comma, decoded, encoded, escaped, fields_of, joined, literal, lookup, member_text,
    members, members_text, object_end, object_text, quoted, record_of, records, Pairs,
};
use crate::record::WindowView;
use crate::text::trimmed;

verus! {

/// Reading a literal undoes the escaping: behind an opening quote, the
/// escaped form of `x` and a closing quote are read as `x`.
pub proof fn lemma_literal_escaped(x: Seq<char>, rest: Seq<char>)
    ensures
        literal(escaped(x) + seq!['"'] + rest) == Some((x, rest)),
    decreases x.len(),
{
    let s = escaped(x) + seq!['"'] + rest;
    if x.len() > 0 {
        let tail = escaped(x.drop_first()) + seq!['"'] + rest;
        lemma_literal_escaped(x.drop_first(), rest);
        if x[0] == '"' || x[0] == '\\' {
            assert(s.skip(2) =~= tail);
        } else {
            assert(s.drop_first() =~= tail);
        }
    }
}

/// Reading a quoted text gives the text.
pub proof fn lemma_literal_quoted(x: Seq<char>, rest: Seq<char>)
    ensures
        (quoted(x) + rest)[0] == '"',
        literal((quoted(x) + rest).drop_first()) == Some((x, rest)),
{
    lemma_literal_escaped(x, rest);
    assert((quoted(x) + rest).drop_first() =~= escaped(x) + seq!['"'] + rest);
}

/// A written member is read as the pair it was written from, and the
/// reading goes on behind the next comma.
pub proof fn lemma_members_member(pair: (Seq<char>, Seq<char>), rest: Seq<char>)
    ensures
        members(member_text(pair) + rest) == seq![pair] + members(behind_comma(rest)),
{
    let s = member_text(pair) + rest;
    let after_name = seq![':'] + quoted(pair.1) + rest;
    let after_colon = quoted(pair.1) + rest;
    lemma_literal_quoted(pair.0, after_name);
    assert(s =~= quoted(pair.0) + after_name);
    assert(after_name.drop_first() =~= after_colon);
    lemma_literal_quoted(pair.1, rest);
}

/// Written members are read as the pairs they were written from.
pub proof fn lemma_members_of_text(pairs: Pairs)
    ensures
        members(members_text(pairs)) == pairs,
    decreases pairs.len(),
{
    let f = |p: (Seq<char>, Seq<char>)| member_text(p);
    let parts = pairs.map_values(f);
    if pairs.len() == 1 {
        lemma_members_member(pairs[0], Seq::empty());
        assert(member_text(pairs[0]) + Seq::<char>::empty() =~= member_text(pairs[0]));
    } else if pairs.len() > 1 {
        let tail = pairs.drop_first();
        lemma_members_of_text(tail);
        assert(parts.drop_first() =~= tail.map_values(f));
        let rest = seq![','] + members_text(tail);
        lemma_members_member(pairs[0], rest);
        assert(rest.drop_first() =~= members_text(tail));
        assert(members_text(pairs) =~= member_text(pairs[0]) + rest);
    }
}

/// The search for the end of an object passes over a quoted text.
pub proof fn lemma_object_end_quoted(x: Seq<char>, rest: Seq<char>)
    ensures
        object_end(quoted(x) + rest) == shifted(object_end(rest), quoted(x).len() as int),
{
    lemma_literal_quoted(x, rest);
}

/// The search for the end of an object passes over a character that is
/// neither a quote nor a closing brace.
pub proof fn lemma_object_end_skip(c: char, rest: Seq<char>)
    requires
        c != '"',
        c != '}',
    ensures
        object_end(seq![c] + rest) == shifted(object_end(rest), 1),
{
    assert((seq![c] + rest).drop_first() =~= rest);
}

/// The search for the end of an object passes over a written member.
pub proof fn lemma_object_end_member(pair: (Seq<char>, Seq<char>), rest: Seq<char>)
    ensures
        object_end(member_text(pair) + rest) == shifted(
            object_end(rest),
            member_text(pair).len() as int,
        ),
{
    let after_colon = quoted(pair.1) + rest;
    let after_name = seq![':'] + after_colon;
    lemma_object_end_quoted(pair.0, after_name);
    lemma_object_end_skip(':', after_colon);
    lemma_object_end_quoted(pair.1, rest);
    assert(member_text(pair) + rest =~= quoted(pair.0) + after_name);
}

/// The brace written behind the members of an object is the end of the
/// object.
pub proof fn lemma_object_end_of_text(pairs: Pairs, rest: Seq<char>)
    ensures
        object_end(members_text(pairs) + seq!['}'] + rest) == Some(members_text(pairs).len() as int),
    decreases pairs.len(),
{
    let f = |p: (Seq<char>, Seq<char>)| member_text(p);
    let parts = pairs.map_values(f);
    let closing = seq!['}'] + rest;
    if pairs.len() == 1 {
        lemma_object_end_member(pairs[0], closing);
        assert(members_text(pairs) + seq!['}'] + rest =~= member_text(pairs[0]) + closing);
    } else if pairs.len() > 1 {
        let tail = pairs.drop_first();
        lemma_object_end_of_text(tail, rest);
        assert(parts.drop_first() =~= tail.map_values(f));
        let after_comma = members_text(tail) + seq!['}'] + rest;
        lemma_object_end_member(pairs[0], seq![','] + after_comma);
        lemma_object_end_skip(',', after_comma);
        assert(members_text(pairs) + seq!['}'] + rest =~= member_text(pairs[0]) + (seq![',']
            + after_comma));
    }
}

/// The members that a record is written with stand for the record.
pub proof fn lemma_record_of_fields(w: WindowView)
    ensures
        record_of(fields_of(w)) == w,
{
    reveal_strlit("address");
    reveal_strlit("display_title");
    reveal_strlit("class");
    reveal_strlit("original_title");
    reveal_strlit("preview");
    assert("address"@.len() == 7 && "display_title"@.len() == 13 && "class"@.len() == 5);
    assert("address"@[0] == 'a' && "preview"@[0] == 'p');
    let first = ("address"@, w.key);
    let second = ("display_title"@, w.display_label);
    let third = ("class"@, w.window_class);
    let fourth = ("original_title"@, w.original_title);
    let f1 = seq![first];
    let f2 = seq![first, second];
    let f3 = seq![first, second, third];
    let f4 = seq![first, second, third, fourth];
    assert(f2.drop_last() =~= f1);
    assert(f3.drop_last() =~= f2);
    assert(f4.drop_last() =~= f3);
    assert forall|name: Seq<char>| #[trigger] lookup(f4, name) == (if name == fourth.0 {
        Some(fourth.1)
    } else if name == third.0 {
        Some(third.1)
    } else if name == second.0 {
        Some(second.1)
    } else if name == first.0 {
        Some(first.1)
    } else {
        None
    }) by {
        assert(lookup(f1.drop_last(), name) == None::<Seq<char>>);
        assert(lookup(f2, name) == if name == second.0 {
            Some(second.1)
        } else {
            lookup(f1, name)
        });
        assert(lookup(f3, name) == if name == third.0 {
            Some(third.1)
        } else {
            lookup(f2, name)
        });
    }
    if let Some(path) = w.preview_path {
        let f5 = f4.push(("preview"@, path));
        assert(f5.drop_last() =~= f4);
        assert(lookup(f5, "address"@) == lookup(f4, "address"@));
        assert(lookup(f5, "display_title"@) == lookup(f4, "display_title"@));
        assert(lookup(f5, "class"@) == lookup(f4, "class"@));
    }
}

/// A written record is read as the record, and the reading goes on behind
/// it.
pub proof fn lemma_records_object(w: WindowView, rest: Seq<char>)
    ensures
        records(object_text(w) + rest) == seq![w] + records(rest),
{
    let body = members_text(fields_of(w));
    let s = object_text(w) + rest;
    lemma_object_end_of_text(fields_of(w), rest);
    lemma_members_of_text(fields_of(w));
    lemma_record_of_fields(w);
    assert(s.drop_first() =~= body + seq!['}'] + rest);
    assert(s.subrange(1, body.len() as int + 1) =~= body);
    assert(s.skip(body.len() as int + 2) =~= rest);
}

/// A character that opens no object is passed over by the reading of
/// records.
pub proof fn lemma_records_skip(c: char, rest: Seq<char>)
    requires
        c != '{',
    ensures
        records(seq![c] + rest) == records(rest),
{
    assert((seq![c] + rest).drop_first() =~= rest);
}

/// Written records are read as the records.
pub proof fn lemma_records_of_text(all: Seq<WindowView>)
    ensures
        records(joined(all.map_values(|w: WindowView| object_text(w)), ',')) == all,
    decreases all.len(),
{
    let f = |w: WindowView| object_text(w);
    let parts = all.map_values(f);
    if all.len() == 1 {
        lemma_records_object(all[0], Seq::empty());
        assert(object_text(all[0]) + Seq::<char>::empty() =~= object_text(all[0]));
    } else if all.len() > 1 {
        let tail = all.drop_first();
        lemma_records_of_text(tail);
        assert(parts.drop_first() =~= tail.map_values(f));
        let after_comma = joined(tail.map_values(f), ',');
        lemma_records_object(all[0], seq![','] + after_comma);
        lemma_records_skip(',', after_comma);
        assert(joined(parts, ',') =~= object_text(all[0]) + (seq![','] + after_comma));
    }
}

/// Round trip: the text written for any sequence of records, whatever
/// characters their fields hold, is read as that sequence.
pub proof fn decode_inverts_encode(all: Seq<WindowView>)
    ensures
        decoded(encoded(all)) == all,
{
    let inner = joined(all.map_values(|w: WindowView| object_text(w)), ',');
    let text = encoded(all);
    lemma_records_of_text(all);
    assert(text[0] == '[' && text.last() == ']');
    assert(trimmed(text) == text);
    assert(text.subrange(1, text.len() - 1) =~= inner);
}

} // verus!
