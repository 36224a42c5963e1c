//! What the reading of members keeps to, whatever the text: no more members
//! than the text has comma-separated parts with a colon in them.

use vstd::prelude::*;
use crate::format::{
    behind_comma, lemma_behind_comma_suffix, lemma_literal_rest, lemma_trim_start_suffix,
    lemma_value_rest, literal, members, value,
};
use crate::text::trim_start;

verus! {

/// The number of the comma-separated parts of `s` that hold a colon. `seen`
/// says whether the part that `s` starts in holds one before `s`.
pub open spec fn colon_parts(s: Seq<char>, seen: bool) -> nat
    decreases s.len(),
{
    if s.len() == 0 {
        if seen {
            1
        } else {
            0
        }
    } else if s[0] == ',' {
        colon_parts(s.drop_first(), false) + if seen {
            1nat
        } else {
            0nat
        }
    } else {
        colon_parts(s.drop_first(), seen || s[0] == ':')
    }
}

/// Whether `x` is an end piece of `s`.
pub open spec fn ends(s: Seq<char>, x: Seq<char>) -> bool {
    x.len() <= s.len() && x == s.skip(s.len() - x.len())
}

/// An end piece of an end piece is an end piece.
proof fn lemma_ends_of_ends(s: Seq<char>, x: Seq<char>, y: Seq<char>)
    requires
        ends(s, x),
        ends(x, y),
    ensures
        ends(s, y),
{
    assert(x.skip(x.len() - y.len()) =~= s.skip(s.len() - y.len()));
}

/// A colon seen before can only add to the count.
proof fn lemma_seen_adds(s: Seq<char>)
    ensures
        colon_parts(s, false) <= colon_parts(s, true),
    decreases s.len(),
{
    if s.len() > 0 && s[0] != ',' {
        lemma_seen_adds(s.drop_first());
    }
}

/// An end piece has no more parts with a colon than the whole.
proof fn lemma_end_piece_has_fewer(s: Seq<char>, seen: bool, x: Seq<char>)
    requires
        ends(s, x),
    ensures
        colon_parts(x, false) <= colon_parts(s, seen),
    decreases s.len(),
{
    if x.len() == s.len() {
        assert(s.skip(0) =~= s);
        lemma_seen_adds(s);
    } else {
        let rest = s.drop_first();
        assert(rest.skip(rest.len() - x.len()) =~= s.skip(s.len() - x.len()));
        lemma_end_piece_has_fewer(rest, false, x);
        lemma_end_piece_has_fewer(rest, true, x);
    }
}

/// A text with a colon has a part with a colon.
proof fn lemma_colon_counts(s: Seq<char>, seen: bool, colon: int)
    requires
        seen || (0 <= colon < s.len() && s[colon] == ':'),
    ensures
        colon_parts(s, seen) >= 1,
    decreases s.len(),
{
    if s.len() > 0 && s[0] != ',' {
        lemma_colon_counts(s.drop_first(), seen || s[0] == ':', colon - 1);
    } else if s.len() > 0 && !seen {
        lemma_colon_counts(s.drop_first(), false, colon - 1);
    }
}

/// A colon and a comma behind it close a part with a colon: the text has
/// one such part more than what stands behind the comma.
proof fn lemma_colon_then_comma(s: Seq<char>, seen: bool, colon: int, comma: int)
    requires
        0 <= comma < s.len(),
        s[comma] == ',',
        seen || (0 <= colon < comma && s[colon] == ':'),
    ensures
        colon_parts(s, seen) >= 1 + colon_parts(s.skip(comma + 1), false),
    decreases s.len(),
{
    let rest = s.drop_first();
    if comma == 0 {
        assert(s.skip(1) =~= rest);
    } else {
        assert(rest.skip(comma) =~= s.skip(comma + 1));
        if s[0] != ',' {
            lemma_colon_then_comma(rest, seen || s[0] == ':', colon - 1, comma - 1);
        } else if seen {
            assert(ends(rest, rest.skip(comma))) by {
                assert(rest.skip(rest.len() - rest.skip(comma).len()) =~= rest.skip(comma));
            }
            lemma_end_piece_has_fewer(rest, false, rest.skip(comma));
        } else {
            lemma_colon_then_comma(rest, false, colon - 1, comma - 1);
        }
    }
}

/// Where something stands behind the first comma outside a literal, a comma
/// stands just before it.
proof fn lemma_comma_stands_before(s: Seq<char>)
    ensures
        behind_comma(s).len() > 0 ==> behind_comma(s).len() < s.len() && s[s.len() - behind_comma(
            s,
        ).len() - 1] == ',',
    decreases s.len(),
{
    if s.len() > 0 && s[0] == '"' {
        lemma_literal_rest(s.drop_first());
        if let Some((_, rest)) = literal(s.drop_first()) {
            lemma_comma_stands_before(rest);
        }
    } else if s.len() > 0 && s[0] != ',' {
        lemma_comma_stands_before(s.drop_first());
    }
}

/// The reading finds no more members than the text has comma-separated
/// parts with a colon in them: nothing inside a value is read as a member,
/// and no two members are read from one part.
pub proof fn members_are_parts_with_a_colon(s: Seq<char>)
    ensures
        members(s).len() <= colon_parts(s, false),
    decreases s.len(), 1nat,
{
    if s.len() > 0 && s[0] != '"' {
        members_are_parts_with_a_colon(s.drop_first());
        assert(ends(s, s.drop_first())) by {
            assert(s.skip(1) =~= s.drop_first());
        }
        lemma_end_piece_has_fewer(s, false, s.drop_first());
    } else if s.len() > 0 {
        let tail = s.drop_first();
        assert(ends(s, tail)) by {
            assert(s.skip(1) =~= tail);
        }
        lemma_literal_rest(tail);
        if let Some((_, rest)) = literal(tail) {
            lemma_ends_of_ends(s, tail, rest);
            let colon = trim_start(rest);
            lemma_trim_start_suffix(rest);
            lemma_ends_of_ends(s, rest, colon);
            if colon.len() > 0 && colon[0] == ':' {
                lemma_member_is_a_part(s, colon);
            } else {
                members_are_parts_with_a_colon(rest);
                lemma_end_piece_has_fewer(s, false, rest);
            }
        }
    }
}

/// The part of the law for a text `s` in which a name is followed by the
/// colon that `colon` starts with.
proof fn lemma_member_is_a_part(s: Seq<char>, colon: Seq<char>)
    requires
        ends(s, colon),
        colon.len() > 0,
        colon[0] == ':',
    ensures
        value(trim_start(colon.drop_first())) matches Some((_, after)) ==> 1 + members(
            behind_comma(after),
        ).len() <= colon_parts(s, false),
    decreases s.len(), 0nat,
{
    let at_colon = s.len() - colon.len();
    assert(s[at_colon] == ':');
    let start = trim_start(colon.drop_first());
    lemma_trim_start_suffix(colon.drop_first());
    assert(ends(colon, colon.drop_first())) by {
        assert(colon.skip(1) =~= colon.drop_first());
    }
    lemma_ends_of_ends(colon, colon.drop_first(), start);
    lemma_ends_of_ends(s, colon, start);
    if let Some((_, after)) = value(start) {
        lemma_value_rest(start);
        lemma_ends_of_ends(s, start, after);
        let behind = behind_comma(after);
        lemma_behind_comma_suffix(after);
        lemma_ends_of_ends(s, after, behind);
        members_are_parts_with_a_colon(behind);
        if behind.len() == 0 {
            lemma_colon_counts(s, false, at_colon);
        } else {
            lemma_comma_stands_before(after);
            let at_comma = s.len() - behind.len() - 1;
            assert(s[at_comma] == after[after.len() - behind.len() - 1]);
            assert(s.skip(at_comma + 1) =~= behind);
            lemma_colon_then_comma(s, false, at_colon, at_comma);
        }
    }
}

} // verus!
