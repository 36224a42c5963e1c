//! Writing the store as text and reading it back.

use vstd::prelude::*;
use crate::format::{
    bare_len, behind_comma, decoded, encoded, ends_bare, escaped, joined,
    lemma_object_end_bounds, literal, lookup, lookup_or_empty, member_text, members,
    members_text, nested_len, object_end, object_text, quoted, record_of, records, value, Pairs,
};
use crate::record::{MinimizedWindow, WindowView};
use crate::text::{
    chars_of, chars_range, is_space_char, skip_spaces, skip_spaces_back, string_of_range,
};

verus! {

// ---------------------------------------------------------------- writing

/// Escaping goes through a text piece by piece.
pub proof fn lemma_escaped_concat(a: Seq<char>, b: Seq<char>)
    ensures
        escaped(a + b) == escaped(a) + escaped(b),
    decreases a.len(),
{
    if a.len() > 0 {
        lemma_escaped_concat(a.drop_first(), b);
        assert((a + b).drop_first() =~= a.drop_first() + b);
    }
}

/// What joining makes of a list with one more part at its end.
pub proof fn lemma_joined_push(parts: Seq<Seq<char>>, last: Seq<char>, separator: char)
    ensures
        joined(parts.push(last), separator) == (if parts.len() == 0 {
            last
        } else {
            joined(parts, separator) + seq![separator] + last
        }),
    decreases parts.len(),
{
    let all = parts.push(last);
    if parts.len() > 0 {
        lemma_joined_push(parts.drop_first(), last, separator);
        assert(all.drop_first() =~= parts.drop_first().push(last));
    }
}

/// What the text of a list of members is with one more member at its end.
pub proof fn lemma_members_text_push(pairs: Pairs, last: (Seq<char>, Seq<char>))
    ensures
        members_text(pairs.push(last)) == (if pairs.len() == 0 {
            member_text(last)
        } else {
            members_text(pairs) + seq![','] + member_text(last)
        }),
{
    let f = |p: (Seq<char>, Seq<char>)| member_text(p);
    assert(pairs.push(last).map_values(f) =~= pairs.map_values(f).push(member_text(last)));
    lemma_joined_push(pairs.map_values(f), member_text(last), ',');
}

/// Appends `s` to `out` as a string literal.
pub fn push_quoted(out: &mut String, s: &str)
    ensures
        final(out)@ == old(out)@ + quoted(s@),
{
    let ghost before = out@;
    let v = chars_of(s);
    out.push('"');
    let mut i: usize = 0;
    while i < v.len()
        invariant
            i <= v.len(),
            out@ == before + seq!['"'] + escaped(v@.take(i as int)),
        decreases v.len() - i,
    {
        let c = v[i];
        proof {
            lemma_escaped_concat(v@.take(i as int), seq![c]);
            assert(v@.take(i + 1) =~= v@.take(i as int) + seq![c]);
            assert(escaped(seq![c].drop_first()) =~= Seq::<char>::empty());
        }
        if c == '"' || c == '\\' {
            out.push('\\');
        }
        out.push(c);
        i += 1;
    }
    out.push('"');
    assert(v@.take(v.len() as int) =~= s@);
}

/// Appends the member with the given name and value to `out`.
pub fn push_member(out: &mut String, name: &str, value: &str)
    ensures
        final(out)@ == old(out)@ + member_text((name@, value@)),
{
    push_quoted(out, name);
    out.push(':');
    push_quoted(out, value);
}

/// Appends the record to `out` as an object.
pub fn push_object(out: &mut String, window: &MinimizedWindow)
    ensures
        final(out)@ == old(out)@ + object_text(window@),
{
    let ghost before = out@;
    let ghost w = window@;
    let ghost first = ("address"@, w.key);
    let ghost second = ("display_title"@, w.display_label);
    let ghost third = ("class"@, w.window_class);
    let ghost fourth = ("original_title"@, w.original_title);
    out.push('{');
    push_member(out, "address", window.key.as_str());
    out.push(',');
    push_member(out, "display_title", window.display_label.as_str());
    out.push(',');
    push_member(out, "class", window.window_class.as_str());
    out.push(',');
    push_member(out, "original_title", window.original_title.as_str());
    proof {
        let none = Seq::<(Seq<char>, Seq<char>)>::empty();
        lemma_members_text_push(none, first);
        lemma_members_text_push(seq![first], second);
        lemma_members_text_push(seq![first, second], third);
        lemma_members_text_push(seq![first, second, third], fourth);
        assert(seq![first].push(second) =~= seq![first, second]);
        assert(seq![first, second].push(third) =~= seq![first, second, third]);
        assert(seq![first, second, third].push(fourth) =~= seq![first, second, third, fourth]);
        assert(out@ =~= before + seq!['{'] + members_text(seq![first, second, third, fourth]));
    }
    match &window.preview_path {
        Some(path) => {
            out.push(',');
            push_member(out, "preview", path.as_str());
            proof {
                lemma_members_text_push(seq![first, second, third, fourth], ("preview"@, path@));
            }
        },
        None => {},
    }
    out.push('}');
}

/// The text form of the records.
pub fn create_json_output(windows: &[MinimizedWindow]) -> (text: String)
    ensures
        text@ == encoded(windows.deep_view()),
{
    let ghost all = windows.deep_view();
    let ghost f = |w: WindowView| object_text(w);
    let mut out = String::new();
    out.push('[');
    let mut i: usize = 0;
    while i < windows.len()
        invariant
            i <= windows.len(),
            all == windows.deep_view(),
            f == |w: WindowView| object_text(w),
            out@ == seq!['['] + joined(all.take(i as int).map_values(f), ','),
        decreases windows.len() - i,
    {
        proof {
            lemma_joined_push(all.take(i as int).map_values(f), object_text(all[i as int]), ',');
            assert(all.take(i + 1).map_values(f) =~= all.take(i as int).map_values(f).push(
                object_text(all[i as int]),
            ));
        }
        if i > 0 {
            out.push(',');
        }
        push_object(&mut out, &windows[i]);
        i += 1;
    }
    out.push(']');
    assert(all.take(windows.len() as int) =~= all);
    out
}

// ---------------------------------------------------------------- reading

/// What reading a literal gives, with `head` put before the content.
pub open spec fn prefixed(head: Seq<char>, read: Option<(Seq<char>, Seq<char>)>) -> Option<
    (Seq<char>, Seq<char>),
> {
    match read {
        Some((content, rest)) => Some((head + content, rest)),
        None => None,
    }
}

/// The end of an object, counted from `by` characters further left.
pub open spec fn shifted(end: Option<int>, by: int) -> Option<int> {
    match end {
        Some(k) => Some(k + by),
        None => None,
    }
}

/// Putting a character before what was read is putting it behind the head.
proof fn lemma_prefixed_push(head: Seq<char>, c: char, read: Option<(Seq<char>, Seq<char>)>)
    ensures
        prefixed(head, prefixed(seq![c], read)) == prefixed(head.push(c), read),
{
}

/// Reads the string literal of `t` whose opening quote stands just before
/// `start`: its content, and the index just behind its closing quote.
pub fn read_literal(t: &Vec<char>, start: usize) -> (r: Option<(String, usize)>)
    requires
        start <= t.len(),
    ensures
        match literal(t@.skip(start as int)) {
            Some((content, rest)) => r matches Some((c, next)) && c@ == content && start < next
                <= t.len() && rest == t@.skip(next as int),
            None => r is None,
        },
{
    let ghost whole = literal(t@.skip(start as int));
    let mut content = String::new();
    let mut i: usize = start;
    assert(whole == prefixed(content@, whole));
    while i < t.len()
        invariant
            start <= i <= t.len(),
            whole == literal(t@.skip(start as int)),
            whole == prefixed(content@, literal(t@.skip(i as int))),
        decreases t.len() - i,
    {
        let c = t[i];
        let ghost s = t@.skip(i as int);
        if c == '"' {
            return Some((content, i + 1));
        } else if c == '\\' {
            if i + 1 >= t.len() {
                return None;
            }
            let d = t[i + 1];
            proof {
                assert(s.skip(2) =~= t@.skip(i + 2));
                lemma_prefixed_push(content@, d, literal(t@.skip(i + 2)));
            }
            content.push(d);
            i += 2;
        } else {
            proof {
                assert(s.drop_first() =~= t@.skip(i + 1));
                lemma_prefixed_push(content@, c, literal(t@.skip(i + 1)));
            }
            content.push(c);
            i += 1;
        }
    }
    None
}

/// Finds the closing brace of the object of `t` whose opening brace stands
/// just before `start`.
pub fn find_object_end(t: &Vec<char>, start: usize) -> (r: Option<usize>)
    requires
        start <= t.len(),
    ensures
        match object_end(t@.skip(start as int)) {
            Some(k) => r == Some((start + k) as usize) && 0 <= k && start + k < t.len(),
            None => r is None,
        },
{
    let ghost whole = object_end(t@.skip(start as int));
    let mut i: usize = start;
    proof {
        lemma_object_end_bounds(t@.skip(start as int));
    }
    while i < t.len()
        invariant
            start <= i <= t.len(),
            whole == object_end(t@.skip(start as int)),
            whole == shifted(object_end(t@.skip(i as int)), i - start),
        decreases t.len() - i,
    {
        let c = t[i];
        let ghost s = t@.skip(i as int);
        if c == '}' {
            return Some(i);
        } else if c == '"' {
            assert(s.drop_first() =~= t@.skip(i + 1));
            match read_literal(t, i + 1) {
                None => {
                    return None;
                },
                Some((_, next)) => {
                    i = next;
                },
            }
        } else {
            assert(s.drop_first() =~= t@.skip(i + 1));
            i += 1;
        }
    }
    None
}

/// Whether `c` ends a value that is written without quotes.
pub fn is_bare_end(c: char) -> (b: bool)
    ensures
        b == ends_bare(c),
{
    is_space_char(c) || c == ',' || c == '}' || c == ']' || c == '"'
}

/// The index behind the value without quotes that starts at `start`.
pub fn read_bare(t: &Vec<char>, start: usize) -> (end: usize)
    requires
        start <= t.len(),
    ensures
        start <= end <= t.len(),
        end - start == bare_len(t@.skip(start as int)),
{
    let mut i: usize = start;
    while i < t.len() && !is_bare_end(t[i])
        invariant
            start <= i <= t.len(),
            bare_len(t@.skip(start as int)) == (i - start) + bare_len(t@.skip(i as int)),
        decreases t.len() - i,
    {
        assert(t@.skip(i as int).drop_first() =~= t@.skip(i + 1));
        i += 1;
    }
    i
}

/// The length of a nested value, counted from `by` characters further left.
pub open spec fn lengthened(len: Option<nat>, by: nat) -> Option<nat> {
    match len {
        Some(n) => Some(n + by),
        None => None,
    }
}

/// The index behind the nested value of `t` that opens at `start`.
pub fn read_nested(t: &Vec<char>, start: usize) -> (r: Option<usize>)
    requires
        start <= t.len(),
    ensures
        match nested_len(t@.skip(start as int), 0) {
            Some(n) => r == Some((start + n) as usize) && start + n <= t.len(),
            None => r is None,
        },
{
    let ghost whole = nested_len(t@.skip(start as int), 0);
    let mut depth: usize = 0;
    let mut i: usize = start;
    while i < t.len()
        invariant
            start <= i <= t.len(),
            depth <= i - start,
            whole == nested_len(t@.skip(start as int), 0),
            whole == lengthened(nested_len(t@.skip(i as int), depth as nat), (i - start) as nat),
        decreases t.len() - i,
    {
        let c = t[i];
        let ghost s = t@.skip(i as int);
        assert(s.drop_first() =~= t@.skip(i + 1));
        if c == '"' {
            match read_literal(t, i + 1) {
                None => {
                    return None;
                },
                Some((_, next)) => {
                    i = next;
                },
            }
        } else if c == '}' || c == ']' {
            if depth <= 1 {
                return Some(i + 1);
            }
            depth -= 1;
            i += 1;
        } else {
            if c == '{' || c == '[' {
                depth += 1;
            }
            i += 1;
        }
    }
    None
}

/// Reads the value of `t` that starts at `start`: the value, and the index
/// behind it.
pub fn read_value(t: &Vec<char>, start: usize) -> (r: Option<(String, usize)>)
    requires
        start <= t.len(),
    ensures
        match value(t@.skip(start as int)) {
            Some((content, rest)) => r matches Some((c, next)) && c@ == content && start <= next
                <= t.len() && rest == t@.skip(next as int),
            None => r is None,
        },
{
    let ghost s = t@.skip(start as int);
    if start < t.len() && t[start] == '"' {
        assert(s.drop_first() =~= t@.skip(start + 1));
        read_literal(t, start + 1)
    } else if start < t.len() && (t[start] == '{' || t[start] == '[') {
        match read_nested(t, start) {
            Some(end) => {
                assert(s.take(end - start) =~= t@.subrange(start as int, end as int));
                assert(s.skip(end - start) =~= t@.skip(end as int));
                Some((string_of_range(t, start, end), end))
            },
            None => None,
        }
    } else {
        let end = read_bare(t, start);
        assert(s.take(end - start) =~= t@.subrange(start as int, end as int));
        assert(s.skip(end - start) =~= t@.skip(end as int));
        Some((string_of_range(t, start, end), end))
    }
}

/// The index behind the first comma of `t`, from `start` on, that stands
/// outside a string literal; the length of `t` where there is none.
pub fn skip_behind_comma(t: &Vec<char>, start: usize) -> (next: usize)
    requires
        start <= t.len(),
    ensures
        start <= next <= t.len(),
        behind_comma(t@.skip(start as int)) == t@.skip(next as int),
{
    let mut i: usize = start;
    while i < t.len()
        invariant
            start <= i <= t.len(),
            behind_comma(t@.skip(start as int)) == behind_comma(t@.skip(i as int)),
        decreases t.len() - i,
    {
        let c = t[i];
        assert(t@.skip(i as int).drop_first() =~= t@.skip(i + 1));
        if c == ',' {
            return i + 1;
        } else if c == '"' {
            match read_literal(t, i + 1) {
                None => {
                    assert(t@.skip(t.len() as int) =~= Seq::<char>::empty());
                    return t.len();
                },
                Some((_, next)) => {
                    i = next;
                },
            }
        } else {
            i += 1;
        }
    }
    i
}

/// The members found in `t`.
pub fn read_members(t: &Vec<char>) -> (pairs: Vec<(String, String)>)
    ensures
        pairs.deep_view() == members(t@),
{
    let mut pairs: Vec<(String, String)> = Vec::new();
    let mut i: usize = 0;
    assert(t@.skip(0) =~= t@);
    while i < t.len()
        invariant
            i <= t.len(),
            members(t@) == pairs.deep_view() + members(t@.skip(i as int)),
        decreases t.len() - i,
    {
        let ghost found = pairs.deep_view();
        assert(t@.skip(i as int).drop_first() =~= t@.skip(i + 1));
        if t[i] == '"' {
            match read_literal(t, i + 1) {
                None => {
                    return pairs;
                },
                Some((name, after_name)) => {
                    let colon = skip_spaces(t, after_name);
                    if colon < t.len() && t[colon] == ':' {
                        assert(t@.skip(colon as int).drop_first() =~= t@.skip(colon + 1));
                        let start = skip_spaces(t, colon + 1);
                        match read_value(t, start) {
                            None => {
                                return pairs;
                            },
                            Some((content, after)) => {
                                let ghost pair = (name@, content@);
                                let next = skip_behind_comma(t, after);
                                pairs.push((name, content));
                                assert(found + (seq![pair] + members(t@.skip(next as int)))
                                    =~= found.push(pair) + members(t@.skip(next as int)));
                                assert(pairs.deep_view() =~= found.push(pair));
                                i = next;
                            },
                        }
                    } else {
                        i = after_name;
                    }
                },
            }
        } else {
            i += 1;
        }
    }
    pairs
}

/// The members found in a text of names and values, in the order in which
/// they stand there: at most one from each comma-separated part of the
/// text, and none from inside a value.
pub fn parse_window_info(info: &str) -> (pairs: Vec<(String, String)>)
    ensures
        pairs.deep_view() == members(info@),
{
    let t = chars_of(info);
    read_members(&t)
}

/// The value of the last member named `name`.
pub fn field(pairs: &Vec<(String, String)>, name: &str) -> (value: Option<String>)
    ensures
        value.deep_view() == lookup(pairs.deep_view(), name@),
{
    let ghost all = pairs.deep_view();
    let wanted = name.to_owned();
    let mut i: usize = pairs.len();
    assert(all.take(i as int) =~= all);
    while i > 0
        invariant
            i <= pairs.len(),
            all == pairs.deep_view(),
            wanted@ == name@,
            lookup(all, name@) == lookup(all.take(i as int), name@),
        decreases i,
    {
        i -= 1;
        assert(all.take(i + 1).drop_last() =~= all.take(i as int));
        if pairs[i].0 == wanted {
            return Some(pairs[i].1.clone());
        }
    }
    None
}

/// The value of the last member named `name`, or the empty string where no
/// member has that name.
pub fn field_or_empty(pairs: &Vec<(String, String)>, name: &str) -> (value: String)
    ensures
        value@ == lookup_or_empty(pairs.deep_view(), name@),
{
    match field(pairs, name) {
        Some(value) => value,
        None => String::new(),
    }
}

/// The record that a list of members stands for.
pub fn window_of(pairs: &Vec<(String, String)>) -> (window: MinimizedWindow)
    ensures
        window@ == record_of(pairs.deep_view()),
{
    MinimizedWindow {
        key: field_or_empty(pairs, "address"),
        display_label: field_or_empty(pairs, "display_title"),
        window_class: field_or_empty(pairs, "class"),
        original_title: field_or_empty(pairs, "original_title"),
        preview_path: field(pairs, "preview"),
    }
}

/// The records found in `t`.
pub fn read_records(t: &Vec<char>) -> (windows: Vec<MinimizedWindow>)
    ensures
        windows.deep_view() == records(t@),
{
    let mut windows: Vec<MinimizedWindow> = Vec::new();
    let mut i: usize = 0;
    assert(t@.skip(0) =~= t@);
    while i < t.len()
        invariant
            i <= t.len(),
            records(t@) == windows.deep_view() + records(t@.skip(i as int)),
        decreases t.len() - i,
    {
        let ghost s = t@.skip(i as int);
        assert(s.drop_first() =~= t@.skip(i + 1));
        if t[i] == '{' {
            match find_object_end(t, i + 1) {
                None => {
                    i += 1;
                },
                Some(end) => {
                    let body = chars_range(t, i + 1, end);
                    let pairs = read_members(&body);
                    let window = window_of(&pairs);
                    proof {
                        let k = end - (i + 1);
                        assert(s.subrange(1, k + 1) =~= t@.subrange(i + 1, end as int));
                        assert(s.skip(k + 2) =~= t@.skip(end + 1));
                    }
                    windows.push(window);
                    i = end + 1;
                },
            }
        } else {
            i += 1;
        }
    }
    windows
}

/// The records that the text stands for: none, unless the text is a
/// bracketed list.
pub fn parse_windows_from_json(content: &str) -> (windows: Vec<MinimizedWindow>)
    ensures
        windows.deep_view() == decoded(content@),
{
    let t = chars_of(content);
    let from = skip_spaces(&t, 0);
    let to = skip_spaces_back(&t, from, t.len());
    assert(t@.skip(0) =~= t@);
    assert(t@.skip(from as int) =~= t@.subrange(from as int, t.len() as int));
    let ghost list = t@.subrange(from as int, to as int);
    if to - from >= 2 && t[from] == '[' && t[to - 1] == ']' {
        let inner = chars_range(&t, from + 1, to - 1);
        assert(list.subrange(1, list.len() - 1) =~= inner@);
        read_records(&inner)
    } else {
        let none: Vec<MinimizedWindow> = Vec::new();
        assert(none.deep_view() =~= Seq::<WindowView>::empty());
        none
    }
}

} // verus!
