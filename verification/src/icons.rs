//! The glyph shown for an application, found by its class.

use vstd::prelude::*;
use crate::text::{chars_of, contains, contains_chars, lowercase_of};

verus! {

/// How many entries the table has.
pub const ICON_ENTRIES: usize = 10;

/// The table of the glyphs: fragments of application names in lower case,
/// each with its glyph. Earlier entries come first in the search.
pub open spec fn icon_table() -> Seq<(Seq<char>, Seq<char>)> {
    seq![
        ("firefox"@, ""@),
        ("alacritty"@, ""@),
        ("discord"@, "\u{f066f}"@),
        ("steam"@, ""@),
        ("chromium"@, ""@),
        ("code"@, "\u{f0a1e}"@),
        ("spotify"@, ""@),
        ("ghostty"@, ""@),
        ("kitty"@, ""@),
        ("default"@, "\u{f05b2}"@),
    ]
}

/// The glyph of an application that no entry of the table names.
pub open spec fn default_icon() -> Seq<char> {
    "\u{f05b2}"@
}

/// The glyph of the first entry, from the entry `from` on, whose fragment
/// occurs in `lower`; the default glyph where there is no such entry.
pub open spec fn first_match(lower: Seq<char>, from: int) -> Seq<char>
    decreases icon_table().len() - from,
{
    if from < 0 || from >= icon_table().len() {
        default_icon()
    } else if contains(lower, icon_table()[from].0) {
        icon_table()[from].1
    } else {
        first_match(lower, from + 1)
    }
}

/// The glyph for a class that is already in lower case.
pub open spec fn icon_for(lower: Seq<char>) -> Seq<char> {
    first_match(lower, 0)
}

/// The entry `index` of the table: its fragment and its glyph.
pub fn icon_entry(index: usize) -> (entry: (&'static str, &'static str))
    requires
        index < ICON_ENTRIES,
    ensures
        (entry.0@, entry.1@) == icon_table()[index as int],
{
    if index == 0 {
        ("firefox", "")
    } else if index == 1 {
        ("alacritty", "")
    } else if index == 2 {
        ("discord", "\u{f066f}")
    } else if index == 3 {
        ("steam", "")
    } else if index == 4 {
        ("chromium", "")
    } else if index == 5 {
        ("code", "\u{f0a1e}")
    } else if index == 6 {
        ("spotify", "")
    } else if index == 7 {
        ("ghostty", "")
    } else if index == 8 {
        ("kitty", "")
    } else {
        ("default", "\u{f05b2}")
    }
}

/// The glyph for a class that is already in lower case: that of the first
/// entry of the table whose fragment occurs in the class, or the default
/// glyph.
pub fn icon_for_lowered(lower: &str) -> (icon: String)
    ensures
        icon@ == icon_for(lower@),
{
    let hay = chars_of(lower);
    let mut i: usize = 0;
    while i < ICON_ENTRIES
        invariant
            i <= ICON_ENTRIES,
            hay@ == lower@,
            icon_for(lower@) == first_match(lower@, i as int),
        decreases ICON_ENTRIES - i,
    {
        let (fragment, glyph) = icon_entry(i);
        let needle = chars_of(fragment);
        if contains_chars(&hay, &needle) {
            return glyph.to_owned();
        }
        i += 1;
    }
    "\u{f05b2}".to_owned()
}

/// The glyph for the application class `class_name`, whatever the case of
/// its letters.
pub fn get_app_icon(class_name: &str) -> (icon: String)
    ensures
        icon@ == icon_for(lowercase_of(class_name@)),
{
    let lower = class_name.to_lowercase();
    icon_for_lowered(lower.as_str())
}

// ------------------------------------------------------------------- laws

/// The first entry whose fragment occurs in the class decides the glyph,
/// whatever entries behind it match too.
pub proof fn first_entry_wins(lower: Seq<char>, index: int)
    requires
        0 <= index < icon_table().len(),
        contains(lower, icon_table()[index].0),
        forall|j: int| 0 <= j < index ==> !contains(lower, #[trigger] icon_table()[j].0),
    ensures
        icon_for(lower) == icon_table()[index].1,
{
    lemma_first_match_from(lower, index, 0);
}

/// The search from `from` on finds the entry `index`, where none before it
/// matches.
proof fn lemma_first_match_from(lower: Seq<char>, index: int, from: int)
    requires
        0 <= from <= index < icon_table().len(),
        contains(lower, icon_table()[index].0),
        forall|j: int| from <= j < index ==> !contains(lower, #[trigger] icon_table()[j].0),
    ensures
        first_match(lower, from) == icon_table()[index].1,
    decreases index - from,
{
    if from < index {
        lemma_first_match_from(lower, index, from + 1);
    }
}

/// A class in which no fragment of the table occurs gets the default glyph.
pub proof fn no_entry_gives_default(lower: Seq<char>)
    requires
        forall|j: int| 0 <= j < icon_table().len() ==> !contains(lower, #[trigger] icon_table()[j].0),
    ensures
        icon_for(lower) == default_icon(),
{
    lemma_no_match_from(lower, 0);
}

/// The search from `from` on ends at the default, where no entry matches.
proof fn lemma_no_match_from(lower: Seq<char>, from: int)
    requires
        0 <= from <= icon_table().len(),
        forall|j: int| from <= j < icon_table().len() ==> !contains(lower, #[trigger] icon_table()[j].0),
    ensures
        first_match(lower, from) == default_icon(),
    decreases icon_table().len() - from,
{
    if from < icon_table().len() {
        lemma_no_match_from(lower, from + 1);
    }
}

} // verus!
