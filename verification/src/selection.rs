//! The picker: what it is shown, and what its answer means.

use vstd::prelude::*;
use crate::codec::lemma_joined_push;
use crate::format::joined;
use crate::record::{MinimizedWindow, WindowView};
use crate::text::{
    decimal, is_space, parse_usize, trim, trim_start, trimmed, unsigned_failure, unsigned_value,
    value_of_decimal, NumberError,
};

verus! {

/// What the answer of the picker means.
#[derive(Clone, Copy, Debug, PartialEq, Eq)]
pub enum Selection {
    /// The picker was left without a choice.
    Cancelled,
    /// The record at this index of the list was chosen.
    Chosen(usize),
    /// The answer is a number, but the list has no record at that index.
    OutOfRange(usize),
    /// The answer is no number, for this reason.
    Invalid(NumberError),
}

/// What the answer `raw` means for a list of `count` records. White space
/// around the answer does not count. An empty answer is a cancellation; a
/// number below `count` chooses the record at that index. An answer that is
/// no number is refused with the reason why it is none.
pub open spec fn selection_of(raw: Seq<char>, count: usize) -> Selection {
    let answer = trimmed(raw);
    if answer.len() == 0 {
        Selection::Cancelled
    } else {
        match unsigned_value(answer) {
            Some(n) if n < count => Selection::Chosen(n as usize),
            Some(n) if n <= usize::MAX => Selection::OutOfRange(n as usize),
            _ => Selection::Invalid(unsigned_failure(answer, usize::MAX as nat)),
        }
    }
}

/// What the answer `raw` of the picker means for a list of `count` records.
pub fn interpret_selection(raw: &str, count: usize) -> (selection: Selection)
    ensures
        selection == selection_of(raw@, count),
{
    let answer = trim(raw);
    if answer.as_str().unicode_len() == 0 {
        return Selection::Cancelled;
    }
    match parse_usize(answer.as_str()) {
        Ok(index) => {
            if index < count {
                Selection::Chosen(index)
            } else {
                Selection::OutOfRange(index)
            }
        },
        Err(why) => Selection::Invalid(why),
    }
}

/// The line that stands for a record in the picker: its class and its
/// title.
pub open spec fn menu_label(w: WindowView) -> Seq<char> {
    w.window_class + " - "@ + w.original_title
}

/// What the picker is given: one line for each record, in the order of the
/// store.
pub open spec fn menu_text(store: Seq<WindowView>) -> Seq<char> {
    joined(store.map_values(|w: WindowView| menu_label(w)), '\n')
}

/// What the picker is given for the records of the store.
pub fn menu_input(store: &Vec<MinimizedWindow>) -> (input: String)
    ensures
        input@ == menu_text(store.deep_view()),
{
    let ghost all = store.deep_view();
    let ghost f = |w: WindowView| menu_label(w);
    let mut input = String::new();
    let mut i: usize = 0;
    while i < store.len()
        invariant
            i <= store.len(),
            all == store.deep_view(),
            f == |w: WindowView| menu_label(w),
            input@ == joined(all.take(i as int).map_values(f), '\n'),
        decreases store.len() - i,
    {
        proof {
            lemma_joined_push(all.take(i as int).map_values(f), menu_label(all[i as int]), '\n');
            assert(all.take(i + 1).map_values(f) =~= all.take(i as int).map_values(f).push(
                menu_label(all[i as int]),
            ));
        }
        if i > 0 {
            input.push('\n');
        }
        input.append(store[i].window_class.as_str());
        input.append(" - ");
        input.append(store[i].original_title.as_str());
        i += 1;
    }
    assert(all.take(store.len() as int) =~= all);
    input
}

/// The arguments with which the picker is run: as a menu of the lines it is
/// given, which answers with the index of the chosen line, not with its
/// text, under the prompt `Restore window:`.
pub open spec fn picker_arguments_for() -> Seq<Seq<char>> {
    seq!["-d"@, "-i"@, "-p"@, "Restore window:"@]
}

/// The arguments with which the picker is run.
pub fn picker_arguments() -> (arguments: Vec<String>)
    ensures
        arguments.deep_view() == picker_arguments_for(),
{
    let mut arguments: Vec<String> = Vec::new();
    arguments.push("-d".to_owned());
    arguments.push("-i".to_owned());
    arguments.push("-p".to_owned());
    arguments.push("Restore window:".to_owned());
    arguments
}

// ------------------------------------------------------------------- laws

/// An answer that is the index of a record of the list chooses that record.
pub proof fn index_in_range_is_chosen(index: usize, count: usize)
    requires
        index < count,
    ensures
        selection_of(decimal(index as nat), count) == Selection::Chosen(index),
{
    value_of_decimal(index as nat);
}

/// An answer that is a number at or beyond the length of the list chooses
/// nothing.
pub proof fn index_beyond_range_is_refused(index: usize, count: usize)
    requires
        index >= count,
    ensures
        selection_of(decimal(index as nat), count) == Selection::OutOfRange(index),
{
    value_of_decimal(index as nat);
}

/// An answer of white space alone is a cancellation.
pub proof fn blank_answer_cancels(raw: Seq<char>, count: usize)
    requires
        forall|i: int| 0 <= i < raw.len() ==> is_space(#[trigger] raw[i]),
    ensures
        selection_of(raw, count) == Selection::Cancelled,
{
    lemma_trim_start_of_blank(raw);
}

/// Nothing is left of white space once its leading white space is gone.
proof fn lemma_trim_start_of_blank(raw: Seq<char>)
    requires
        forall|i: int| 0 <= i < raw.len() ==> is_space(#[trigger] raw[i]),
    ensures
        trim_start(raw).len() == 0,
    decreases raw.len(),
{
    if raw.len() > 0 {
        lemma_trim_start_of_blank(raw.drop_first());
    }
}

} // verus!
