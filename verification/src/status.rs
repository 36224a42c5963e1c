//! What the status bar is told: whether windows are minimized, and how many.

use vstd::prelude::*;
use crate::codec::{lemma_members_text_push, push_member};
use crate::format::members_text;
use crate::text::{decimal, push_decimal};

verus! {

/// What the status bar shows.
#[derive(Clone, Debug, PartialEq, Eq)]
pub struct Status {
    /// The text in the bar.
    pub text: String,
    /// The tag by which the bar styles the text: `empty` or `has-windows`.
    pub class: String,
    /// The sentence shown on hover.
    pub tooltip: String,
}

/// The mathematical value of a `Status`.
pub struct StatusView {
    pub text: Seq<char>,
    pub class: Seq<char>,
    pub tooltip: Seq<char>,
}

impl View for Status {
    type V = StatusView;

    open spec fn view(&self) -> StatusView {
        StatusView { text: self.text@, class: self.class@, tooltip: self.tooltip@ }
    }
}

/// The status of a store of `count` records.
pub open spec fn status_for(count: nat) -> StatusView {
    if count == 0 {
        StatusView { text: "\u{f0638}"@, class: "empty"@, tooltip: "No minimized windows"@ }
    } else {
        StatusView {
            text: "\u{f0638} "@ + decimal(count),
            class: "has-windows"@,
            tooltip: decimal(count) + " minimized windows"@,
        }
    }
}

/// A status as one line of text: an object with the members `text`, `class`
/// and `tooltip`.
pub open spec fn status_text(status: StatusView) -> Seq<char> {
    seq!['{'] + members_text(
        seq![("text"@, status.text), ("class"@, status.class), ("tooltip"@, status.tooltip)],
    ) + seq!['}']
}

/// The status of a store of `count` records.
pub fn status_of(count: usize) -> (status: Status)
    ensures
        status@ == status_for(count as nat),
{
    if count == 0 {
        Status {
            text: "\u{f0638}".to_owned(),
            class: "empty".to_owned(),
            tooltip: "No minimized windows".to_owned(),
        }
    } else {
        let mut text = "\u{f0638} ".to_owned();
        push_decimal(&mut text, count as u64);
        let mut tooltip = String::new();
        push_decimal(&mut tooltip, count as u64);
        tooltip.append(" minimized windows");
        Status { text, class: "has-windows".to_owned(), tooltip }
    }
}

/// The status as one line of text.
pub fn status_line(status: &Status) -> (line: String)
    ensures
        line@ == status_text(status@),
{
    let ghost first = ("text"@, status.text@);
    let ghost second = ("class"@, status.class@);
    let ghost third = ("tooltip"@, status.tooltip@);
    let mut line = String::new();
    line.push('{');
    push_member(&mut line, "text", status.text.as_str());
    line.push(',');
    push_member(&mut line, "class", status.class.as_str());
    line.push(',');
    push_member(&mut line, "tooltip", status.tooltip.as_str());
    line.push('}');
    proof {
        let none = Seq::<(Seq<char>, Seq<char>)>::empty();
        lemma_members_text_push(none, first);
        lemma_members_text_push(seq![first], second);
        lemma_members_text_push(seq![first, second], third);
        assert(seq![first].push(second) =~= seq![first, second]);
        assert(seq![first, second].push(third) =~= seq![first, second, third]);
    }
    line
}

} // verus!
