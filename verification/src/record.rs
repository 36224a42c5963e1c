//! The record kept for each minimized window.

use vstd::prelude::*;

verus! {

/// What the store remembers of one minimized window.
#[derive(Clone, Debug, PartialEq, Eq)]
pub struct MinimizedWindow {
    /// The window manager's identifier of the window.
    pub key: String,
    /// The line made for the window when it was captured.
    pub display_label: String,
    /// The application class of the window.
    pub window_class: String,
    /// The title that the window had when it was captured.
    pub original_title: String,
    /// Where the thumbnail of the window is, if one could be made.
    pub preview_path: Option<String>,
}

/// The mathematical value of a `MinimizedWindow`.
pub struct WindowView {
    pub key: Seq<char>,
    pub display_label: Seq<char>,
    pub window_class: Seq<char>,
    pub original_title: Seq<char>,
    pub preview_path: Option<Seq<char>>,
}

impl View for MinimizedWindow {
    type V = WindowView;

    open spec fn view(&self) -> WindowView {
        WindowView {
            key: self.key@,
            display_label: self.display_label@,
            window_class: self.window_class@,
            original_title: self.original_title@,
            preview_path: match self.preview_path {
                Some(p) => Some(p@),
                None => None,
            },
        }
    }
}

impl DeepView for MinimizedWindow {
    type V = WindowView;

    open spec fn deep_view(&self) -> WindowView {
        self@
    }
}

impl MinimizedWindow {
    /// A copy of the record.
    pub fn copy(&self) -> (w: MinimizedWindow)
        ensures
            w@ == self@,
    {
        MinimizedWindow {
            key: self.key.clone(),
            display_label: self.display_label.clone(),
            window_class: self.window_class.clone(),
            original_title: self.original_title.clone(),
            preview_path: match &self.preview_path {
                Some(p) => Some(p.clone()),
                None => None,
            },
        }
    }
}

} // verus!
