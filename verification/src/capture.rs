//! Capturing a window: from what the window manager says of it to the record
//! that the store keeps, and to the requests that hide it and picture it.

use vstd::prelude::*;
use crate::codec::field;
use crate::format::{lookup, Pairs};
use crate::record::{MinimizedWindow, WindowView};
use crate::text::{chars_of, string_of_range, trim, trimmed};

verus! {

/// What the window manager says of a window.
#[derive(Clone, Debug, PartialEq, Eq)]
pub struct Snapshot {
    /// The window manager's identifier of the window.
    pub key: String,
    /// The application class of the window.
    pub class: String,
    /// The title of the window.
    pub title: String,
    /// Where the window stands on the screen, if that is known.
    pub position: Option<String>,
    /// How large the window is, if that is known.
    pub size: Option<String>,
}

/// The mathematical value of a `Snapshot`.
pub struct SnapshotView {
    pub key: Seq<char>,
    pub class: Seq<char>,
    pub title: Seq<char>,
    pub position: Option<Seq<char>>,
    pub size: Option<Seq<char>>,
}

impl View for Snapshot {
    type V = SnapshotView;

    open spec fn view(&self) -> SnapshotView {
        SnapshotView {
            key: self.key@,
            class: self.class@,
            title: self.title@,
            position: self.position.deep_view(),
            size: self.size.deep_view(),
        }
    }
}

/// The part of a window's description without which it cannot be captured.
#[derive(Clone, Copy, Debug, PartialEq, Eq)]
pub enum Missing {
    Address,
    Class,
    Title,
}

/// The snapshot that a window's description gives: its `address`, `class`
/// and `title`, and `at` and `size` where it has them. Where one of the
/// first three is missing, the first that is.
pub open spec fn snapshot_from(pairs: Pairs) -> Result<SnapshotView, Missing> {
    match lookup(pairs, "address"@) {
        None => Err(Missing::Address),
        Some(key) => match lookup(pairs, "class"@) {
            None => Err(Missing::Class),
            Some(class) => match lookup(pairs, "title"@) {
                None => Err(Missing::Title),
                Some(title) => Ok(
                    SnapshotView {
                        key,
                        class,
                        title,
                        position: lookup(pairs, "at"@),
                        size: lookup(pairs, "size"@),
                    },
                ),
            },
        },
    }
}

/// A snapshot, or what is missing for one, as one mathematical value.
pub open spec fn snapshot_result_view(r: Result<Snapshot, Missing>) -> Result<
    SnapshotView,
    Missing,
> {
    match r {
        Ok(snapshot) => Ok(snapshot@),
        Err(missing) => Err(missing),
    }
}

/// The snapshot that a window's description gives.
pub fn snapshot_of(info: &Vec<(String, String)>) -> (r: Result<Snapshot, Missing>)
    ensures
        snapshot_result_view(r) == snapshot_from(info.deep_view()),
{
    let key = match field(info, "address") {
        Some(key) => key,
        None => {
            return Err(Missing::Address);
        },
    };
    let class = match field(info, "class") {
        Some(class) => class,
        None => {
            return Err(Missing::Class);
        },
    };
    let title = match field(info, "title") {
        Some(title) => title,
        None => {
            return Err(Missing::Title);
        },
    };
    Ok(Snapshot { key, class, title, position: field(info, "at"), size: field(info, "size") })
}

/// The last four characters of the key; the whole key where it has no more
/// than four.
pub open spec fn short_key(key: Seq<char>) -> Seq<char> {
    if key.len() <= 4 {
        key
    } else {
        key.skip(key.len() - 4)
    }
}

/// The line that describes a captured window: glyph, class, title, and the
/// short form of the key in brackets.
pub open spec fn label_for(
    icon: Seq<char>,
    class: Seq<char>,
    title: Seq<char>,
    key: Seq<char>,
) -> Seq<char> {
    icon + " "@ + class + " - "@ + title + " ["@ + short_key(key) + "]"@
}

/// The record of a captured window.
pub open spec fn record_for(
    snapshot: SnapshotView,
    icon: Seq<char>,
    preview: Option<Seq<char>>,
) -> WindowView {
    WindowView {
        key: snapshot.key,
        display_label: label_for(icon, snapshot.class, snapshot.title, snapshot.key),
        window_class: snapshot.class,
        original_title: snapshot.title,
        preview_path: preview,
    }
}

/// The region of the screen that a window fills, as the screenshot program
/// takes it: position and size, each without white space around it, with a
/// comma between them.
pub open spec fn geometry_for(position: Seq<char>, size: Seq<char>) -> Seq<char> {
    trimmed(position) + ","@ + trimmed(size)
}

/// The region of the screen that the window of a snapshot fills, where both
/// its position and its size are known.
pub open spec fn geometry_of(snapshot: SnapshotView) -> Option<Seq<char>> {
    match (snapshot.position, snapshot.size) {
        (Some(position), Some(size)) => Some(geometry_for(position, size)),
        _ => None,
    }
}

/// Where the full screenshot of the window with this key is put.
pub open spec fn screenshot_path(key: Seq<char>) -> Seq<char> {
    "/tmp/window-previews/"@ + key + ".png"@
}

/// Where the thumbnail of the window with this key is put.
pub open spec fn thumbnail_path(key: Seq<char>) -> Seq<char> {
    "/tmp/window-previews/"@ + key + ".thumb.png"@
}

/// The short form of the key.
pub fn short_key_of(key: &str) -> (short: String)
    ensures
        short@ == short_key(key@),
{
    let v = chars_of(key);
    if v.len() <= 4 {
        string_of_range(&v, 0, v.len())
    } else {
        string_of_range(&v, v.len() - 4, v.len())
    }
}

/// The line that describes a captured window.
pub fn display_label(icon: &str, class: &str, title: &str, key: &str) -> (label: String)
    ensures
        label@ == label_for(icon@, class@, title@, key@),
{
    let short = short_key_of(key);
    let mut label = icon.to_owned();
    label.append(" ");
    label.append(class);
    label.append(" - ");
    label.append(title);
    label.append(" [");
    label.append(short.as_str());
    label.append("]");
    label
}

/// The record of a captured window.
pub fn capture_record(snapshot: &Snapshot, icon: &str, preview: Option<String>) -> (record:
    MinimizedWindow)
    ensures
        record@ == record_for(snapshot@, icon@, preview.deep_view()),
{
    MinimizedWindow {
        key: snapshot.key.clone(),
        display_label: display_label(
            icon,
            snapshot.class.as_str(),
            snapshot.title.as_str(),
            snapshot.key.as_str(),
        ),
        window_class: snapshot.class.clone(),
        original_title: snapshot.title.clone(),
        preview_path: preview,
    }
}

/// The region of the screen for a position and a size.
pub fn geometry(position: &str, size: &str) -> (region: String)
    ensures
        region@ == geometry_for(position@, size@),
{
    let mut region = trim(position);
    region.append(",");
    let size = trim(size);
    region.append(size.as_str());
    region
}

/// The region of the screen that the window of a snapshot fills.
pub fn snapshot_geometry(snapshot: &Snapshot) -> (region: Option<String>)
    ensures
        region.deep_view() == geometry_of(snapshot@),
{
    match (&snapshot.position, &snapshot.size) {
        (Some(position), Some(size)) => Some(geometry(position.as_str(), size.as_str())),
        _ => None,
    }
}

/// What the making of a thumbnail needs: the region of the screen, the file
/// for the full screenshot, which is removed in the end, and the file for
/// the thumbnail.
#[derive(Clone, Debug, PartialEq, Eq)]
pub struct PreviewPlan {
    pub geometry: String,
    pub screenshot: String,
    pub thumbnail: String,
}

/// The mathematical value of a `PreviewPlan`.
pub struct PreviewPlanView {
    pub geometry: Seq<char>,
    pub screenshot: Seq<char>,
    pub thumbnail: Seq<char>,
}

impl View for PreviewPlan {
    type V = PreviewPlanView;

    open spec fn view(&self) -> PreviewPlanView {
        PreviewPlanView {
            geometry: self.geometry@,
            screenshot: self.screenshot@,
            thumbnail: self.thumbnail@,
        }
    }
}

/// The plan for the thumbnail of the window with this key.
pub open spec fn plan_for(key: Seq<char>, geometry: Seq<char>) -> PreviewPlanView {
    PreviewPlanView {
        geometry,
        screenshot: screenshot_path(key),
        thumbnail: thumbnail_path(key),
    }
}

/// The arguments with which the screenshot program is run.
pub open spec fn screenshot_arguments_for(plan: PreviewPlanView) -> Seq<Seq<char>> {
    seq!["-g"@, plan.geometry, plan.screenshot]
}

/// The arguments with which the image converter is run: it fills 200 by 150
/// points from the middle of the screenshot.
pub open spec fn thumbnail_arguments_for(plan: PreviewPlanView) -> Seq<Seq<char>> {
    seq![
        plan.screenshot,
        "-resize"@,
        "200x150^"@,
        "-gravity"@,
        "center"@,
        "-extent"@,
        "200x150"@,
        plan.thumbnail,
    ]
}

/// The plan for the thumbnail of the window with this key.
pub fn preview_plan(key: &str, geometry: String) -> (plan: PreviewPlan)
    ensures
        plan@ == plan_for(key@, geometry@),
{
    let mut screenshot = "/tmp/window-previews/".to_owned();
    screenshot.append(key);
    screenshot.append(".png");
    let mut thumbnail = "/tmp/window-previews/".to_owned();
    thumbnail.append(key);
    thumbnail.append(".thumb.png");
    PreviewPlan { geometry, screenshot, thumbnail }
}

/// The arguments with which the screenshot program is run.
pub fn screenshot_arguments(plan: &PreviewPlan) -> (arguments: Vec<String>)
    ensures
        arguments.deep_view() == screenshot_arguments_for(plan@),
{
    let mut arguments: Vec<String> = Vec::new();
    arguments.push("-g".to_owned());
    arguments.push(plan.geometry.clone());
    arguments.push(plan.screenshot.clone());
    arguments
}

/// The arguments with which the image converter is run.
pub fn thumbnail_arguments(plan: &PreviewPlan) -> (arguments: Vec<String>)
    ensures
        arguments.deep_view() == thumbnail_arguments_for(plan@),
{
    let mut arguments: Vec<String> = Vec::new();
    arguments.push(plan.screenshot.clone());
    arguments.push("-resize".to_owned());
    arguments.push("200x150^".to_owned());
    arguments.push("-gravity".to_owned());
    arguments.push("center".to_owned());
    arguments.push("-extent".to_owned());
    arguments.push("200x150".to_owned());
    arguments.push(plan.thumbnail.clone());
    arguments
}

/// Whether a class in lower case is that of the picker.
pub open spec fn is_picker(lower: Seq<char>) -> bool {
    lower == "walker"@
}

/// Whether a class in lower case is that of the picker.
pub fn is_picker_class(lower: &str) -> (b: bool)
    ensures
        b == is_picker(lower@),
{
    let wanted = "walker".to_owned();
    let given = lower.to_owned();
    given == wanted
}

} // verus!
