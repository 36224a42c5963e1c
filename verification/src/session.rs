//! One run of the program as a sequence of steps. Each step says what the
//! driver is to do at once, what it is to ask the outside world next, and in
//! which state the answer is awaited. The driver runs the programs and reads
//! and writes the files; every decision is taken here.
//!
//! Every external program is run once, and a failure is written to the log:
//! no step asks for a second try. A run reads the store just before it
//! writes it, but nothing keeps two runs apart: where two of them change the
//! store at the same time, the one that writes last wins and the change of
//! the other is lost.

use vstd::prelude::*;
use crate::capture::{
    capture_record, geometry_of, is_picker, is_picker_class, plan_for, preview_plan, record_for,
    snapshot_from, snapshot_geometry, snapshot_of, thumbnail_path, Missing, PreviewPlan,
    PreviewPlanView, Snapshot, SnapshotView,
};
use crate::codec::{field, parse_window_info, parse_windows_from_json};
use crate::format::{decoded, encoded, lookup, members, Pairs};
use crate::icons::{icon_for, icon_for_lowered};
use crate::messages::{
    answer_invalid, answer_invalid_message, focus_failed, focus_failure, hide_failed,
    hide_failure, index_out_of_range, index_out_of_range_message, missing_part,
    missing_part_message, move_failed, move_failure, picker_failed, picker_failure,
    window_query_failed, window_query_failure, workspace_query_failed, workspace_query_failure,
};
use crate::record::{MinimizedWindow, WindowView};
use crate::selection::{
    index_in_range_is_chosen, interpret_selection, menu_input, menu_text, selection_of, Selection,
};
use crate::status::{status_for, status_line, status_of, status_text};
use crate::store::{append_to_text, keys, keys_of, remove_from_text, without_key};
use crate::text::{
    decimal, format_i32, lowercase_of, parse_i32, signed_decimal, signed_value,
};

verus! {

// ------------------------------------------------------------------ types

/// What a run of the window manager's control program reported.
#[derive(Clone, Debug, PartialEq, Eq)]
pub struct CommandOutput {
    /// Whether the program could be run and ended without an error.
    pub success: bool,
    /// What it wrote to its output.
    pub stdout: String,
    /// What it wrote to its error stream.
    pub stderr: String,
}

/// The mathematical value of a `CommandOutput`.
pub struct CommandOutputView {
    pub success: bool,
    pub stdout: Seq<char>,
    pub stderr: Seq<char>,
}

impl View for CommandOutput {
    type V = CommandOutputView;

    open spec fn view(&self) -> CommandOutputView {
        CommandOutputView { success: self.success, stdout: self.stdout@, stderr: self.stderr@ }
    }
}

/// Something the driver does without an answer to wait for.
#[derive(Clone, Debug, PartialEq, Eq)]
pub enum Effect {
    /// Write this message to the error log.
    Log(String),
    /// Replace the text of the store by this text.
    WriteStore(String),
    /// Print this line.
    Print(String),
}

/// The mathematical value of an `Effect`.
pub enum EffectView {
    Log(Seq<char>),
    WriteStore(Seq<char>),
    Print(Seq<char>),
}

impl View for Effect {
    type V = EffectView;

    open spec fn view(&self) -> EffectView {
        match self {
            Effect::Log(message) => EffectView::Log(message@),
            Effect::WriteStore(text) => EffectView::WriteStore(text@),
            Effect::Print(line) => EffectView::Print(line@),
        }
    }
}

impl DeepView for Effect {
    type V = EffectView;

    open spec fn deep_view(&self) -> EffectView {
        self@
    }
}

/// The state in which the report of the control program is awaited.
#[derive(Clone, Debug, PartialEq, Eq)]
pub enum AfterCommand {
    /// Minimizing: the active window was asked for.
    ActiveWindow,
    /// Minimizing: the window of this record was sent to the holding area.
    Hide { record: MinimizedWindow },
    /// Restoring `key`: the active workspace was asked for. The windows of
    /// `queue` are restored afterwards.
    Workspace { key: String, queue: Vec<String> },
    /// Restoring `key`: the window was sent to the active workspace.
    Move { key: String, queue: Vec<String> },
    /// Restoring `key`: the window was given the focus.
    Focus { key: String, queue: Vec<String> },
}

/// The mathematical value of an `AfterCommand`.
pub enum AfterCommandView {
    ActiveWindow,
    Hide { record: WindowView },
    Workspace { key: Seq<char>, queue: Seq<Seq<char>> },
    Move { key: Seq<char>, queue: Seq<Seq<char>> },
    Focus { key: Seq<char>, queue: Seq<Seq<char>> },
}

impl View for AfterCommand {
    type V = AfterCommandView;

    open spec fn view(&self) -> AfterCommandView {
        match self {
            AfterCommand::ActiveWindow => AfterCommandView::ActiveWindow,
            AfterCommand::Hide { record } => AfterCommandView::Hide { record: record@ },
            AfterCommand::Workspace { key, queue } => AfterCommandView::Workspace {
                key: key@,
                queue: queue.deep_view(),
            },
            AfterCommand::Move { key, queue } => AfterCommandView::Move {
                key: key@,
                queue: queue.deep_view(),
            },
            AfterCommand::Focus { key, queue } => AfterCommandView::Focus {
                key: key@,
                queue: queue.deep_view(),
            },
        }
    }
}

/// The state in which the thumbnail of a window is awaited.
#[derive(Clone, Debug, PartialEq, Eq)]
pub struct AfterCapture {
    /// The window that is being minimized.
    pub snapshot: Snapshot,
    /// The glyph of its application.
    pub icon: String,
}

/// The mathematical value of an `AfterCapture`.
pub struct AfterCaptureView {
    pub snapshot: SnapshotView,
    pub icon: Seq<char>,
}

impl View for AfterCapture {
    type V = AfterCaptureView;

    open spec fn view(&self) -> AfterCaptureView {
        AfterCaptureView { snapshot: self.snapshot@, icon: self.icon@ }
    }
}

/// The state in which the answer of the picker is awaited.
#[derive(Clone, Debug, PartialEq, Eq)]
pub struct AfterPick {
    /// The keys of the records that the picker was shown, in their order.
    pub keys: Vec<String>,
}

/// The mathematical value of an `AfterPick`.
pub struct AfterPickView {
    pub keys: Seq<Seq<char>>,
}

impl View for AfterPick {
    type V = AfterPickView;

    open spec fn view(&self) -> AfterPickView {
        AfterPickView { keys: self.keys.deep_view() }
    }
}

/// The state in which the text of the store is awaited.
#[derive(Clone, Debug, PartialEq, Eq)]
pub enum AfterStore {
    /// Minimizing: this record is to be appended.
    Append { record: MinimizedWindow },
    /// Restoring `key`: its records are to be removed. The windows of
    /// `queue` are restored afterwards.
    Remove { key: String, queue: Vec<String> },
    /// The picker is to be shown the records.
    Menu,
    /// The window minimized last is to be restored.
    Last,
    /// All windows are to be restored, oldest first.
    All,
    /// The status is to be printed.
    Status,
}

/// The mathematical value of an `AfterStore`.
pub enum AfterStoreView {
    Append { record: WindowView },
    Remove { key: Seq<char>, queue: Seq<Seq<char>> },
    Menu,
    Last,
    All,
    Status,
}

impl View for AfterStore {
    type V = AfterStoreView;

    open spec fn view(&self) -> AfterStoreView {
        match self {
            AfterStore::Append { record } => AfterStoreView::Append { record: record@ },
            AfterStore::Remove { key, queue } => AfterStoreView::Remove {
                key: key@,
                queue: queue.deep_view(),
            },
            AfterStore::Menu => AfterStoreView::Menu,
            AfterStore::Last => AfterStoreView::Last,
            AfterStore::All => AfterStoreView::All,
            AfterStore::Status => AfterStoreView::Status,
        }
    }
}

/// What the driver asks the outside world next, and the state in which the
/// answer is awaited.
#[derive(Clone, Debug, PartialEq, Eq)]
pub enum Next {
    /// Run the window manager's control program with these arguments.
    Run { arguments: Vec<String>, then: AfterCommand },
    /// Make the thumbnail of this plan.
    Capture { plan: PreviewPlan, then: AfterCapture },
    /// Show the picker these lines.
    Pick { input: String, then: AfterPick },
    /// Read the text of the store.
    ReadStore { then: AfterStore },
    /// Nothing: the run is over.
    Done,
}

/// The mathematical value of a `Next`.
pub enum NextView {
    Run { arguments: Seq<Seq<char>>, then: AfterCommandView },
    Capture { plan: PreviewPlanView, then: AfterCaptureView },
    Pick { input: Seq<char>, then: AfterPickView },
    ReadStore { then: AfterStoreView },
    Done,
}

impl View for Next {
    type V = NextView;

    open spec fn view(&self) -> NextView {
        match self {
            Next::Run { arguments, then } => NextView::Run {
                arguments: arguments.deep_view(),
                then: then@,
            },
            Next::Capture { plan, then } => NextView::Capture { plan: plan@, then: then@ },
            Next::Pick { input, then } => NextView::Pick { input: input@, then: then@ },
            Next::ReadStore { then } => NextView::ReadStore { then: then@ },
            Next::Done => NextView::Done,
        }
    }
}

/// One step of a run: what the driver does at once, in this order, and what
/// it asks next.
#[derive(Clone, Debug, PartialEq, Eq)]
pub struct Step {
    pub effects: Vec<Effect>,
    pub next: Next,
}

/// The mathematical value of a `Step`.
pub struct StepView {
    pub effects: Seq<EffectView>,
    pub next: NextView,
}

impl View for Step {
    type V = StepView;

    open spec fn view(&self) -> StepView {
        StepView { effects: self.effects.deep_view(), next: self.next@ }
    }
}

/// What the picker answered, or why it could not be run, as one
/// mathematical value.
pub open spec fn picked_view(picked: Result<String, String>) -> Result<Seq<char>, Seq<char>> {
    match picked {
        Ok(raw) => Ok(raw@),
        Err(reason) => Err(reason@),
    }
}

// ------------------------------------------------------- the steps, stated

/// The step that ends the run.
pub open spec fn finished() -> StepView {
    StepView { effects: Seq::empty(), next: NextView::Done }
}

/// The step that writes a message to the log and ends the run.
pub open spec fn failed(message: Seq<char>) -> StepView {
    StepView { effects: seq![EffectView::Log(message)], next: NextView::Done }
}

/// The step that does nothing at once and asks `next`.
pub open spec fn asking(next: NextView) -> StepView {
    StepView { effects: Seq::empty(), next }
}

/// The arguments that ask the window manager for the active window.
pub open spec fn window_query() -> Seq<Seq<char>> {
    seq!["activewindow"@, "-j"@]
}

/// The arguments that ask the window manager for the active workspace.
pub open spec fn workspace_query() -> Seq<Seq<char>> {
    seq!["activeworkspace"@, "-j"@]
}

/// The arguments that send the window `key` to the holding area.
pub open spec fn hide_command(key: Seq<char>) -> Seq<Seq<char>> {
    seq!["dispatch"@, "movetoworkspacesilent"@, "special:minimum,address:"@ + key]
}

/// The arguments that send the window `key` to the workspace `workspace`.
pub open spec fn move_command(workspace: int, key: Seq<char>) -> Seq<Seq<char>> {
    seq!["dispatch"@, "movetoworkspace"@, signed_decimal(workspace) + ",address:"@ + key]
}

/// The arguments that give the window `key` the focus.
pub open spec fn focus_command(key: Seq<char>) -> Seq<Seq<char>> {
    seq!["dispatch"@, "focuswindow"@, "address:"@ + key]
}

/// The workspace that a description of the active workspace names: the
/// number of its member `id`, or 1 where it has none that fits.
pub open spec fn workspace_of(pairs: Pairs) -> int {
    match lookup(pairs, "id"@) {
        Some(text) => match signed_value(text) {
            Some(n) if i32::MIN <= n <= i32::MAX => n,
            _ => 1,
        },
        None => 1,
    }
}

/// What is asked first to restore the windows of `queue`, one after the
/// other: nothing where the queue is empty.
pub open spec fn restoring(queue: Seq<Seq<char>>) -> NextView {
    if queue.len() == 0 {
        NextView::Done
    } else {
        NextView::Run {
            arguments: workspace_query(),
            then: AfterCommandView::Workspace { key: queue[0], queue: queue.drop_first() },
        }
    }
}

/// The step that asks for the window of `record` to be hidden.
pub open spec fn hiding(record: WindowView) -> StepView {
    asking(
        NextView::Run {
            arguments: hide_command(record.key),
            then: AfterCommandView::Hide { record },
        },
    )
}

/// The step behind the description of the active window, given its class in
/// lower case. The picker itself is never minimized. A window without
/// address or title is reported. For a window whose place on the screen is
/// known a thumbnail is asked for; any other is hidden at once.
pub open spec fn window_step(pairs: Pairs, lower: Seq<char>) -> StepView {
    if is_picker(lower) {
        finished()
    } else {
        match snapshot_from(pairs) {
            Err(missing) => failed(missing_part(missing)),
            Ok(snapshot) => {
                let icon = icon_for(lower);
                match geometry_of(snapshot) {
                    Some(region) => asking(
                        NextView::Capture {
                            plan: plan_for(snapshot.key, region),
                            then: AfterCaptureView { snapshot, icon },
                        },
                    ),
                    None => hiding(record_for(snapshot, icon, None)),
                }
            },
        }
    }
}

/// The step behind the description of the active window. A window without
/// a class is reported: for want of its address where that is missing too.
pub open spec fn described_window_step(pairs: Pairs) -> StepView {
    match lookup(pairs, "class"@) {
        Some(class) => window_step(pairs, lowercase_of(class)),
        None => failed(
            missing_part(
                if lookup(pairs, "address"@) is None {
                    Missing::Address
                } else {
                    Missing::Class
                },
            ),
        ),
    }
}

/// The step behind a report of the control program.
pub open spec fn command_step(state: AfterCommandView, output: CommandOutputView) -> StepView {
    match state {
        AfterCommandView::ActiveWindow => {
            if output.success {
                described_window_step(members(output.stdout))
            } else {
                failed(window_query_failed(output.stderr))
            }
        },
        AfterCommandView::Hide { record } => {
            if output.success {
                asking(NextView::ReadStore { then: AfterStoreView::Append { record } })
            } else {
                failed(
                    hide_failed(record.window_class, record.key, output.stdout, output.stderr),
                )
            }
        },
        AfterCommandView::Workspace { key, queue } => {
            if output.success {
                asking(
                    NextView::Run {
                        arguments: move_command(workspace_of(members(output.stdout)), key),
                        then: AfterCommandView::Move { key, queue },
                    },
                )
            } else {
                StepView {
                    effects: seq![EffectView::Log(workspace_query_failed(key, output.stderr))],
                    next: restoring(queue),
                }
            }
        },
        AfterCommandView::Move { key, queue } => StepView {
            effects: if output.success {
                Seq::empty()
            } else {
                seq![EffectView::Log(move_failed(key, output.stdout, output.stderr))]
            },
            next: NextView::Run {
                arguments: focus_command(key),
                then: AfterCommandView::Focus { key, queue },
            },
        },
        AfterCommandView::Focus { key, queue } => StepView {
            effects: if output.success {
                Seq::empty()
            } else {
                seq![EffectView::Log(focus_failed(key, output.stdout, output.stderr))]
            },
            next: NextView::ReadStore { then: AfterStoreView::Remove { key, queue } },
        },
    }
}

/// The step behind the making of a thumbnail: the window is hidden, with or
/// without a preview.
pub open spec fn capture_step(state: AfterCaptureView, made: bool) -> StepView {
    hiding(
        record_for(
            state.snapshot,
            state.icon,
            if made {
                Some(thumbnail_path(state.snapshot.key))
            } else {
                None
            },
        ),
    )
}

/// The step behind the answer of the picker.
pub open spec fn pick_step(state: AfterPickView, picked: Result<Seq<char>, Seq<char>>) -> StepView {
    match picked {
        Err(reason) => failed(picker_failed(reason)),
        Ok(raw) => match selection_of(raw, state.keys.len() as usize) {
            Selection::Cancelled => finished(),
            Selection::Chosen(index) => asking(restoring(seq![state.keys[index as int]])),
            Selection::OutOfRange(index) => failed(
                index_out_of_range(index as nat, state.keys.len()),
            ),
            Selection::Invalid(why) => failed(answer_invalid(raw, why)),
        },
    }
}

/// The step behind the reading of the store.
pub open spec fn store_step(state: AfterStoreView, content: Seq<char>) -> StepView {
    let store = decoded(content);
    match state {
        AfterStoreView::Append { record } => StepView {
            effects: seq![EffectView::WriteStore(encoded(store.push(record)))],
            next: NextView::Done,
        },
        AfterStoreView::Remove { key, queue } => StepView {
            effects: seq![EffectView::WriteStore(encoded(without_key(store, key)))],
            next: restoring(queue),
        },
        AfterStoreView::Menu => {
            if store.len() == 0 {
                finished()
            } else {
                asking(
                    NextView::Pick {
                        input: menu_text(store),
                        then: AfterPickView { keys: keys_of(store) },
                    },
                )
            }
        },
        AfterStoreView::Last => {
            if store.len() == 0 {
                finished()
            } else {
                asking(restoring(seq![store.last().key]))
            }
        },
        AfterStoreView::All => asking(restoring(keys_of(store))),
        AfterStoreView::Status => StepView {
            effects: seq![EffectView::Print(status_text(status_for(store.len())))],
            next: NextView::Done,
        },
    }
}

// -------------------------------------------------------- the steps, made

/// The step that ends the run.
pub fn finish() -> (step: Step)
    ensures
        step@ == finished(),
{
    let step = Step { effects: Vec::new(), next: Next::Done };
    assert(step.effects.deep_view() =~= Seq::<EffectView>::empty());
    step
}

/// The step that writes a message to the log and ends the run.
pub fn fail(message: String) -> (step: Step)
    ensures
        step@ == failed(message@),
{
    let mut effects: Vec<Effect> = Vec::new();
    effects.push(Effect::Log(message));
    assert(effects.deep_view() =~= seq![EffectView::Log(message@)]);
    Step { effects, next: Next::Done }
}

/// The step that does nothing at once and asks `next`.
pub fn ask(next: Next) -> (step: Step)
    ensures
        step@ == asking(next@),
{
    let step = Step { effects: Vec::new(), next };
    assert(step.effects.deep_view() =~= Seq::<EffectView>::empty());
    step
}

/// No effect where `message` is `None`; else the writing of it to the log.
fn logging(message: Option<String>) -> (effects: Vec<Effect>)
    ensures
        effects.deep_view() == (match message {
            Some(m) => seq![EffectView::Log(m@)],
            None => Seq::<EffectView>::empty(),
        }),
{
    let mut effects: Vec<Effect> = Vec::new();
    if let Some(m) = message {
        effects.push(Effect::Log(m));
    }
    effects
}

/// The arguments that ask the window manager for `what`.
fn query_arguments(what: &str) -> (arguments: Vec<String>)
    ensures
        arguments.deep_view() == seq![what@, "-j"@],
{
    let mut arguments: Vec<String> = Vec::new();
    arguments.push(what.to_owned());
    arguments.push("-j".to_owned());
    arguments
}

/// The arguments that have the window manager do `verb` to `target`.
fn dispatch_arguments(verb: &str, target: String) -> (arguments: Vec<String>)
    ensures
        arguments.deep_view() == seq!["dispatch"@, verb@, target@],
{
    let mut arguments: Vec<String> = Vec::new();
    arguments.push("dispatch".to_owned());
    arguments.push(verb.to_owned());
    arguments.push(target);
    arguments
}

/// A queue of one key.
fn queue_of(key: String) -> (queue: Vec<String>)
    ensures
        queue.deep_view() == seq![key@],
{
    let mut queue: Vec<String> = Vec::new();
    queue.push(key);
    queue
}

/// What is asked first to restore the windows of `queue`, one after the
/// other.
pub fn restore_queue(queue: Vec<String>) -> (next: Next)
    ensures
        next@ == restoring(queue.deep_view()),
{
    let mut queue = queue;
    if queue.len() == 0 {
        Next::Done
    } else {
        let ghost all = queue.deep_view();
        let key = queue.remove(0);
        assert(queue.deep_view() =~= all.drop_first());
        Next::Run {
            arguments: query_arguments("activeworkspace"),
            then: AfterCommand::Workspace { key, queue },
        }
    }
}

/// The workspace that a description of the active workspace names.
pub fn workspace_number(info: &Vec<(String, String)>) -> (workspace: i32)
    ensures
        workspace == workspace_of(info.deep_view()),
{
    match field(info, "id") {
        Some(text) => match parse_i32(text.as_str()) {
            Some(n) => n,
            None => 1,
        },
        None => 1,
    }
}

/// The step that asks for the window of `record` to be hidden.
pub fn hide_window(record: MinimizedWindow) -> (step: Step)
    ensures
        step@ == hiding(record@),
{
    let mut target = "special:minimum,address:".to_owned();
    target.append(record.key.as_str());
    ask(
        Next::Run {
            arguments: dispatch_arguments("movetoworkspacesilent", target),
            then: AfterCommand::Hide { record },
        },
    )
}

/// The step behind the description of the active window, given its class in
/// lower case.
pub fn after_window(info: &Vec<(String, String)>, lower: &str) -> (step: Step)
    ensures
        step@ == window_step(info.deep_view(), lower@),
{
    if is_picker_class(lower) {
        return finish();
    }
    match snapshot_of(info) {
        Err(missing) => fail(missing_part_message(missing)),
        Ok(snapshot) => {
            let icon = icon_for_lowered(lower);
            match snapshot_geometry(&snapshot) {
                Some(region) => {
                    let plan = preview_plan(snapshot.key.as_str(), region);
                    ask(Next::Capture { plan, then: AfterCapture { snapshot, icon } })
                },
                None => hide_window(capture_record(&snapshot, icon.as_str(), None)),
            }
        },
    }
}

/// The step behind the description of the active window.
pub fn after_described_window(info: &Vec<(String, String)>) -> (step: Step)
    ensures
        step@ == described_window_step(info.deep_view()),
{
    match field(info, "class") {
        Some(class) => {
            let lower = class.as_str().to_lowercase();
            after_window(info, lower.as_str())
        },
        None => match field(info, "address") {
            Some(_) => fail(missing_part_message(Missing::Class)),
            None => fail(missing_part_message(Missing::Address)),
        },
    }
}

/// The step behind a report of the control program.
pub fn after_command(state: AfterCommand, output: &CommandOutput) -> (step: Step)
    ensures
        step@ == command_step(state@, output@),
{
    match state {
        AfterCommand::ActiveWindow => {
            if output.success {
                let info = parse_window_info(output.stdout.as_str());
                after_described_window(&info)
            } else {
                fail(window_query_failure(output.stderr.as_str()))
            }
        },
        AfterCommand::Hide { record } => {
            if output.success {
                ask(Next::ReadStore { then: AfterStore::Append { record } })
            } else {
                fail(
                    hide_failure(
                        record.window_class.as_str(),
                        record.key.as_str(),
                        output.stdout.as_str(),
                        output.stderr.as_str(),
                    ),
                )
            }
        },
        AfterCommand::Workspace { key, queue } => {
            if output.success {
                let info = parse_window_info(output.stdout.as_str());
                let mut target = format_i32(workspace_number(&info));
                target.append(",address:");
                target.append(key.as_str());
                ask(
                    Next::Run {
                        arguments: dispatch_arguments("movetoworkspace", target),
                        then: AfterCommand::Move { key, queue },
                    },
                )
            } else {
                let message = workspace_query_failure(key.as_str(), output.stderr.as_str());
                Step { effects: logging(Some(message)), next: restore_queue(queue) }
            }
        },
        AfterCommand::Move { key, queue } => {
            let message = if output.success {
                None
            } else {
                Some(move_failure(key.as_str(), output.stdout.as_str(), output.stderr.as_str()))
            };
            let mut target = "address:".to_owned();
            target.append(key.as_str());
            Step {
                effects: logging(message),
                next: Next::Run {
                    arguments: dispatch_arguments("focuswindow", target),
                    then: AfterCommand::Focus { key, queue },
                },
            }
        },
        AfterCommand::Focus { key, queue } => {
            let message = if output.success {
                None
            } else {
                Some(focus_failure(key.as_str(), output.stdout.as_str(), output.stderr.as_str()))
            };
            Step {
                effects: logging(message),
                next: Next::ReadStore { then: AfterStore::Remove { key, queue } },
            }
        },
    }
}

/// The step behind the making of a thumbnail. `made` says whether there is
/// one now.
pub fn after_capture(state: AfterCapture, made: bool) -> (step: Step)
    ensures
        step@ == capture_step(state@, made),
{
    let preview = if made {
        let mut path = "/tmp/window-previews/".to_owned();
        path.append(state.snapshot.key.as_str());
        path.append(".thumb.png");
        Some(path)
    } else {
        None
    };
    hide_window(capture_record(&state.snapshot, state.icon.as_str(), preview))
}

/// The step behind the answer of the picker: `Ok` with what it wrote, or
/// `Err` with the reason why it could not be run.
pub fn after_pick(state: AfterPick, picked: Result<String, String>) -> (step: Step)
    ensures
        step@ == pick_step(state@, picked_view(picked)),
{
    match picked {
        Err(reason) => fail(picker_failure(reason.as_str())),
        Ok(raw) => {
            match interpret_selection(raw.as_str(), state.keys.len()) {
                Selection::Cancelled => finish(),
                Selection::Chosen(index) => {
                    ask(restore_queue(queue_of(state.keys[index].clone())))
                },
                Selection::OutOfRange(index) => fail(
                    index_out_of_range_message(index, state.keys.len()),
                ),
                Selection::Invalid(why) => fail(answer_invalid_message(raw.as_str(), why)),
            }
        },
    }
}

/// The step behind the reading of the store.
pub fn after_store(state: AfterStore, content: &str) -> (step: Step)
    ensures
        step@ == store_step(state@, content@),
{
    match state {
        AfterStore::Append { record } => {
            let mut effects: Vec<Effect> = Vec::new();
            let text = append_to_text(content, record);
            effects.push(Effect::WriteStore(text));
            assert(effects.deep_view() =~= seq![EffectView::WriteStore(text@)]);
            Step { effects, next: Next::Done }
        },
        AfterStore::Remove { key, queue } => {
            let mut effects: Vec<Effect> = Vec::new();
            let text = remove_from_text(content, key.as_str());
            effects.push(Effect::WriteStore(text));
            assert(effects.deep_view() =~= seq![EffectView::WriteStore(text@)]);
            Step { effects, next: restore_queue(queue) }
        },
        AfterStore::Menu => {
            let store = parse_windows_from_json(content);
            if store.len() == 0 {
                finish()
            } else {
                ask(
                    Next::Pick {
                        input: menu_input(&store),
                        then: AfterPick { keys: keys(&store) },
                    },
                )
            }
        },
        AfterStore::Last => {
            let store = parse_windows_from_json(content);
            if store.len() == 0 {
                finish()
            } else {
                ask(restore_queue(queue_of(store[store.len() - 1].key.clone())))
            }
        },
        AfterStore::All => {
            let store = parse_windows_from_json(content);
            ask(restore_queue(keys(&store)))
        },
        AfterStore::Status => {
            let store = parse_windows_from_json(content);
            let mut effects: Vec<Effect> = Vec::new();
            let line = status_line(&status_of(store.len()));
            effects.push(Effect::Print(line));
            assert(effects.deep_view() =~= seq![EffectView::Print(line@)]);
            Step { effects, next: Next::Done }
        },
    }
}

// ------------------------------------------------------------- the starts

/// The first step of minimizing the active window.
pub fn minimize_window() -> (step: Step)
    ensures
        step@ == asking(
            NextView::Run { arguments: window_query(), then: AfterCommandView::ActiveWindow },
        ),
{
    ask(Next::Run { arguments: query_arguments("activewindow"), then: AfterCommand::ActiveWindow })
}

/// The first step of restoring the window `window_id`.
pub fn restore_specific_window(window_id: &str) -> (step: Step)
    ensures
        step@ == asking(restoring(seq![window_id@])),
{
    ask(restore_queue(queue_of(window_id.to_owned())))
}

/// The first step of restoring a window that the picker chooses.
pub fn show_restore_menu() -> (step: Step)
    ensures
        step@ == asking(NextView::ReadStore { then: AfterStoreView::Menu }),
{
    ask(Next::ReadStore { then: AfterStore::Menu })
}

/// The first step of restoring a window: the one named, or one that the
/// picker chooses.
pub fn restore_window(window_id: Option<&str>) -> (step: Step)
    ensures
        step@ == (match window_id {
            Some(id) => asking(restoring(seq![id@])),
            None => asking(NextView::ReadStore { then: AfterStoreView::Menu }),
        }),
{
    match window_id {
        Some(id) => restore_specific_window(id),
        None => show_restore_menu(),
    }
}

/// The first step of restoring the window that was minimized last.
pub fn restore_last_window() -> (step: Step)
    ensures
        step@ == asking(NextView::ReadStore { then: AfterStoreView::Last }),
{
    ask(Next::ReadStore { then: AfterStore::Last })
}

/// The first step of restoring all windows.
pub fn restore_all_windows() -> (step: Step)
    ensures
        step@ == asking(NextView::ReadStore { then: AfterStoreView::All }),
{
    ask(Next::ReadStore { then: AfterStore::All })
}

/// The first step of printing the status.
pub fn show_status() -> (step: Step)
    ensures
        step@ == asking(NextView::ReadStore { then: AfterStoreView::Status }),
{
    ask(Next::ReadStore { then: AfterStore::Status })
}

// ------------------------------------------------------------------- laws

/// The picker itself is never minimized: for its class nothing is asked and
/// nothing is written.
pub proof fn picker_is_never_minimized(pairs: Pairs, lower: Seq<char>)
    requires
        is_picker(lower),
    ensures
        window_step(pairs, lower) == finished(),
{
}

/// A window that could not be hidden leaves the store as it is: the failure
/// is written to the log, and the run is over.
pub proof fn failed_hide_writes_nothing(record: WindowView, output: CommandOutputView)
    requires
        !output.success,
    ensures
        command_step(AfterCommandView::Hide { record }, output) == failed(
            hide_failed(record.window_class, record.key, output.stdout, output.stderr),
        ),
{
}

/// A window that was hidden is appended to the store, behind the records
/// that are there.
pub proof fn hidden_window_is_appended(
    record: WindowView,
    output: CommandOutputView,
    content: Seq<char>,
)
    requires
        output.success,
    ensures
        command_step(AfterCommandView::Hide { record }, output).next matches NextView::ReadStore {
            then,
        } && store_step(then, content).effects == seq![
            EffectView::WriteStore(encoded(decoded(content).push(record))),
        ],
{
}

/// Where the active workspace cannot be asked for, the window is not
/// restored and the store is not written: the run goes on with the windows
/// that wait.
pub proof fn unknown_workspace_restores_nothing(
    key: Seq<char>,
    queue: Seq<Seq<char>>,
    output: CommandOutputView,
)
    requires
        !output.success,
    ensures
        command_step(AfterCommandView::Workspace { key, queue }, output) == (StepView {
            effects: seq![EffectView::Log(workspace_query_failed(key, output.stderr))],
            next: restoring(queue),
        }),
{
}

/// Once the active workspace is known, the records of the window are
/// removed from the store, whatever the moving and the focusing report.
pub proof fn restore_removes_whatever_is_reported(
    key: Seq<char>,
    queue: Seq<Seq<char>>,
    moved: CommandOutputView,
    focused: CommandOutputView,
    content: Seq<char>,
)
    ensures
        command_step(AfterCommandView::Move { key, queue }, moved).next matches NextView::Run {
            then: after_move,
            ..
        } && command_step(after_move, focused).next matches NextView::ReadStore {
            then: after_focus,
        } && store_step(after_focus, content) == (StepView {
            effects: seq![EffectView::WriteStore(encoded(without_key(decoded(content), key)))],
            next: restoring(queue),
        }),
{
}

/// Selection: where the picker answers with the index of a line it was
/// shown, the window of that line is restored.
pub proof fn picked_index_restores_its_window(keys: Seq<Seq<char>>, index: usize)
    requires
        index < keys.len() <= usize::MAX,
    ensures
        pick_step(AfterPickView { keys }, Ok(decimal(index as nat))) == asking(
            restoring(seq![keys[index as int]]),
        ),
{
    index_in_range_is_chosen(index, keys.len() as usize);
}

} // verus!
