//! The lines written to the error log.

use vstd::prelude::*;
use crate::capture::Missing;
use crate::codec::push_quoted;
use crate::format::quoted;
use crate::text::{decimal, push_decimal, trim, trimmed, NumberError};

verus! {

/// What a failed command wrote, as the end of a message.
pub open spec fn outputs(stdout: Seq<char>, stderr: Seq<char>) -> Seq<char> {
    " \u{2014} stdout="@ + trimmed(stdout) + " stderr="@ + trimmed(stderr)
}

/// The message for a failed query of the active window.
pub open spec fn window_query_failed(stderr: Seq<char>) -> Seq<char> {
    "minimize: hyprctl activewindow failed \u{2014} "@ + trimmed(stderr)
}

/// The message for a window whose description lacks a part.
pub open spec fn missing_part(missing: Missing) -> Seq<char> {
    match missing {
        Missing::Address => "minimize: No address found"@,
        Missing::Class => "minimize: No class found"@,
        Missing::Title => "minimize: No title found"@,
    }
}

/// The message for a window that could not be hidden.
pub open spec fn hide_failed(
    class: Seq<char>,
    key: Seq<char>,
    stdout: Seq<char>,
    stderr: Seq<char>,
) -> Seq<char> {
    "minimize: movetoworkspacesilent failed for class="@ + class + " address="@ + key + outputs(
        stdout,
        stderr,
    )
}

/// The message for a failed query of the active workspace.
pub open spec fn workspace_query_failed(key: Seq<char>, stderr: Seq<char>) -> Seq<char> {
    "restore: hyprctl activeworkspace failed for address="@ + key + " \u{2014} "@ + trimmed(
        stderr,
    )
}

/// The message for a window that could not be moved back.
pub open spec fn move_failed(key: Seq<char>, stdout: Seq<char>, stderr: Seq<char>) -> Seq<char> {
    "restore: movetoworkspace failed for address="@ + key + outputs(stdout, stderr)
}

/// The message for a window that could not be focused.
pub open spec fn focus_failed(key: Seq<char>, stdout: Seq<char>, stderr: Seq<char>) -> Seq<char> {
    "restore: focuswindow failed for address="@ + key + outputs(stdout, stderr)
}

/// The message for an answer of the picker that names no record.
pub open spec fn index_out_of_range(index: nat, count: nat) -> Seq<char> {
    "restore: walker returned index "@ + decimal(index) + " but only "@ + decimal(count)
        + " windows are minimized"@
}

/// Why a text is not read as a number, in words.
pub open spec fn number_error_text(why: NumberError) -> Seq<char> {
    match why {
        NumberError::Empty => "cannot parse integer from empty string"@,
        NumberError::InvalidDigit => "invalid digit found in string"@,
        NumberError::TooLarge => "number too large to fit in target type"@,
    }
}

/// The message for an answer of the picker that is no number: the answer in
/// quotes, and the reason.
pub open spec fn answer_invalid(raw: Seq<char>, why: NumberError) -> Seq<char> {
    "restore: could not parse walker output "@ + quoted(trimmed(raw)) + " as index \u{2014} "@
        + number_error_text(why)
}

/// The message for a picker that could not be run.
pub open spec fn picker_failed(reason: Seq<char>) -> Seq<char> {
    "restore: "@ + reason
}

/// A line of the error log: the time in brackets, and the message.
pub open spec fn log_line_for(timestamp: Seq<char>, message: Seq<char>) -> Seq<char> {
    "["@ + trimmed(timestamp) + "] ERROR: "@ + message
}

/// Appends what a failed command wrote to `message`.
fn push_outputs(message: &mut String, stdout: &str, stderr: &str)
    ensures
        final(message)@ == old(message)@ + outputs(stdout@, stderr@),
{
    let out = trim(stdout);
    let err = trim(stderr);
    message.append(" \u{2014} stdout=");
    message.append(out.as_str());
    message.append(" stderr=");
    message.append(err.as_str());
}

/// The message for a failed query of the active window.
pub fn window_query_failure(stderr: &str) -> (message: String)
    ensures
        message@ == window_query_failed(stderr@),
{
    let err = trim(stderr);
    let mut message = "minimize: hyprctl activewindow failed \u{2014} ".to_owned();
    message.append(err.as_str());
    message
}

/// The message for a window whose description lacks a part.
pub fn missing_part_message(missing: Missing) -> (message: String)
    ensures
        message@ == missing_part(missing),
{
    match missing {
        Missing::Address => "minimize: No address found".to_owned(),
        Missing::Class => "minimize: No class found".to_owned(),
        Missing::Title => "minimize: No title found".to_owned(),
    }
}

/// The message for a window that could not be hidden.
pub fn hide_failure(class: &str, key: &str, stdout: &str, stderr: &str) -> (message: String)
    ensures
        message@ == hide_failed(class@, key@, stdout@, stderr@),
{
    let mut message = "minimize: movetoworkspacesilent failed for class=".to_owned();
    message.append(class);
    message.append(" address=");
    message.append(key);
    push_outputs(&mut message, stdout, stderr);
    message
}

/// The message for a failed query of the active workspace.
pub fn workspace_query_failure(key: &str, stderr: &str) -> (message: String)
    ensures
        message@ == workspace_query_failed(key@, stderr@),
{
    let err = trim(stderr);
    let mut message = "restore: hyprctl activeworkspace failed for address=".to_owned();
    message.append(key);
    message.append(" \u{2014} ");
    message.append(err.as_str());
    message
}

/// The message for a window that could not be moved back.
pub fn move_failure(key: &str, stdout: &str, stderr: &str) -> (message: String)
    ensures
        message@ == move_failed(key@, stdout@, stderr@),
{
    let mut message = "restore: movetoworkspace failed for address=".to_owned();
    message.append(key);
    push_outputs(&mut message, stdout, stderr);
    message
}

/// The message for a window that could not be focused.
pub fn focus_failure(key: &str, stdout: &str, stderr: &str) -> (message: String)
    ensures
        message@ == focus_failed(key@, stdout@, stderr@),
{
    let mut message = "restore: focuswindow failed for address=".to_owned();
    message.append(key);
    push_outputs(&mut message, stdout, stderr);
    message
}

/// The message for an answer of the picker that names no record.
pub fn index_out_of_range_message(index: usize, count: usize) -> (message: String)
    ensures
        message@ == index_out_of_range(index as nat, count as nat),
{
    let mut message = "restore: walker returned index ".to_owned();
    push_decimal(&mut message, index as u64);
    message.append(" but only ");
    push_decimal(&mut message, count as u64);
    message.append(" windows are minimized");
    message
}

/// Why a text is not read as a number, in words.
pub fn number_error_message(why: NumberError) -> (text: &'static str)
    ensures
        text@ == number_error_text(why),
{
    match why {
        NumberError::Empty => "cannot parse integer from empty string",
        NumberError::InvalidDigit => "invalid digit found in string",
        NumberError::TooLarge => "number too large to fit in target type",
    }
}

/// The message for an answer of the picker that is no number.
pub fn answer_invalid_message(raw: &str, why: NumberError) -> (message: String)
    ensures
        message@ == answer_invalid(raw@, why),
{
    let answer = trim(raw);
    let mut message = "restore: could not parse walker output ".to_owned();
    push_quoted(&mut message, answer.as_str());
    message.append(" as index \u{2014} ");
    message.append(number_error_message(why));
    message
}

/// The message for a picker that could not be run.
pub fn picker_failure(reason: &str) -> (message: String)
    ensures
        message@ == picker_failed(reason@),
{
    let mut message = "restore: ".to_owned();
    message.append(reason);
    message
}

/// A line of the error log.
pub fn log_line(timestamp: &str, message: &str) -> (line: String)
    ensures
        line@ == log_line_for(timestamp@, message@),
{
    let time = trim(timestamp);
    let mut line = "[".to_owned();
    line.append(time.as_str());
    line.append("] ERROR: ");
    line.append(message);
    line
}

} // verus!
