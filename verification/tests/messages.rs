use omaveil::capture::Missing;
use omaveil::messages::{
    answer_invalid_message, focus_failure, hide_failure, index_out_of_range_message, log_line,
    missing_part_message, move_failure, number_error_message, picker_failure,
    window_query_failure, workspace_query_failure,
};
use omaveil::text::NumberError;

#[test]
fn messages_of_minimizing() {
    assert_eq!(
        window_query_failure(" no socket\n"),
        "minimize: hyprctl activewindow failed \u{2014} no socket"
    );
    assert_eq!(missing_part_message(Missing::Address), "minimize: No address found");
    assert_eq!(missing_part_message(Missing::Class), "minimize: No class found");
    assert_eq!(missing_part_message(Missing::Title), "minimize: No title found");
    assert_eq!(
        hide_failure("kitty", "0xAA", "ok\n", " bad \n"),
        "minimize: movetoworkspacesilent failed for class=kitty address=0xAA \u{2014} stdout=ok stderr=bad"
    );
}

#[test]
fn messages_of_restoring() {
    assert_eq!(
        workspace_query_failure("0xAA", "boom\n"),
        "restore: hyprctl activeworkspace failed for address=0xAA \u{2014} boom"
    );
    assert_eq!(
        move_failure("0xAA", "", "e\n"),
        "restore: movetoworkspace failed for address=0xAA \u{2014} stdout= stderr=e"
    );
    assert_eq!(
        focus_failure("0xAA", "o", ""),
        "restore: focuswindow failed for address=0xAA \u{2014} stdout=o stderr="
    );
}

#[test]
fn messages_of_the_picker() {
    assert_eq!(
        index_out_of_range_message(5, 3),
        "restore: walker returned index 5 but only 3 windows are minimized"
    );
    assert_eq!(
        answer_invalid_message(" a\"b\n", NumberError::InvalidDigit),
        "restore: could not parse walker output \"a\\\"b\" as index \u{2014} invalid digit found in string"
    );
    assert_eq!(
        answer_invalid_message("99999999999999999999999", NumberError::TooLarge),
        "restore: could not parse walker output \"99999999999999999999999\" as index \u{2014} number too large to fit in target type"
    );
    assert_eq!(number_error_message(NumberError::Empty), "cannot parse integer from empty string");
    assert_eq!(
        picker_failure("failed to spawn walker \u{2014} not found"),
        "restore: failed to spawn walker \u{2014} not found"
    );
}

#[test]
fn line_of_the_log() {
    assert_eq!(
        log_line("2026-01-02 03:04:05\n", "restore: x"),
        "[2026-01-02 03:04:05] ERROR: restore: x"
    );
    assert_eq!(log_line("?", ""), "[?] ERROR: ");
}
