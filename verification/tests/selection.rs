use omaveil::record::MinimizedWindow;
use omaveil::selection::{interpret_selection, menu_input, picker_arguments, Selection};
use omaveil::text::NumberError;

fn record(key: &str, class: &str, title: &str) -> MinimizedWindow {
    MinimizedWindow {
        key: key.to_string(),
        display_label: format!("\u{f05b2} {} - {} [{}]", class, title, key),
        window_class: class.to_string(),
        original_title: title.to_string(),
        preview_path: None,
    }
}

#[test]
fn answer_one_of_three_chooses_the_second() {
    assert_eq!(interpret_selection("1", 3), Selection::Chosen(1));
    assert_eq!(interpret_selection("1\n", 3), Selection::Chosen(1));
    assert_eq!(interpret_selection("0", 3), Selection::Chosen(0));
    assert_eq!(interpret_selection("2", 3), Selection::Chosen(2));
}

#[test]
fn empty_answer_is_a_cancellation() {
    assert_eq!(interpret_selection("", 3), Selection::Cancelled);
    assert_eq!(interpret_selection("\n", 3), Selection::Cancelled);
    assert_eq!(interpret_selection("  \t ", 3), Selection::Cancelled);
    assert_eq!(interpret_selection("", 0), Selection::Cancelled);
}

#[test]
fn answer_beyond_the_list_is_out_of_range() {
    assert_eq!(interpret_selection("5", 3), Selection::OutOfRange(5));
    assert_eq!(interpret_selection("3", 3), Selection::OutOfRange(3));
    assert_eq!(interpret_selection("0", 0), Selection::OutOfRange(0));
    assert_eq!(
        interpret_selection(&usize::MAX.to_string(), 3),
        Selection::OutOfRange(usize::MAX)
    );
}

#[test]
fn answer_that_is_no_number_is_invalid() {
    let no_digit = Selection::Invalid(NumberError::InvalidDigit);
    assert_eq!(interpret_selection("abc", 3), no_digit);
    assert_eq!(interpret_selection("-1", 3), no_digit);
    assert_eq!(interpret_selection("1 2", 3), no_digit);
    assert_eq!(interpret_selection("1.0", 3), no_digit);
    assert_eq!(interpret_selection("+", 3), no_digit);
    assert_eq!(
        interpret_selection("99999999999999999999999999", 3),
        Selection::Invalid(NumberError::TooLarge)
    );
}

#[test]
fn answer_with_sign_or_zeros_is_a_number() {
    assert_eq!(interpret_selection("+1", 3), Selection::Chosen(1));
    assert_eq!(interpret_selection("001", 3), Selection::Chosen(1));
    assert_eq!(interpret_selection(" 2 ", 3), Selection::Chosen(2));
}

#[test]
fn menu_has_one_line_for_each_record() {
    let store = vec![
        record("0x1", "firefox", "Home"),
        record("0x2", "kitty", "~ - shell"),
        record("0x3", "", ""),
    ];
    assert_eq!(menu_input(&store), "firefox - Home\nkitty - ~ - shell\n - ");
    assert_eq!(menu_input(&store[..1].to_vec()), "firefox - Home");
    assert_eq!(menu_input(&Vec::new()), "");
}

#[test]
fn picker_is_asked_for_an_index() {
    assert_eq!(picker_arguments(), vec!["-d", "-i", "-p", "Restore window:"]);
}
