use omaveil::status::{status_line, status_of, Status};

#[test]
fn status_of_an_empty_store() {
    let status = status_of(0);
    assert_eq!(status.class, "empty");
    assert_eq!(status.text, "\u{f0638}");
    assert_eq!(status.tooltip, "No minimized windows");
}

#[test]
fn status_of_two_records() {
    let status = status_of(2);
    assert_eq!(status.class, "has-windows");
    assert_eq!(status.text, "\u{f0638} 2");
    assert_eq!(status.tooltip, "2 minimized windows");
    assert!(status.tooltip.contains("2"));
}

#[test]
fn status_of_many_records() {
    assert_eq!(status_of(1).tooltip, "1 minimized windows");
    assert_eq!(status_of(12).tooltip, "12 minimized windows");
    assert_eq!(status_of(12).text, "\u{f0638} 12");
    assert_eq!(status_of(100).class, "has-windows");
}

#[test]
fn status_as_a_line() {
    assert_eq!(
        status_line(&status_of(0)),
        "{\"text\":\"\u{f0638}\",\"class\":\"empty\",\"tooltip\":\"No minimized windows\"}"
    );
    assert_eq!(
        status_line(&status_of(2)),
        "{\"text\":\"\u{f0638} 2\",\"class\":\"has-windows\",\"tooltip\":\"2 minimized windows\"}"
    );
    let odd = Status {
        text: "a\"b".to_string(),
        class: "c\\d".to_string(),
        tooltip: String::new(),
    };
    assert_eq!(status_line(&odd), "{\"text\":\"a\\\"b\",\"class\":\"c\\\\d\",\"tooltip\":\"\"}");
}
