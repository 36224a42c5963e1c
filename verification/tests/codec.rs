use omaveil::codec::{
    create_json_output, field, field_or_empty, parse_window_info, parse_windows_from_json,
    window_of,
};
use omaveil::record::MinimizedWindow;

fn window(key: &str, label: &str, class: &str, title: &str, preview: Option<&str>) -> MinimizedWindow {
    MinimizedWindow {
        key: key.to_string(),
        display_label: label.to_string(),
        window_class: class.to_string(),
        original_title: title.to_string(),
        preview_path: preview.map(|p| p.to_string()),
    }
}

fn pair(name: &str, value: &str) -> (String, String) {
    (name.to_string(), value.to_string())
}

#[test]
fn encode_of_no_records_is_a_pair_of_brackets() {
    assert_eq!(create_json_output(&[]), "[]");
}

#[test]
fn encode_writes_the_members_in_order() {
    let w = window("0xAA", "f firefox - Home [0xAA]", "firefox", "Home", Some("/tmp/p.png"));
    assert_eq!(
        create_json_output(&[w]),
        "[{\"address\":\"0xAA\",\"display_title\":\"f firefox - Home [0xAA]\",\"class\":\"firefox\",\"original_title\":\"Home\",\"preview\":\"/tmp/p.png\"}]"
    );
}

#[test]
fn encode_leaves_out_a_missing_preview() {
    let w = window("0xAA", "l", "c", "t", None);
    assert_eq!(
        create_json_output(&[w]),
        "[{\"address\":\"0xAA\",\"display_title\":\"l\",\"class\":\"c\",\"original_title\":\"t\"}]"
    );
}

#[test]
fn encode_separates_records_by_commas() {
    let a = window("a", "", "", "", None);
    let b = window("b", "", "", "", None);
    assert_eq!(
        create_json_output(&[a, b]),
        "[{\"address\":\"a\",\"display_title\":\"\",\"class\":\"\",\"original_title\":\"\"},{\"address\":\"b\",\"display_title\":\"\",\"class\":\"\",\"original_title\":\"\"}]"
    );
}

#[test]
fn encode_escapes_quotes_and_backslashes() {
    let w = window("k", "", "", "say \"hi\" \\ bye", None);
    let text = create_json_output(&[w]);
    assert!(text.contains("\"original_title\":\"say \\\"hi\\\" \\\\ bye\""));
}

#[test]
fn decode_of_empty_text_is_empty() {
    assert_eq!(parse_windows_from_json(""), Vec::<MinimizedWindow>::new());
}

#[test]
fn decode_of_empty_list_is_empty() {
    assert_eq!(parse_windows_from_json("[]"), Vec::<MinimizedWindow>::new());
}

#[test]
fn decode_of_white_space_is_empty() {
    assert_eq!(parse_windows_from_json("  \n [ ] \n"), Vec::<MinimizedWindow>::new());
}

#[test]
fn round_trip_of_plain_records() {
    let all = vec![
        window("0xAA", "f firefox - Home [0xAA]", "firefox", "Home", Some("/tmp/a.thumb.png")),
        window("0xBB", "k kitty - shell [0xBB]", "kitty", "shell", None),
    ];
    assert_eq!(parse_windows_from_json(&create_json_output(&all)), all);
}

#[test]
fn round_trip_of_quotes_in_every_field() {
    let all = vec![window("\"k\"", "a \"b\" c", "cl\"ass", "\"", Some("/tmp/\"x\".png"))];
    assert_eq!(parse_windows_from_json(&create_json_output(&all)), all);
}

#[test]
fn round_trip_of_backslashes() {
    let all = vec![
        window("k1", "ends with \\", "c\\", "\\\"", None),
        window("k2", "\\\\", "\\n", "a\\\"b", Some("\\")),
    ];
    assert_eq!(parse_windows_from_json(&create_json_output(&all)), all);
}

#[test]
fn round_trip_of_unicode_glyphs() {
    let all = vec![window(
        "0x1",
        "\u{f066f} discord - caf\u{e9} \u{1f600} [0x1]",
        "discord",
        "caf\u{e9} \u{1f600} \u{4e2d}\u{6587}",
        None,
    )];
    assert_eq!(parse_windows_from_json(&create_json_output(&all)), all);
}

#[test]
fn round_trip_of_delimiters_in_titles() {
    let all = vec![
        window("0x1", "a, b: c", "x{y}z", "},{", Some("[]")),
        window("0x2", "{\"address\":\"fake\"}", "]", "[", None),
    ];
    assert_eq!(parse_windows_from_json(&create_json_output(&all)), all);
}

#[test]
fn round_trip_of_empty_fields() {
    let all = vec![window("", "", "", "", Some("")), window("", "", "", "", None)];
    assert_eq!(parse_windows_from_json(&create_json_output(&all)), all);
}

#[test]
fn round_trip_of_line_breaks() {
    let all = vec![window("k", "one\ntwo", "c\tc", "\r\n", None)];
    assert_eq!(parse_windows_from_json(&create_json_output(&all)), all);
}

#[test]
fn round_trip_of_many_records_keeps_the_order() {
    let mut all = Vec::new();
    for i in 0..25 {
        all.push(window(&format!("0x{}", i), &format!("label {}", i), "c", &format!("t\"{}", i), None));
    }
    assert_eq!(parse_windows_from_json(&create_json_output(&all)), all);
}

#[test]
fn decode_defaults_missing_fields() {
    let got = parse_windows_from_json("[{\"address\":\"0x1\"}]");
    assert_eq!(got, vec![window("0x1", "", "", "", None)]);
}

#[test]
fn decode_of_an_empty_object_is_an_empty_record() {
    let got = parse_windows_from_json("[{}]");
    assert_eq!(got, vec![window("", "", "", "", None)]);
}

#[test]
fn decode_passes_over_unknown_members() {
    let got = parse_windows_from_json(
        "[{\"address\":\"0x1\",\"icon\":\"x\",\"class\":\"kitty\",\"preview\":\"\"}]",
    );
    assert_eq!(got, vec![window("0x1", "", "kitty", "", Some(""))]);
}

#[test]
fn decode_takes_the_last_of_two_members_with_one_name() {
    let got = parse_windows_from_json("[{\"address\":\"old\",\"address\":\"new\"}]");
    assert_eq!(got[0].key, "new");
}

#[test]
fn decode_allows_white_space() {
    let got = parse_windows_from_json(
        " [ { \"address\" : \"0x1\" ,\n \"class\"\t:\t\"kitty\" } ,\n { \"address\":\"0x2\" } ] ",
    );
    assert_eq!(got, vec![window("0x1", "", "kitty", "", None), window("0x2", "", "", "", None)]);
}

#[test]
fn decode_of_truncated_text_is_empty() {
    let none = Vec::<MinimizedWindow>::new();
    assert_eq!(parse_windows_from_json("[{\"address\":\"0x1\"},{\"address\":\"0x2"), none);
    assert_eq!(parse_windows_from_json("[{\"address\":\"0x1\"},{\"address\":\"0x2\","), none);
    assert_eq!(parse_windows_from_json("[{\"address\":\"0x1\"}"), none);
}

#[test]
fn decode_of_text_that_is_no_bracketed_list_is_empty() {
    let none = Vec::<MinimizedWindow>::new();
    assert_eq!(parse_windows_from_json("{}"), none);
    assert_eq!(parse_windows_from_json("{\"address\":\"0x1\"}"), none);
    assert_eq!(parse_windows_from_json("{\"address\":\"0x1\"}]"), none);
    assert_eq!(parse_windows_from_json("x[{\"address\":\"0x1\"}]"), none);
    assert_eq!(parse_windows_from_json("[{\"address\":\"0x1\"}]x"), none);
    assert_eq!(parse_windows_from_json("["), none);
    assert_eq!(parse_windows_from_json("]"), none);
    assert_eq!(parse_windows_from_json("]["), none);
}

#[test]
fn decode_of_a_list_that_was_cut_keeps_the_complete_objects() {
    let got = parse_windows_from_json("[{\"address\":\"0x1\"},{\"address\":\"0x2]");
    assert_eq!(got, vec![window("0x1", "", "", "", None)]);
}

#[test]
fn decode_takes_white_space_off_the_ends() {
    let got = parse_windows_from_json("\n\t [{\"address\":\"0x1\"}] \u{a0}\n");
    assert_eq!(got, vec![window("0x1", "", "", "", None)]);
}

#[test]
fn decode_of_text_without_objects_is_empty() {
    assert_eq!(parse_windows_from_json("not a store"), Vec::<MinimizedWindow>::new());
    assert_eq!(parse_windows_from_json("[1, 2, \"three\"]"), Vec::<MinimizedWindow>::new());
}

#[test]
fn decode_passes_over_text_between_objects() {
    let got = parse_windows_from_json("[junk{\"address\":\"a\"}more junk{\"address\":\"b\"}]]");
    assert_eq!(got, vec![window("a", "", "", "", None), window("b", "", "", "", None)]);
}

#[test]
fn decode_does_not_take_a_brace_inside_a_literal_for_the_end() {
    let got = parse_windows_from_json("[{\"original_title\":\"a}b\",\"address\":\"0x1\"}]");
    assert_eq!(got, vec![window("0x1", "", "", "a}b", None)]);
}

#[test]
fn decode_reads_a_value_without_quotes() {
    let got = parse_windows_from_json("[{\"address\":0x1,\"class\":kitty}]");
    assert_eq!(got, vec![window("0x1", "", "kitty", "", None)]);
}

#[test]
fn window_info_of_a_window_description() {
    let text = "{\n    \"address\": \"0x55d8c1a0\",\n    \"mapped\": true,\n    \"workspace\": {\n        \"id\": 3,\n        \"name\": \"3\"\n    },\n    \"class\": \"firefox\",\n    \"title\": \"Rust: a \\\"safe\\\" language, really\"\n}";
    let info = parse_window_info(text);
    assert_eq!(
        info,
        vec![
            pair("address", "0x55d8c1a0"),
            pair("mapped", "true"),
            pair("workspace", "{\n        \"id\": 3,\n        \"name\": \"3\"\n    }"),
            pair("class", "firefox"),
            pair("title", "Rust: a \"safe\" language, really"),
        ]
    );
}

#[test]
fn window_info_of_a_workspace_description() {
    let info = parse_window_info("{\"id\": -98, \"name\": \"special:minimum\"}");
    assert_eq!(info, vec![pair("id", "-98"), pair("name", "special:minimum")]);
}

#[test]
fn window_info_of_empty_text_is_empty() {
    assert_eq!(parse_window_info(""), Vec::<(String, String)>::new());
    assert_eq!(parse_window_info("{}"), Vec::<(String, String)>::new());
}

#[test]
fn window_info_passes_over_a_literal_without_colon() {
    let info = parse_window_info("\"lonely\", \"a\": \"b\"");
    assert_eq!(info, vec![pair("a", "b")]);
}

#[test]
fn window_info_stops_at_a_literal_that_does_not_end() {
    let info = parse_window_info("\"a\": \"b\", \"c\": \"never closed");
    assert_eq!(info, vec![pair("a", "b")]);
    let info = parse_window_info("\"a\": \"b\", \"never closed");
    assert_eq!(info, vec![pair("a", "b")]);
}

#[test]
fn window_info_value_without_quotes_ends_at_space_comma_or_brace() {
    let info = parse_window_info("\"a\": 12 34, \"b\": [1,2], \"c\": x}y, \"d\":");
    assert_eq!(info, vec![pair("a", "12"), pair("b", "[1,2]"), pair("c", "x"), pair("d", "")]);
}

#[test]
fn window_info_reads_an_escaped_character_as_itself() {
    let info = parse_window_info("\"a\\\\b\": \"c\\nd\"");
    assert_eq!(info, vec![pair("a\\b", "cnd")]);
}

#[test]
fn field_is_the_last_with_the_name() {
    let info = vec![pair("a", "1"), pair("b", "2"), pair("a", "3")];
    assert_eq!(field(&info, "a"), Some("3".to_string()));
    assert_eq!(field(&info, "b"), Some("2".to_string()));
    assert_eq!(field(&info, "c"), None);
    assert_eq!(field_or_empty(&info, "c"), "");
    assert_eq!(field_or_empty(&info, "b"), "2");
}

#[test]
fn window_of_members() {
    let info = vec![
        pair("class", "kitty"),
        pair("address", "0x9"),
        pair("original_title", "sh"),
        pair("display_title", "k kitty - sh [0x9]"),
        pair("preview", "/tmp/x"),
    ];
    assert_eq!(window_of(&info), window("0x9", "k kitty - sh [0x9]", "kitty", "sh", Some("/tmp/x")));
    assert_eq!(window_of(&Vec::new()), window("", "", "", "", None));
}

#[test]
fn decode_passes_over_an_object_that_does_not_end() {
    let got = parse_windows_from_json("[{\"a{\"address\":\"x\"}]");
    assert_eq!(got, vec![window("x", "", "", "", None)]);
    let got = parse_windows_from_json("[{{{\"address\":\"y\"}]");
    assert_eq!(got, vec![window("y", "", "", "", None)]);
    assert_eq!(parse_windows_from_json("[{{{{]"), Vec::<MinimizedWindow>::new());
}

#[test]
fn window_info_value_without_quotes_ends_at_a_quote() {
    let info = parse_window_info("\"a\": x\"b\": \"c\"");
    assert_eq!(info, vec![pair("a", "x")]);
    let info = parse_window_info("\"a\": x\"b\", \"c\": \"d\"");
    assert_eq!(info, vec![pair("a", "x"), pair("c", "d")]);
}

#[test]
fn window_info_does_not_read_inside_a_nested_value() {
    let info = parse_window_info("{\"a\":{\"b\":1}}");
    assert_eq!(info, vec![pair("a", "{\"b\":1}")]);
    let info = parse_window_info(
        "{\"address\": \"0x1\", \"parent\": {\"address\": \"0x2\", \"list\": [1, {\"address\": \"0x3\"}]}, \"class\": \"kitty\"}",
    );
    assert_eq!(field(&info, "address"), Some("0x1".to_string()));
    assert_eq!(field(&info, "class"), Some("kitty".to_string()));
    assert_eq!(field(&info, "list"), None);
    assert_eq!(info.len(), 3);
}

#[test]
fn window_info_nested_value_passes_over_brackets_in_literals() {
    let info = parse_window_info("\"a\": [\"]\", \"}\"], \"b\": 2");
    assert_eq!(info, vec![pair("a", "[\"]\", \"}\"]"), pair("b", "2")]);
}

#[test]
fn window_info_stops_at_a_nested_value_that_does_not_end() {
    let info = parse_window_info("\"a\": 1, \"b\": {\"c\": 2, \"d\": 3");
    assert_eq!(info, vec![pair("a", "1")]);
}

#[test]
fn window_info_has_one_member_to_a_comma_separated_part() {
    let info = parse_window_info("\"a\": 1 \"b\": 2 \"c\": 3, \"d\": 4");
    assert_eq!(info, vec![pair("a", "1"), pair("d", "4")]);
    let info = parse_window_info("\"a\": \"1\" \"b\": \"2\"");
    assert_eq!(info, vec![pair("a", "1")]);
}

#[test]
fn window_info_of_a_description_with_lists() {
    let info = parse_window_info("{\"at\": [6, 46], \"size\": [1908, 1028], \"tags\": [], \"pid\": 7}");
    assert_eq!(
        info,
        vec![pair("at", "[6, 46]"), pair("size", "[1908, 1028]"), pair("tags", "[]"), pair("pid", "7")]
    );
}

fn parts_with_a_colon(text: &str) -> usize {
    text.split(',').filter(|part| part.contains(':')).count()
}

#[test]
fn window_info_has_no_more_members_than_parts_with_a_colon() {
    let samples = [
        "",
        "{}",
        "{\"a\":{\"b\":1}}",
        "\"a\":1 \"b\":2",
        "\"a\":\"x,y:z\",\"b\":2",
        "\"a\":[1,2,{\"c\":3}],\"d\":4",
        "\"a\":\"b\"\"c\":\"d\"",
        "\"a\" : \"b\" , \"c\" : d",
        "{\"id\": 1, \"name\": \"1\"}",
        "\"a\":\"\\\"\",\"b\":\"\\\\\"",
        ":::,,,",
        "\"\":\"\",\"\":,\"\":",
    ];
    for text in samples {
        assert!(parse_window_info(text).len() <= parts_with_a_colon(text), "{}", text);
    }
    // texts made of the characters that matter, in every order up to a length
    let alphabet = ['"', ':', ',', '{', '}', '[', ']', ' ', 'a', '\\'];
    let mut state: u64 = 0x2545_f491_4f6c_dd1d;
    for _ in 0..20000 {
        let mut text = String::new();
        state ^= state << 13;
        state ^= state >> 7;
        state ^= state << 17;
        let len = (state % 24) as usize;
        for _ in 0..len {
            state ^= state << 13;
            state ^= state >> 7;
            state ^= state << 17;
            text.push(alphabet[(state % alphabet.len() as u64) as usize]);
        }
        assert!(parse_window_info(&text).len() <= parts_with_a_colon(&text), "{}", text);
        let framed = parse_windows_from_json(&text);
        let list = text.trim();
        if !(list.starts_with('[') && list.ends_with(']') && list.len() >= 2) {
            assert!(framed.is_empty(), "{}", text);
        }
    }
}

#[test]
fn decode_of_text_with_wide_characters_at_its_ends() {
    let none = Vec::<MinimizedWindow>::new();
    assert_eq!(parse_windows_from_json("\u{1f600}[{\"address\":\"0x1\"}]"), none);
    assert_eq!(parse_windows_from_json("[{\"address\":\"0x1\"}]\u{e9}"), none);
    assert_eq!(parse_windows_from_json("\u{4e2d}"), none);
    let got = parse_windows_from_json("\u{3000}[{\"address\":\"\u{1f600}\"}]\u{2003}");
    assert_eq!(got, vec![window("\u{1f600}", "", "", "", None)]);
}

#[test]
fn window_info_of_text_without_colon_or_comma() {
    assert_eq!(parse_window_info("no members here"), Vec::<(String, String)>::new());
    assert_eq!(parse_window_info("\"a\" \"b\" \"c\""), Vec::<(String, String)>::new());
    assert_eq!(parse_window_info(",,,"), Vec::<(String, String)>::new());
    assert_eq!(parse_window_info(":::"), Vec::<(String, String)>::new());
    assert_eq!(parse_window_info("\u{1f600}"), Vec::<(String, String)>::new());
}
