use minote::models::{
    id_text, optional_id_text, pick_title, strip_tags, strip_tags_multiline, Folder, Note,
};

fn note(title: Option<&str>, subject: &str, extra: Option<&str>, snippet: &str) -> Note {
    Note {
        title: title.map(|t| t.to_string()),
        subject: subject.to_string(),
        extra_info: extra.map(|t| t.to_string()),
        snippet: snippet.to_string(),
        ..Note::default()
    }
}

#[test]
fn tags_are_removed_and_entities_decoded() {
    assert_eq!(strip_tags_multiline("<b>bold</b> text"), "bold text");
    assert_eq!(strip_tags_multiline("a&nbsp;b &amp; c &quot;d&quot; &apos;e&apos;"), "a b & c \"d\" 'e'");
    assert_eq!(strip_tags_multiline("x &lt;text&gt; y"), "x  y");
    assert_eq!(strip_tags_multiline("line one\n<p>line two</p>\r\n"), "line one\nline two\r\n");
    assert_eq!(strip_tags_multiline("a > b < c > d"), "a  b  d");
    assert_eq!(strip_tags_multiline(""), "");
}

#[test]
fn entities_are_decoded_in_order() {
    assert_eq!(strip_tags_multiline("&amp;lt;"), "&lt;");
    assert_eq!(strip_tags_multiline("&amp;amp;"), "&amp;");
    assert_eq!(strip_tags_multiline("&lt;b&gt;bold&lt;/b&gt; shown"), "bold shown");
    assert_eq!(strip_tags_multiline("&amp;nbsp;"), "&nbsp;");
}

#[test]
fn one_line_text_is_flat_and_trimmed() {
    assert_eq!(strip_tags("  <p>first</p>\n<p>second</p>\r\n "), "first second");
    assert_eq!(strip_tags("\n\n"), "");
    assert_eq!(strip_tags("<br/>"), "");
    assert_eq!(strip_tags("\u{3000}wide\u{a0}"), "wide");
}

#[test]
fn title_falls_back_in_order() {
    assert_eq!(note(Some("<b>T</b>"), "S", None, "N").display_title(), "T");
    assert_eq!(note(Some("<i></i>"), "S", None, "N").display_title(), "S");
    assert_eq!(note(None, "", Some("{\"title\":\"From extra\"}"), "N").display_title(), "From extra");
    assert_eq!(note(None, "", Some("{\"title\":42}"), "first\nsecond").display_title(), "first second");
    assert_eq!(note(None, "", Some("not json"), "N").display_title(), "N");
    assert_eq!(note(None, "", Some("[\"title\"]"), "").display_title(), "[No Title]");
    assert_eq!(note(None, "", None, "").display_title(), "[No Title]");
}

#[test]
fn title_is_picked_from_what_is_given() {
    assert_eq!(pick_title(None, " ", Some("named"), "snippet"), "named");
    assert_eq!(pick_title(None, "", Some("<x>"), "snippet"), "snippet");
    assert_eq!(pick_title(Some("a"), "b", Some("c"), "d"), "a");
}

#[test]
fn snippet_and_content_are_cleaned() {
    let mut n = note(None, "", None, " <p>snip&amp;pet</p>\n");
    assert_eq!(n.clean_snippet(), "snip&pet");
    assert_eq!(n.plain_content(), " snip&pet\n");
    n.content = Some("<text>body</text>\nmore".to_string());
    assert_eq!(n.plain_content(), "body\nmore");
}

#[test]
fn default_note_and_folder_are_empty() {
    let n = Note::default();
    assert_eq!(n.id, "");
    assert_eq!(n.folder_id, None);
    assert_eq!((n.color_id, n.create_date, n.modify_date), (0, 0, 0));
    assert_eq!(n.setting, None);
    let f = Folder::default();
    assert_eq!(f.id, "");
    assert_eq!(f.subject, "");
    assert_eq!((f.create_date, f.modify_date), (0, 0));
}

fn member(json: &str) -> (String, Option<String>) {
    let v: serde_json::Value = serde_json::from_str(json).unwrap();
    (v.to_string(), v.as_str().map(|s| s.to_owned()))
}

#[test]
fn identifiers_are_strings_or_numerals() {
    assert_eq!(id_text(member("\"abc\"")), "abc");
    assert_eq!(id_text(member("12345678901234567")), "12345678901234567");
    assert_eq!(id_text(member("-7")), "-7");
    assert_eq!(id_text(member("null")), "null");
    assert_eq!(id_text(member("true")), "true");
    assert_eq!(id_text(member("[1,\"a\"]")), "[1,\"a\"]");
    assert_eq!(id_text(member("\"null\"")), "null");
}

#[test]
fn optional_identifiers_are_absent_for_null() {
    assert_eq!(optional_id_text(member("null")), None);
    assert_eq!(optional_id_text(member("\"null\"")), Some("null".to_string()));
    assert_eq!(optional_id_text(member("\"\"")), Some(String::new()));
    assert_eq!(optional_id_text(member("42")), Some("42".to_string()));
    assert_eq!(optional_id_text(member("{\"a\":1}")), Some("{\"a\":1}".to_string()));
    assert_eq!(optional_id_text(member("false")), Some("false".to_string()));
}
