use sticker_crawler::error::CrawlError;
use sticker_crawler::title::{extract_title_from_document, is_space_char, join, title_of, trim};

#[test]
fn test_extract_title_from_document() {
    let document = r#"
            <div class="mdCMN38Item0lHead"><p class="mdCMN38Item01Ttl" data-test="sticker-name-title">We are NewJeans☆</p></div>
        "#;
    let actual = extract_title_from_document(document);
    assert_eq!(actual.unwrap(), "We are NewJeans☆");
}

#[test]
fn test_extract_title_from_document_returns_error() {
    let document = r#"<div></div>"#;
    let actual = extract_title_from_document(document);

    assert!(actual.is_err());
}

#[test]
fn title_is_missing_without_the_marker() {
    assert_eq!(extract_title_from_document("<div></div>"), Err(CrawlError::MissingTitle));
    assert_eq!(extract_title_from_document(""), Err(CrawlError::MissingTitle));
    assert_eq!(
        extract_title_from_document(r#"<p data-test="other">Title</p>"#),
        Err(CrawlError::MissingTitle)
    );
    assert_eq!(
        extract_title_from_document(r#"<div data-test="sticker-name-title">Title</div>"#),
        Err(CrawlError::MissingTitle)
    );
}

#[test]
fn title_is_trimmed() {
    let document = "<p data-test=\"sticker-name-title\">\n   Hatsune Miku \t\u{3000}</p>";
    assert_eq!(extract_title_from_document(document).unwrap(), "Hatsune Miku");
}

#[test]
fn title_is_the_whole_text_of_the_element() {
    let document = r#"<p data-test="sticker-name-title"> We are <b>New</b>Jeans </p>"#;
    assert_eq!(extract_title_from_document(document).unwrap(), "We are NewJeans");
}

#[test]
fn title_of_an_empty_element_is_empty() {
    let document = r#"<p data-test="sticker-name-title"></p>"#;
    assert_eq!(extract_title_from_document(document).unwrap(), "");
}

#[test]
fn title_comes_from_the_first_marked_element() {
    let document = r#"<p data-test="sticker-name-title">First</p><p data-test="sticker-name-title">Second</p>"#;
    assert_eq!(extract_title_from_document(document).unwrap(), "First");
}

#[test]
fn title_of_each_kind_of_match() {
    assert_eq!(title_of(&None), Err(CrawlError::Selector));
    assert_eq!(title_of(&Some(vec![])), Err(CrawlError::MissingTitle));
    assert_eq!(title_of(&Some(vec![vec![]])).unwrap(), "");
    let matches = Some(vec![
        vec![" a".to_string(), " b ".to_string(), "c ".to_string()],
        vec!["other".to_string()],
    ]);
    assert_eq!(title_of(&matches).unwrap(), "a b c");
}

#[test]
fn trim_removes_white_space_at_both_ends_only() {
    assert_eq!(trim(""), "");
    assert_eq!(trim("   "), "");
    assert_eq!(trim("a"), "a");
    assert_eq!(trim(" a b "), "a b");
    assert_eq!(trim("\t\r\n a\u{a0}b \u{2003}\u{85}"), "a\u{a0}b");
    assert_eq!(trim("☆ "), "☆");
}

#[test]
fn trim_agrees_with_std() {
    for text in ["", " ", " x ", "\u{1680}x\u{2028}", "\u{200b}x\u{200b}", "\u{feff}x", "x\u{0}"] {
        assert_eq!(trim(text), text.trim());
    }
}

#[test]
fn white_space_is_what_std_says() {
    let mut code: u32 = 0;
    while code <= 0x3100 {
        if let Some(c) = char::from_u32(code) {
            assert_eq!(is_space_char(c), c.is_whitespace(), "U+{:04X}", code);
        }
        code += 1;
    }
    assert!(!is_space_char('☆'));
    assert!(!is_space_char('\u{10ffff}'));
}

#[test]
fn join_puts_the_pieces_in_order() {
    assert_eq!(join(&vec![]), "");
    assert_eq!(join(&vec!["a".to_string()]), "a");
    assert_eq!(join(&vec!["a".to_string(), "".to_string(), "bc".to_string()]), "abc");
}
