use dictionarium_vilnensis::error::{CookieHeaderError, Element, Error};
use dictionarium_vilnensis::extract::{extract_definition, normalize_definition, parse_count_summary, parse_entry_id};
use dictionarium_vilnensis::records::{page_entries, parse_record_line, processed_ids, Anchor, WordRecord};
use dictionarium_vilnensis::session::{session_cookie_header, session_token};

#[test]
fn count_summary_gives_total() {
    assert_eq!(parse_count_summary("1-200/12345"), Ok(12345));
    assert_eq!(parse_count_summary("  \n 1-200/250\t "), Ok(250));
    assert_eq!(parse_count_summary("0-0/0"), Ok(0));
    assert_eq!(parse_count_summary("1-200/18446744073709551615"), Ok(u64::MAX));
}

#[test]
fn count_summary_found_inside_text() {
    assert_eq!(parse_count_summary("x1-2/3"), Ok(3));
    assert_eq!(parse_count_summary("Hasła 1-200/250 (strona 1)"), Ok(250));
    assert_eq!(parse_count_summary("1-200/5a"), Ok(5));
    assert_eq!(parse_count_summary("1-2-3/4"), Ok(4));
    assert_eq!(parse_count_summary("7/8 1-2/9 3-4/10"), Ok(9));
}

#[test]
fn count_summary_malformed() {
    let bad = Err(Error::Malformed(Element::CountSummary));
    assert_eq!(parse_count_summary(""), bad);
    assert_eq!(parse_count_summary("1-200"), bad);
    assert_eq!(parse_count_summary("1-200/"), bad);
    assert_eq!(parse_count_summary("-200/5"), bad);
    assert_eq!(parse_count_summary("1-/5"), bad);
    assert_eq!(parse_count_summary("1-2x/5"), bad);
    assert_eq!(parse_count_summary("1-200/18446744073709551616"), bad);
}

#[test]
fn entry_id_from_link() {
    assert_eq!(parse_entry_id("javascript: haslo(1234)"), Ok(1234));
    assert_eq!(parse_entry_id("javascript: haslo(7,'x')"), Ok(7));
    assert_eq!(parse_entry_id("javascript: haslo(4294967295)"), Ok(u32::MAX));
    assert_eq!(parse_entry_id("xjavascript: haslo(5)"), Ok(5));
    assert_eq!(parse_entry_id("javascript: haslo(x); javascript: haslo(9)"), Ok(9));
    let bad = Err(Error::Malformed(Element::EntryAnchor));
    assert_eq!(parse_entry_id("javascript: haslo(4294967296)"), bad);
    assert_eq!(parse_entry_id("javascript: haslo()"), bad);
    assert_eq!(parse_entry_id("javascript: hasla(12)"), bad);
    assert_eq!(parse_entry_id("javascript: haslo("), bad);
}

#[test]
fn definition_is_trimmed_and_flattened() {
    assert_eq!(normalize_definition("  <b>a</b>\nb\nc \n"), "<b>a</b> b c");
    assert_eq!(normalize_definition("\u{3000}x\u{a0}"), "x");
    assert_eq!(extract_definition(Some(" x\ny ")), Ok("x y".to_string()));
    assert_eq!(extract_definition(None), Err(Error::MissingElement(Element::Definition)));
}

fn anchor(href: Option<&str>, text: &str) -> Option<Anchor> {
    Some(Anchor { href: href.map(String::from), text: text.to_string() })
}

#[test]
fn listing_page_drops_trailing_child() {
    let children = vec![
        anchor(Some("javascript: haslo(10)"), "abba"),
        anchor(Some("javascript: haslo(11)"), "abbas"),
        None,
    ];
    assert_eq!(
        page_entries(&children),
        Ok(vec![
            WordRecord { id: 10, word: "abba".to_string() },
            WordRecord { id: 11, word: "abbas".to_string() },
        ])
    );
    assert_eq!(page_entries(&Vec::new()), Err(Error::MissingElement(Element::EntryList)));
    assert_eq!(page_entries(&vec![None]), Ok(Vec::new()));
}

#[test]
fn listing_page_errors() {
    let missing = vec![anchor(Some("javascript: haslo(10)"), "a"), None, None];
    assert_eq!(page_entries(&missing), Err(Error::MissingElement(Element::EntryAnchor)));
    let no_href = vec![anchor(None, "a"), None];
    assert_eq!(page_entries(&no_href), Err(Error::MissingElement(Element::EntryAnchor)));
    let bad = vec![anchor(Some("x"), "a"), None];
    assert_eq!(page_entries(&bad), Err(Error::Malformed(Element::EntryAnchor)));
}

#[test]
fn store_lines() {
    assert_eq!(parse_record_line("12\tabba\n"), Some(WordRecord { id: 12, word: "abba".to_string() }));
    assert_eq!(parse_record_line("2\tbeta\tx y"), Some(WordRecord { id: 2, word: "beta".to_string() }));
    assert_eq!(parse_record_line("2\t\tFAILED"), Some(WordRecord { id: 2, word: String::new() }));
    assert_eq!(parse_record_line("abc\tx"), None);
    assert_eq!(parse_record_line("12"), None);
    assert_eq!(parse_record_line("\tx"), None);
    assert_eq!(parse_record_line("4294967296\tx"), None);
}

#[test]
fn processed_ids_of_store() {
    let lines = vec!["1\ta\tx".to_string(), "junk".to_string(), "3\tc\tFAILED".to_string()];
    let ids = processed_ids(&lines);
    assert_eq!(ids.len(), 2);
    assert!(ids.contains(&1) && ids.contains(&3) && !ids.contains(&2));
}

#[test]
fn session_cookie_is_found() {
    let headers = vec![
        None,
        Some("lang=pl; Path=/".to_string()),
        Some("PHPSESSID=abc123; path=/".to_string()),
        Some("PHPSESSID=later".to_string()),
    ];
    assert_eq!(session_token(&headers), Ok("abc123".to_string()));
    assert_eq!(session_token(&vec![Some("PHPSESSID=a%20b".to_string())]), Ok("a b".to_string()));
    let empty_first = vec![Some("PHPSESSID=; Path=/".to_string()), Some("PHPSESSID=abc".to_string())];
    assert_eq!(session_token(&empty_first), Ok("abc".to_string()));
}

#[test]
fn session_cookie_missing() {
    let headers = vec![Some("lang=pl".to_string()), Some("=x".to_string()), None];
    assert_eq!(session_token(&headers), Err(Error::Cookie(CookieHeaderError::MissingCookie)));
    assert_eq!(session_token(&Vec::new()), Err(Error::Cookie(CookieHeaderError::MissingCookie)));
    let empty = vec![Some("PHPSESSID=".to_string())];
    assert_eq!(session_token(&empty), Err(Error::Cookie(CookieHeaderError::MissingCookie)));
}

#[test]
fn session_cookie_header_value() {
    assert_eq!(session_cookie_header("abc123"), "PHPSESSID=abc123");
}
