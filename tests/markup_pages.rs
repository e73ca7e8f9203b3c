use dictionarium_vilnensis::error::{Element, Error};
use dictionarium_vilnensis::markup::{count_from_page, definition_from_page, words_from_page};
use dictionarium_vilnensis::records::WordRecord;

const LISTING: &str = r#"<html><body>
<div id="listaHasel"><span> 1-200/250 </span>
<div><a id="play1" href="javascript: graj(1)">&gt;</a><a href="javascript: haslo(101)">abba</a></div>
<div><a href="javascript: haslo(102)">abbas</a></div>
<div>dalej</div>
</div></body></html>"#;

#[test]
fn count_read_from_listing_markup() {
    assert_eq!(count_from_page(LISTING), Ok(250));
    assert_eq!(count_from_page("<html><body><p>nic</p></body></html>"), Err(Error::MissingElement(Element::CountSummary)));
    assert_eq!(
        count_from_page(r#"<div id="listaHasel"><span>brak</span></div>"#),
        Err(Error::Malformed(Element::CountSummary))
    );
}

#[test]
fn words_read_from_listing_markup() {
    assert_eq!(
        words_from_page(LISTING),
        Ok(vec![
            WordRecord { id: 101, word: "abba".to_string() },
            WordRecord { id: 102, word: "abbas".to_string() },
        ])
    );
    assert_eq!(words_from_page("<html><body></body></html>"), Err(Error::MissingElement(Element::EntryList)));
}

#[test]
fn definition_read_from_markup() {
    let page = "<html><body><div id=\"haslo\">\n  <b>abba</b>\nopat\n</div></body></html>";
    assert_eq!(definition_from_page(page), Ok("<b>abba</b> opat".to_string()));
    assert_eq!(definition_from_page("<html><body></body></html>"), Err(Error::MissingElement(Element::Definition)));
}
