use dictionarium_vilnensis::form::{decimal_string, form_body, form_fields};
use dictionarium_vilnensis::plan::FetchTask;

#[test]
fn decimal_strings() {
    assert_eq!(decimal_string(0), "0");
    assert_eq!(decimal_string(7), "7");
    assert_eq!(decimal_string(200), "200");
    assert_eq!(decimal_string(u64::MAX), "18446744073709551615");
}

#[test]
fn listing_form_fields() {
    let f = form_fields(&FetchTask { letter: 'Ł', page: 3, word: None });
    assert_eq!(f.len(), 12);
    assert_eq!(f[0], ("idHasla".to_string(), "0".to_string()));
    assert_eq!(f[2], ("offset".to_string(), "3".to_string()));
    assert_eq!(f[3], ("litera".to_string(), "Ł".to_string()));
    assert_eq!(f[6], ("Wkolejnosc".to_string(), "a fronte".to_string()));
}

#[test]
fn definition_form_body() {
    let body = form_body(&FetchTask { letter: 'A', page: 0, word: Some(1234) });
    assert_eq!(
        body,
        "idHasla=1234&uklad=poziomy&offset=0&litera=A&Wsposob=0&Whaslo=&Wkolejnosc=a+fronte&czesc=str&str=3&skala=100&nowyFiltr=&hSz=0"
    );
    let listing = form_body(&FetchTask { letter: 'Ś', page: 2, word: None });
    assert!(listing.starts_with("idHasla=0&uklad=poziomy&offset=2&litera=%C5%9A&"));
}
