use vstd::prelude::*;
use vstd::string::*;
use crate::plan::FetchTask;

verus! {

pub open spec fn digit_char(d: nat) -> char {
    if d == 0 { '0' }
    else if d == 1 { '1' }
    else if d == 2 { '2' }
    else if d == 3 { '3' }
    else if d == 4 { '4' }
    else if d == 5 { '5' }
    else if d == 6 { '6' }
    else if d == 7 { '7' }
    else if d == 8 { '8' }
    else { '9' }
}

/// The decimal digits of `n`, without leading zeros.
pub open spec fn decimal_spec(n: nat) -> Seq<char>
    decreases n,
{
    if n < 10 {
        seq![digit_char(n)]
    } else {
        decimal_spec(n / 10).push(digit_char(n % 10))
    }
}

/// Relies on `char::to_string`: the one-character string.
#[verifier::external_body]
fn char_string(c: char) -> (r: String)
    ensures
        r@ == seq![c],
{
    c.to_string()
}

fn digit(d: u64) -> (r: char)
    requires
        d < 10,
    ensures
        r == digit_char(d as nat),
{
    match d {
        0 => '0',
        1 => '1',
        2 => '2',
        3 => '3',
        4 => '4',
        5 => '5',
        6 => '6',
        7 => '7',
        8 => '8',
        _ => '9',
    }
}

/// Writes `n` in decimal.
pub fn decimal_string(n: u64) -> (r: String)
    ensures
        r@ == decimal_spec(n as nat),
    decreases n,
{
    if n < 10 {
        char_string(digit(n))
    } else {
        let mut s = decimal_string(n / 10);
        let d = char_string(digit(n % 10));
        s.append(d.as_str());
        s
    }
}

/// The fields of the form that asks for one listing page or, when the task
/// names a word, for that word's definition page.
pub open spec fn form_fields_spec(task: FetchTask) -> Seq<(Seq<char>, Seq<char>)> {
    let word: nat = match task.word {
        Some(w) => w as nat,
        None => 0,
    };
    seq![
        ("idHasla"@, decimal_spec(word)),
        ("uklad"@, "poziomy"@),
        ("offset"@, decimal_spec(task.page as nat)),
        ("litera"@, seq![task.letter]),
        ("Wsposob"@, "0"@),
        ("Whaslo"@, ""@),
        ("Wkolejnosc"@, "a fronte"@),
        ("czesc"@, "str"@),
        ("str"@, "3"@),
        ("skala"@, "100"@),
        ("nowyFiltr"@, ""@),
        ("hSz"@, "0"@),
    ]
}

pub open spec fn pair_view(p: (String, String)) -> (Seq<char>, Seq<char>) {
    (p.0@, p.1@)
}

fn field(name: &str, value: String) -> (r: (String, String))
    ensures
        pair_view(r) == (name@, value@),
{
    (String::from_str(name), value)
}

/// Builds the form fields of a task.
pub fn form_fields(task: &FetchTask) -> (r: Vec<(String, String)>)
    ensures
        r@.map_values(|p: (String, String)| pair_view(p)) == form_fields_spec(*task),
{
    let word: u64 = match task.word {
        Some(w) => w as u64,
        None => 0,
    };
    let r = vec![
        field("idHasla", decimal_string(word)),
        field("uklad", String::from_str("poziomy")),
        field("offset", decimal_string(task.page)),
        field("litera", char_string(task.letter)),
        field("Wsposob", String::from_str("0")),
        field("Whaslo", String::from_str("")),
        field("Wkolejnosc", String::from_str("a fronte")),
        field("czesc", String::from_str("str")),
        field("str", String::from_str("3")),
        field("skala", String::from_str("100")),
        field("nowyFiltr", String::from_str("")),
        field("hSz", String::from_str("0")),
    ];
    assert(r@.map_values(|p: (String, String)| pair_view(p)) =~= form_fields_spec(*task));
    r
}

/// The `application/x-www-form-urlencoded` text of name/value pairs.
pub uninterp spec fn form_urlencoded_of(pairs: Seq<(Seq<char>, Seq<char>)>) -> Seq<char>;

/// Relies on `url::form_urlencoded::Serializer`: the encoded text depends on
/// the pairs, in order, alone.
#[verifier::external_body]
fn encode_form(pairs: &Vec<(String, String)>) -> (r: String)
    ensures
        r@ == form_urlencoded_of(pairs@.map_values(|p: (String, String)| pair_view(p))),
{
    url::form_urlencoded::Serializer::new(String::new()).extend_pairs(pairs.iter()).finish()
}

/// The request body that asks for a task's page.
pub fn form_body(task: &FetchTask) -> (r: String)
    ensures
        r@ == form_urlencoded_of(form_fields_spec(*task)),
{
    let fields = form_fields(task);
    encode_form(&fields)
}

} // verus!
