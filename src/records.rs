use vstd::prelude::*;
use vstd::string::*;
use std::collections::HashSet;
use crate::error::{Element, Error};
use crate::extract::{entry_id_spec, index_of_from, parse_entry_id};
use crate::text::{all_digits, decimal_value, is_digit, is_whitespace_spec, parse_decimal, trim_end_spec, trim_spec, trim_start_spec, trim_str};
use crate::form::{decimal_spec, decimal_string, digit_char};

verus! {

broadcast use vstd::std_specs::hash::group_hash_axioms;

/// One dictionary entry: the id the site gives it and its surface form.
#[derive(Debug, Clone, PartialEq, Eq)]
pub struct WordRecord {
    pub id: u32,
    pub word: String,
}

/// What extraction found in one child of a listing page's entry list: the
/// entry's link target, if the anchor has one, and its visible text.
#[derive(Debug, Clone, PartialEq, Eq)]
pub struct Anchor {
    pub href: Option<String>,
    pub text: String,
}

/// What a list child shows of its entry anchor: the link target, if any,
/// and the visible text; `None` if the child has no such anchor.
pub type AnchorView = Option<(Option<Seq<char>>, Seq<char>)>;

pub open spec fn anchor_view(a: Option<Anchor>) -> AnchorView {
    match a {
        Some(a) => Some((
            match a.href {
                Some(h) => Some(h@),
                None => None,
            },
            a.text@,
        )),
        None => None,
    }
}

/// The record one list child gives, or why it gives none.
pub open spec fn anchor_record_spec(a: AnchorView) -> Result<(u32, Seq<char>), Error> {
    match a {
        None => Err(Error::MissingElement(Element::EntryAnchor)),
        Some((href, text)) => match href {
            None => Err(Error::MissingElement(Element::EntryAnchor)),
            Some(h) => match entry_id_spec(h) {
                Some(v) => if v <= u32::MAX {
                    Ok((v as u32, text))
                } else {
                    Err(Error::Malformed(Element::EntryAnchor))
                },
                None => Err(Error::Malformed(Element::EntryAnchor)),
            },
        },
    }
}

/// The records of the list children `s` in order, or the first failure.
pub open spec fn anchors_records_spec(s: Seq<AnchorView>) -> Result<Seq<(u32, Seq<char>)>, Error>
    decreases s.len(),
{
    if s.len() == 0 {
        Ok(seq![])
    } else {
        match anchors_records_spec(s.drop_last()) {
            Err(e) => Err(e),
            Ok(r) => match anchor_record_spec(s.last()) {
                Ok(x) => Ok(r.push(x)),
                Err(e) => Err(e),
            },
        }
    }
}

/// The entries of a listing page: every list child but the trailing one,
/// which is no entry. A page without list children has no entry list.
pub open spec fn page_entries_spec(children: Seq<AnchorView>) -> Result<Seq<(u32, Seq<char>)>, Error> {
    if children.len() == 0 {
        Err(Error::MissingElement(Element::EntryList))
    } else {
        anchors_records_spec(children.drop_last())
    }
}

pub open spec fn record_view(w: WordRecord) -> (u32, Seq<char>) {
    (w.id, w.word@)
}

pub open spec fn children_view(children: Seq<Option<Anchor>>) -> Seq<AnchorView> {
    children.map_values(|a: Option<Anchor>| anchor_view(a))
}

fn anchor_record(a: &Option<Anchor>) -> (r: Result<WordRecord, Error>)
    ensures
        r is Ok <==> anchor_record_spec(anchor_view(*a)) is Ok,
        r is Ok ==> record_view(r->Ok_0) == anchor_record_spec(anchor_view(*a))->Ok_0,
        r is Err ==> r->Err_0 == anchor_record_spec(anchor_view(*a))->Err_0,
{
    match a {
        None => Err(Error::MissingElement(Element::EntryAnchor)),
        Some(a) => match &a.href {
            None => Err(Error::MissingElement(Element::EntryAnchor)),
            Some(h) => match parse_entry_id(h.as_str()) {
                Ok(id) => Ok(WordRecord { id, word: a.text.clone() }),
                Err(e) => Err(e),
            },
        },
    }
}

/// Turns the children of a listing page's entry list into word records.
pub fn page_entries(children: &Vec<Option<Anchor>>) -> (r: Result<Vec<WordRecord>, Error>)
    ensures
        r is Ok <==> page_entries_spec(children_view(children@)) is Ok,
        r is Ok ==> r->Ok_0@.map_values(|w: WordRecord| record_view(w)) == page_entries_spec(children_view(children@))->Ok_0,
        r is Err ==> r->Err_0 == page_entries_spec(children_view(children@))->Err_0,
        r is Ok ==> r->Ok_0@.len() == children@.len() - 1,
{
    let mut out: Vec<WordRecord> = Vec::new();
    if children.len() == 0 {
        return Err(Error::MissingElement(Element::EntryList));
    }
    let n = children.len() - 1;
    let ghost entries = children_view(children@).drop_last();
    let mut i: usize = 0;
    while i < n
        invariant
            i <= n,
            n == children.len() - 1,
            entries == children_view(children@).drop_last(),
            anchors_records_spec(entries.take(i as int)) is Ok,
            out@.map_values(|w: WordRecord| record_view(w)) == anchors_records_spec(entries.take(i as int))->Ok_0,
        decreases n - i,
    {
        assert(entries.take(i + 1).drop_last() =~= entries.take(i as int));
        assert(entries.take(i + 1).last() == anchor_view(children@[i as int]));
        match anchor_record(&children[i]) {
            Ok(w) => {
                out.push(w);
                assert(out@.map_values(|w: WordRecord| record_view(w)) =~= anchors_records_spec(entries.take(i as int))->Ok_0.push(record_view(w)));
            },
            Err(e) => {
                proof {
                    lemma_records_error_persists(entries, i as int + 1);
                    assert(entries.take(n as int) =~= entries);
                }
                return Err(e);
            },
        }
        i = i + 1;
    }
    assert(entries.take(n as int) =~= entries);
    proof {
        lemma_records_len(entries);
    }
    Ok(out)
}

proof fn lemma_records_len(s: Seq<AnchorView>)
    ensures
        anchors_records_spec(s) is Ok ==> anchors_records_spec(s)->Ok_0.len() == s.len(),
    decreases s.len(),
{
    if s.len() > 0 {
        lemma_records_len(s.drop_last());
    }
}

proof fn lemma_records_error_persists(s: Seq<AnchorView>, k: int)
    requires
        0 <= k <= s.len(),
        anchors_records_spec(s.take(k)) is Err,
    ensures
        anchors_records_spec(s) == anchors_records_spec(s.take(k)),
    decreases s.len() - k,
{
    if k < s.len() {
        assert(s.take(k + 1).drop_last() =~= s.take(k));
        lemma_records_error_persists(s, k + 1);
    } else {
        assert(s.take(k) =~= s);
    }
}

/// A line of the word store or of the definition store: the id and the word
/// are its first two tab-separated fields, after trimming; further fields
/// are ignored.
pub open spec fn record_line_spec(line: Seq<char>) -> Option<(u32, Seq<char>)> {
    let t = trim_spec(line);
    let i = index_of_from(t, '\t', 0);
    let j = index_of_from(t, '\t', i + 1);
    if 0 < i < t.len() && all_digits(t.subrange(0, i)) && decimal_value(t.subrange(0, i)) <= u32::MAX {
        Some((decimal_value(t.subrange(0, i)) as u32, t.subrange(i + 1, j)))
    } else {
        None
    }
}

fn find_tab(s: &str, from: usize) -> (r: usize)
    requires
        from <= s@.len(),
    ensures
        r == index_of_from(s@, '\t', from as int),
        from <= r <= s@.len(),
{
    let n = s.unicode_len();
    let mut i: usize = from;
    while i < n
        invariant
            from <= i <= n,
            n == s@.len(),
            index_of_from(s@, '\t', from as int) == index_of_from(s@, '\t', i as int),
        decreases n - i,
    {
        if s.get_char(i) == '\t' {
            return i;
        }
        i = i + 1;
    }
    i
}

/// Reads one line of the word store or of the definition store.
pub fn parse_record_line(line: &str) -> (r: Option<WordRecord>)
    ensures
        r is Some <==> record_line_spec(line@) is Some,
        r is Some ==> record_view(r->0) == record_line_spec(line@)->0,
{
    let t = trim_str(line);
    let n = t.unicode_len();
    let i = find_tab(t, 0);
    if i == 0 || i >= n {
        return None;
    }
    let j = find_tab(t, i + 1);
    match parse_decimal(t, 0, i, u32::MAX as u64) {
        Some(id) => {
            let word = t.substring_char(i + 1, j).to_owned();
            Some(WordRecord { id: id as u32, word })
        },
        None => None,
    }
}

/// The id that a store line records, if it reads as a record.
pub open spec fn line_id(line: Seq<char>) -> Option<u32> {
    match record_line_spec(line) {
        Some((id, _)) => Some(id),
        None => None,
    }
}

/// The ids of the lines of a store that read as records.
pub open spec fn recorded_ids(lines: Seq<String>) -> Set<u32> {
    Set::new(|id: u32| exists|k: int| 0 <= k < lines.len() && #[trigger] line_id(lines[k]@) == Some(id))
}

/// Collects the ids already present in an output store.
pub fn processed_ids(lines: &Vec<String>) -> (r: HashSet<u32>)
    ensures
        r@ == recorded_ids(lines@),
{
    let mut r: HashSet<u32> = HashSet::new();
    let mut i: usize = 0;
    while i < lines.len()
        invariant
            i <= lines.len(),
            r@ == recorded_ids(lines@.take(i as int)),
        decreases lines.len() - i,
    {
        let parsed = parse_record_line(lines[i].as_str());
        let ghost before = r@;
        match parsed {
            Some(w) => {
                r.insert(w.id);
            },
            None => {},
        }
        proof {
            let t = lines@.take(i + 1);
            assert forall|id: u32| r@.contains(id) <==> recorded_ids(t).contains(id) by {
                if recorded_ids(t).contains(id) {
                    let k = choose|k: int| 0 <= k < t.len() && #[trigger] line_id(t[k]@) == Some(id);
                    if k < i {
                        assert(lines@.take(i as int)[k] == t[k]);
                        assert(recorded_ids(lines@.take(i as int)).contains(id));
                    }
                }
                if r@.contains(id) {
                    if before.contains(id) {
                        let k = choose|k: int| 0 <= k < i && #[trigger] line_id(lines@.take(i as int)[k]@) == Some(id);
                        assert(t[k] == lines@.take(i as int)[k]);
                    } else {
                        assert(t[i as int] == lines@[i as int]);
                        assert(line_id(t[i as int]@) == Some(id));
                    }
                }
            }
            assert(r@ =~= recorded_ids(t));
        }
        i = i + 1;
    }
    assert(lines@.take(i as int) =~= lines@);
    r
}

/// The line of the word store for one record: `<id>TAB<word>`.
pub open spec fn word_line_spec(id: u32, word: Seq<char>) -> Seq<char> {
    decimal_spec(id as nat) + seq!['\t'] + word
}

/// The line of the definition store for one record:
/// `<id>TAB<word>TAB<definition>`.
pub open spec fn definition_line_spec(id: u32, word: Seq<char>, def: Seq<char>) -> Seq<char> {
    word_line_spec(id, word) + seq!['\t'] + def
}

fn tab() -> (r: String)
    ensures
        r@ == seq!['\t'],
{
    let r = String::from_str("\t");
    proof {
        reveal_strlit("\t");
    }
    assert(r@ =~= seq!['\t']);
    r
}

/// Writes a record as a line of the word store.
pub fn word_line(id: u32, word: &str) -> (r: String)
    ensures
        r@ == word_line_spec(id, word@),
{
    let mut r = decimal_string(id as u64);
    let t = tab();
    r.append(t.as_str());
    r.append(word);
    r
}

/// Writes a record and its stored definition as a line of the definition
/// store.
pub fn definition_line(id: u32, word: &str, def: &str) -> (r: String)
    ensures
        r@ == definition_line_spec(id, word@, def@),
{
    let mut r = word_line(id, word);
    let t = tab();
    r.append(t.as_str());
    r.append(def);
    r
}

proof fn lemma_decimal(n: nat)
    ensures
        decimal_spec(n).len() > 0,
        all_digits(decimal_spec(n)),
        decimal_value(decimal_spec(n)) == n,
    decreases n,
{
    let s = decimal_spec(n);
    if n < 10 {
        assert(s.drop_last() =~= Seq::<char>::empty());
        assert(s.last() == digit_char(n));
        assert(digit_char(n) as nat - '0' as nat == n);
        assert(decimal_value(s) == decimal_value(s.drop_last()) * 10 + (s.last() as nat - '0' as nat) as nat);
    } else {
        lemma_decimal(n / 10);
        assert(s.drop_last() =~= decimal_spec(n / 10));
        assert(digit_char(n % 10) as nat - '0' as nat == n % 10);
        assert(n == (n / 10) * 10 + n % 10);
        assert(s.last() == digit_char(n % 10));
        assert(decimal_value(s) == decimal_value(s.drop_last()) * 10 + (s.last() as nat - '0' as nat) as nat);
        assert forall|i: int| 0 <= i < s.len() implies is_digit(#[trigger] s[i]) by {
            if i < s.len() - 1 {
                assert(s[i] == decimal_spec(n / 10)[i]);
            }
        }
    }
}

proof fn lemma_first_tab(s: Seq<char>, i: int, k: int)
    requires
        0 <= i <= k <= s.len(),
        forall|j: int| i <= j < k ==> s[j] != '\t',
        k == s.len() || s[k] == '\t',
    ensures
        index_of_from(s, '\t', i) == k,
    decreases k - i,
{
    if i < k {
        lemma_first_tab(s, i + 1, k);
    }
}

/// Reading back a written line gives the record: the definition store's
/// line for any definition that does not end in whitespace, the word
/// store's line for a word that does not, in both cases for a word without
/// a tab.
pub proof fn lemma_record_line_round_trip(id: u32, word: Seq<char>, def: Seq<char>)
    requires
        forall|j: int| 0 <= j < word.len() ==> word[j] != '\t',
    ensures
        word.len() > 0 && !is_whitespace_spec(word.last())
            ==> record_line_spec(word_line_spec(id, word)) == Some((id, word)),
        def.len() > 0 && !is_whitespace_spec(def.last())
            ==> record_line_spec(definition_line_spec(id, word, def)) == Some((id, word)),
{
    lemma_decimal(id as nat);
    let d = decimal_spec(id as nat);
    let k = d.len() as int;
    let wl = word_line_spec(id, word);
    let dl = definition_line_spec(id, word, def);
    assert(is_digit(d[0]));
    assert(wl.subrange(0, k) =~= d);
    assert(dl.subrange(0, k) =~= d);
    assert(wl.subrange(k + 1, wl.len() as int) =~= word);
    assert(dl.subrange(k + 1, k + 1 + word.len()) =~= word);
    assert(wl[0] == d[0] && dl[0] == d[0]);
    if word.len() > 0 && !is_whitespace_spec(word.last()) {
        assert(wl.last() == word.last());
        assert(trim_start_spec(wl) == wl);
        assert(trim_end_spec(wl) == wl);
        assert forall|j: int| 0 <= j < k implies wl[j] != '\t' by {
            assert(wl[j] == d[j]);
            assert(is_digit(d[j]));
        }
        lemma_first_tab(wl, 0, k);
        assert forall|j: int| k + 1 <= j < wl.len() implies wl[j] != '\t' by {
            assert(wl[j] == word[j - k - 1]);
        }
        lemma_first_tab(wl, k + 1, wl.len() as int);
    }
    if def.len() > 0 && !is_whitespace_spec(def.last()) {
        assert(dl.last() == def.last());
        assert(trim_start_spec(dl) == dl);
        assert(trim_end_spec(dl) == dl);
        assert forall|j: int| 0 <= j < k implies dl[j] != '\t' by {
            assert(dl[j] == d[j]);
            assert(is_digit(d[j]));
        }
        lemma_first_tab(dl, 0, k);
        assert forall|j: int| k + 1 <= j < k + 1 + word.len() implies dl[j] != '\t' by {
            assert(dl[j] == word[j - k - 1]);
        }
        assert(dl[k + 1 + word.len()] == '\t');
        lemma_first_tab(dl, k + 1, k + 1 + word.len());
    }
}

} // verus!
