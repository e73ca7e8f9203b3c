use std::collections::HashSet;

use dictionarium_vilnensis::error::{Element, Error};
use dictionarium_vilnensis::pipeline::{OrderedPipeline, UnorderedPipeline};
use dictionarium_vilnensis::plan::{definition_task, FetchTask};
use dictionarium_vilnensis::records::{definition_line, parse_record_line, processed_ids, word_line, WordRecord};
use dictionarium_vilnensis::resume::{plan_definitions, DefTask};
use dictionarium_vilnensis::sink::{stored_definition, SyncState, SYNC_EVERY};

fn word(id: u32, w: &str) -> WordRecord {
    WordRecord { id, word: w.to_string() }
}

#[test]
fn rerun_fetches_only_missing_ids() {
    let words = vec![word(1, "a"), word(2, "b"), word(3, "c")];
    let mut store = vec!["2\tb\tx".to_string()];
    let plan = plan_definitions(&words, &processed_ids(&store));
    assert_eq!(
        plan,
        vec![DefTask::Fetch(word(1, "a")), DefTask::AlreadyProcessed(word(2, "b")), DefTask::Fetch(word(3, "c"))]
    );
    for t in &plan {
        if let DefTask::Fetch(w) = t {
            store.push(format!("{}\t{}\t{}", w.id, w.word, "def"));
        }
    }
    assert_eq!(store.len(), 3);
    assert_eq!(store[0], "2\tb\tx");
    let again = plan_definitions(&words, &processed_ids(&store));
    assert!(again.iter().all(|t| matches!(t, DefTask::AlreadyProcessed(_))));
}

#[test]
fn empty_store_fetches_everything() {
    let words = vec![word(5, "x"), word(6, "y")];
    let plan = plan_definitions(&words, &HashSet::new());
    assert_eq!(plan, vec![DefTask::Fetch(word(5, "x")), DefTask::Fetch(word(6, "y"))]);
}

#[test]
fn failed_fetch_gets_marker() {
    assert_eq!(stored_definition(Ok("ok".to_string())), "ok");
    assert_eq!(stored_definition(Err(Error::Io)), "FAILED");
    assert_eq!(stored_definition(Err(Error::MissingElement(Element::Definition))), "FAILED");
}

#[test]
fn sync_every_n_appends() {
    let mut s = SyncState::new(SYNC_EVERY);
    let mut syncs = Vec::new();
    for n in 1..=25u64 {
        if s.record_appended() {
            syncs.push(n);
            assert_eq!(s.synced, n);
        }
        assert!(s.appended - s.synced < SYNC_EVERY);
    }
    assert_eq!(syncs, vec![10, 20]);
    assert_eq!(s.synced, 20);
    assert_eq!(s.appended, 25);
}

#[test]
fn ordered_pipeline_bounds_and_orders() {
    let mut p = OrderedPipeline::new(4, 2);
    assert_eq!(p.next_start(), Some(0));
    assert_eq!(p.next_start(), Some(1));
    assert_eq!(p.next_start(), None);
    p.complete(1);
    assert_eq!(p.next_delivery(), None);
    assert_eq!(p.next_start(), None);
    p.complete(0);
    assert_eq!(p.next_delivery(), Some(0));
    assert_eq!(p.next_delivery(), Some(1));
    assert_eq!(p.next_start(), Some(2));
    assert_eq!(p.next_start(), Some(3));
    assert_eq!(p.next_start(), None);
    p.complete(3);
    p.complete(2);
    assert_eq!(p.next_delivery(), Some(2));
    assert_eq!(p.next_delivery(), Some(3));
    assert!(p.is_finished());
}

#[test]
fn unordered_pipeline_bounds() {
    let mut p = UnorderedPipeline::new(3, 2);
    assert_eq!(p.next_start(), Some(0));
    assert_eq!(p.next_start(), Some(1));
    assert_eq!(p.next_start(), None);
    p.complete();
    assert_eq!(p.next_start(), Some(2));
    p.complete();
    p.complete();
    assert!(p.is_finished());
}

#[test]
fn store_lines_read_back() {
    let w = word_line(4294967295, "żaba");
    assert_eq!(w, "4294967295\tżaba");
    assert_eq!(parse_record_line(&w), Some(word(u32::MAX, "żaba")));
    let d = definition_line(7, "a b", "<i>x</i> y");
    assert_eq!(d, "7\ta b\t<i>x</i> y");
    assert_eq!(parse_record_line(&d), Some(word(7, "a b")));
    assert_eq!(parse_record_line(&definition_line(0, "c", "FAILED")), Some(word(0, "c")));
}

#[test]
fn definition_task_names_the_word() {
    assert_eq!(definition_task(1234), FetchTask { letter: 'A', page: 0, word: Some(1234) });
}
