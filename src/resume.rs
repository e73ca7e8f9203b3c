use vstd::prelude::*;
use std::collections::HashSet;
use crate::records::WordRecord;

verus! {

broadcast use vstd::std_specs::hash::group_hash_axioms;

/// What the definition phase does with one planned word.
#[derive(Debug, Clone, PartialEq, Eq)]
pub enum DefTask {
    /// The output store already holds the word: no fetch, progress only.
    AlreadyProcessed(WordRecord),
    /// The word's definition is fetched and appended.
    Fetch(WordRecord),
}

pub open spec fn def_task_spec(w: WordRecord, done: Set<u32>) -> DefTask {
    if done.contains(w.id) {
        DefTask::AlreadyProcessed(w)
    } else {
        DefTask::Fetch(w)
    }
}

/// Plans the definition phase: one task per word, in the word store's order,
/// fetching only the words whose ids the output store does not hold yet.
pub fn plan_definitions(words: &Vec<WordRecord>, processed: &HashSet<u32>) -> (r: Vec<DefTask>)
    ensures
        r@.len() == words@.len(),
        forall|i: int| 0 <= i < words@.len() ==> r@[i] == def_task_spec(#[trigger] words@[i], processed@),
{
    let mut r: Vec<DefTask> = Vec::new();
    let mut i: usize = 0;
    while i < words.len()
        invariant
            i <= words.len(),
            r@.len() == i,
            forall|j: int| 0 <= j < i ==> r@[j] == def_task_spec(#[trigger] words@[j], processed@),
        decreases words.len() - i,
    {
        let w = WordRecord { id: words[i].id, word: words[i].word.clone() };
        if processed.contains(&w.id) {
            r.push(DefTask::AlreadyProcessed(w));
        } else {
            r.push(DefTask::Fetch(w));
        }
        i = i + 1;
    }
    r
}

/// The ids, in order, that a run fetches and appends: those of `words` that
/// are not in `done`.
pub open spec fn fetched_ids(words: Seq<u32>, done: Set<u32>) -> Seq<u32>
    decreases words.len(),
{
    if words.len() == 0 {
        seq![]
    } else if done.contains(words.last()) {
        fetched_ids(words.drop_last(), done)
    } else {
        fetched_ids(words.drop_last(), done).push(words.last())
    }
}

/// The ids of the planned words.
pub open spec fn word_ids(words: Seq<WordRecord>) -> Seq<u32> {
    words.map_values(|w: WordRecord| w.id)
}

/// The ids that the tasks of a plan fetch, in order.
pub open spec fn task_fetch_ids(tasks: Seq<DefTask>) -> Seq<u32>
    decreases tasks.len(),
{
    if tasks.len() == 0 {
        seq![]
    } else {
        match tasks.last() {
            DefTask::Fetch(w) => task_fetch_ids(tasks.drop_last()).push(w.id),
            DefTask::AlreadyProcessed(_) => task_fetch_ids(tasks.drop_last()),
        }
    }
}

/// A plan fetches exactly the ids of the words that are not done yet, in the
/// word store's order.
pub proof fn lemma_plan_fetches_remaining(words: Seq<WordRecord>, done: Set<u32>, tasks: Seq<DefTask>)
    requires
        tasks.len() == words.len(),
        forall|i: int| 0 <= i < words.len() ==> tasks[i] == def_task_spec(#[trigger] words[i], done),
    ensures
        task_fetch_ids(tasks) == fetched_ids(word_ids(words), done),
    decreases words.len(),
{
    if words.len() > 0 {
        let w2 = words.drop_last();
        let t2 = tasks.drop_last();
        assert(word_ids(words).drop_last() =~= word_ids(w2));
        assert forall|i: int| 0 <= i < w2.len() implies t2[i] == def_task_spec(#[trigger] w2[i], done) by {
            assert(tasks[i] == def_task_spec(words[i], done));
        }
        lemma_plan_fetches_remaining(w2, done, t2);
        assert(tasks.last() == def_task_spec(words.last(), done));
    }
}

proof fn lemma_fetched_ids_members(words: Seq<u32>, done: Set<u32>)
    ensures
        forall|x: u32| fetched_ids(words, done).contains(x) <==> (words.contains(x) && !done.contains(x)),
        words.no_duplicates() ==> fetched_ids(words, done).no_duplicates(),
    decreases words.len(),
{
    if words.len() > 0 {
        let w2 = words.drop_last();
        lemma_fetched_ids_members(w2, done);
        assert forall|x: u32| words.contains(x) <==> (w2.contains(x) || x == words.last()) by {
            if words.contains(x) {
                let k = choose|k: int| 0 <= k < words.len() && words[k] == x;
                if k < words.len() - 1 {
                    assert(w2[k] == x);
                }
            }
            if w2.contains(x) {
                let k = choose|k: int| 0 <= k < w2.len() && w2[k] == x;
                assert(words[k] == x);
            }
            if x == words.last() {
                assert(words[words.len() - 1] == x);
            }
        }
        if words.no_duplicates() {
            assert(w2.no_duplicates()) by {
                assert forall|i: int, j: int| 0 <= i < w2.len() && 0 <= j < w2.len() && i != j implies w2[i] != w2[j] by {
                    assert(words[i] != words[j]);
                }
            }
            assert(!w2.contains(words.last())) by {
                if w2.contains(words.last()) {
                    let k = choose|k: int| 0 <= k < w2.len() && w2[k] == words.last();
                    assert(words[k] == words[words.len() - 1]);
                }
            }
        }
        let f = fetched_ids(words, done);
        let f2 = fetched_ids(w2, done);
        assert forall|x: u32| f.contains(x) <==> (f2.contains(x) || (x == words.last() && !done.contains(x))) by {
            if !done.contains(words.last()) {
                assert(f == f2.push(words.last()));
                if f.contains(x) {
                    let k = choose|k: int| 0 <= k < f.len() && f[k] == x;
                    if k < f2.len() {
                        assert(f2[k] == x);
                    }
                }
                if f2.contains(x) {
                    let k = choose|k: int| 0 <= k < f2.len() && f2[k] == x;
                    assert(f[k] == x);
                }
                if x == words.last() {
                    assert(f[f.len() - 1] == x);
                }
            }
        }
    }
}

/// Resuming is idempotent. Given a word store whose ids are distinct and an
/// output store that holds each of its ids once, all of them planned words:
/// the run appends exactly the planned ids that the store lacks, and the
/// store then holds every planned id exactly once, its earlier lines kept as
/// they were. A second run on that store appends nothing.
pub proof fn lemma_resume_idempotent(words: Seq<WordRecord>, store: Seq<u32>)
    requires
        word_ids(words).no_duplicates(),
        store.no_duplicates(),
        forall|x: u32| store.contains(x) ==> word_ids(words).contains(x),
    ensures
        ({
            let after = store + fetched_ids(word_ids(words), store.to_set());
            &&& after.no_duplicates()
            &&& after.to_set() == word_ids(words).to_set()
            &&& after.subrange(0, store.len() as int) == store
            &&& fetched_ids(word_ids(words), after.to_set()) == Seq::<u32>::empty()
        }),
{
    let ids = word_ids(words);
    let f = fetched_ids(ids, store.to_set());
    let after = store + f;
    lemma_fetched_ids_members(ids, store.to_set());
    assert forall|i: int, j: int| 0 <= i < after.len() && 0 <= j < after.len() && i != j implies after[i] != after[j] by {
        if i < store.len() && j >= store.len() {
            assert(f.contains(after[j]));
            assert(store.contains(after[i]));
        } else if j < store.len() && i >= store.len() {
            assert(f.contains(after[i]));
            assert(store.contains(after[j]));
        } else if i >= store.len() && j >= store.len() {
            assert(after[i] == f[i - store.len()]);
            assert(after[j] == f[j - store.len()]);
        }
    }
    assert forall|x: u32| after.to_set().contains(x) <==> ids.to_set().contains(x) by {
        if after.contains(x) {
            let k = choose|k: int| 0 <= k < after.len() && after[k] == x;
            if k < store.len() {
                assert(store[k] == x);
                assert(store.contains(x));
            } else {
                assert(f[k - store.len()] == x);
                assert(f.contains(x));
            }
        }
        if ids.contains(x) {
            if store.contains(x) {
                let k = choose|k: int| 0 <= k < store.len() && store[k] == x;
                assert(after[k] == x);
            } else {
                assert(f.contains(x));
                let k = choose|k: int| 0 <= k < f.len() && f[k] == x;
                assert(after[store.len() + k] == x);
            }
        }
    }
    assert(after.to_set() =~= ids.to_set());
    assert(after.subrange(0, store.len() as int) =~= store);
    lemma_fetched_ids_members(ids, after.to_set());
    let g = fetched_ids(ids, after.to_set());
    if g.len() > 0 {
        assert(g.contains(g[0]));
        assert(ids.contains(g[0]));
        assert(ids.to_set().contains(g[0]));
    }
    assert(g =~= Seq::<u32>::empty());
}

} // verus!
