use dictionarium_vilnensis::records::{page_entries, Anchor};
use dictionarium_vilnensis::plan::{
    alphabet, count_tasks, counts_by_letter, listing_tasks, page_tasks, total_count, FetchTask, LetterCount, PAGE_SIZE,
};

fn task(letter: char, page: u64) -> FetchTask {
    FetchTask { letter, page, word: None }
}

#[test]
fn alphabet_has_32_distinct_letters() {
    let a = alphabet();
    assert_eq!(a.len(), 32);
    let s: String = a.iter().collect();
    assert_eq!(s, "ABCĆDEFGHIJKLŁMNOÓPQRSŚTUVWXYZŹŻ");
    for i in 0..a.len() {
        for j in 0..a.len() {
            if i != j {
                assert_ne!(a[i], a[j]);
            }
        }
    }
}

#[test]
fn one_count_fetch_per_letter() {
    let a = alphabet();
    let tasks = count_tasks(&a);
    assert_eq!(tasks.len(), 32);
    for (t, c) in tasks.iter().zip(a.iter()) {
        assert_eq!(*t, task(*c, 0));
    }
}

#[test]
fn total_is_sum_of_letter_totals() {
    let counts = vec![
        LetterCount { letter: 'A', total: 250 },
        LetterCount { letter: 'B', total: 50 },
        LetterCount { letter: 'C', total: 0 },
    ];
    assert_eq!(total_count(&counts), Some(300));
    assert_eq!(total_count(&Vec::new()), Some(0));
}

#[test]
fn total_overflow_is_none() {
    let counts = vec![
        LetterCount { letter: 'A', total: u64::MAX },
        LetterCount { letter: 'B', total: 1 },
    ];
    assert_eq!(total_count(&counts), None);
    let fits = vec![
        LetterCount { letter: 'A', total: u64::MAX - 1 },
        LetterCount { letter: 'B', total: 1 },
    ];
    assert_eq!(total_count(&fits), Some(u64::MAX));
}

#[test]
fn page_count_is_ceiling() {
    assert_eq!(page_tasks('A', 0, PAGE_SIZE).len(), 0);
    assert_eq!(page_tasks('A', 1, PAGE_SIZE).len(), 1);
    assert_eq!(page_tasks('A', 200, PAGE_SIZE).len(), 1);
    assert_eq!(page_tasks('A', 201, PAGE_SIZE).len(), 2);
    assert_eq!(page_tasks('A', 400, PAGE_SIZE).len(), 2);
    assert_eq!(page_tasks('A', 401, PAGE_SIZE), vec![task('A', 0), task('A', 1), task('A', 2)]);
    assert_eq!(page_tasks('Z', u64::MAX, u64::MAX).len(), 1);
    assert_eq!(page_tasks('Z', 7, 1).len(), 7);
}

#[test]
fn listing_scenario_two_letters() {
    let counts = vec![
        LetterCount { letter: 'A', total: 250 },
        LetterCount { letter: 'B', total: 50 },
    ];
    let tasks = listing_tasks(&counts, PAGE_SIZE);
    assert_eq!(tasks, vec![task('A', 0), task('A', 1), task('B', 0)]);
    let offsets: Vec<u64> = tasks.iter().map(|t| t.page * PAGE_SIZE).collect();
    assert_eq!(offsets, vec![0, 200, 0]);
}

#[test]
fn counts_gathered_in_alphabet_order() {
    let letters = vec!['A', 'B', 'C'];
    let arrived = vec![
        LetterCount { letter: 'C', total: 7 },
        LetterCount { letter: 'A', total: 250 },
        LetterCount { letter: 'B', total: 50 },
    ];
    let expected = vec![
        LetterCount { letter: 'A', total: 250 },
        LetterCount { letter: 'B', total: 50 },
        LetterCount { letter: 'C', total: 7 },
    ];
    assert_eq!(counts_by_letter(&letters, &arrived), Some(expected.clone()));
    let mut other = arrived.clone();
    other.reverse();
    assert_eq!(counts_by_letter(&letters, &other), Some(expected.clone()));
    assert_eq!(total_count(&expected), Some(307));
    assert_eq!(counts_by_letter(&letters, &arrived[..2].to_vec()), None);
}

#[test]
fn listing_scenario_delivers_300_records() {
    let page = |first: u32, entries: u32| -> Vec<Option<Anchor>> {
        let mut v: Vec<Option<Anchor>> = (0..entries)
            .map(|k| Some(Anchor { href: Some(format!("javascript: haslo({})", first + k)), text: format!("w{}", first + k) }))
            .collect();
        v.push(None);
        v
    };
    let counts = vec![
        LetterCount { letter: 'A', total: 250 },
        LetterCount { letter: 'B', total: 50 },
    ];
    let tasks = listing_tasks(&counts, PAGE_SIZE);
    let sizes = [200u32, 50, 50];
    assert_eq!(tasks.len(), sizes.len());
    let mut delivered = 0;
    let mut first = 1;
    for n in sizes {
        let records = page_entries(&page(first, n)).unwrap();
        assert_eq!(records.len(), n as usize);
        delivered += records.len();
        first += n;
    }
    assert_eq!(delivered, 300);
}
