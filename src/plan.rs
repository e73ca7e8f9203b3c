use vstd::prelude::*;

verus! {

/// Entries requested per listing page.
pub const PAGE_SIZE: u64 = 200;

/// One remote fetch: the listing page `page` of `letter`, or, when `word`
/// is set, the definition page of that entry.
#[derive(Debug, Clone, Copy, PartialEq, Eq, Structural)]
pub struct FetchTask {
    pub letter: char,
    pub page: u64,
    pub word: Option<u32>,
}

/// The number of entries the site lists under one letter.
#[derive(Debug, Clone, Copy, PartialEq, Eq, Structural)]
pub struct LetterCount {
    pub letter: char,
    pub total: u64,
}

/// The dictionary's alphabet, in its own order.
pub open spec fn alphabet_spec() -> Seq<char> {
    seq![
        'A', 'B', 'C', '\u{106}', 'D', 'E', 'F', 'G', 'H', 'I', 'J', 'K', 'L', '\u{141}', 'M', 'N',
        'O', '\u{d3}', 'P', 'Q', 'R', 'S', '\u{15a}', 'T', 'U', 'V', 'W', 'X', 'Y', 'Z', '\u{179}', '\u{17b}',
    ]
}

pub fn alphabet() -> (r: Vec<char>)
    ensures
        r@ == alphabet_spec(),
{
    let r = vec![
        'A', 'B', 'C', '\u{106}', 'D', 'E', 'F', 'G', 'H', 'I', 'J', 'K', 'L', '\u{141}', 'M', 'N',
        'O', '\u{d3}', 'P', 'Q', 'R', 'S', '\u{15a}', 'T', 'U', 'V', 'W', 'X', 'Y', 'Z', '\u{179}', '\u{17b}',
    ];
    assert(r@ =~= alphabet_spec());
    r
}

/// The alphabet holds 32 letters, none twice.
pub proof fn lemma_alphabet_distinct()
    ensures
        alphabet_spec().len() == 32,
        alphabet_spec().no_duplicates(),
{
    let a = alphabet_spec();
    assert forall|i: int, j: int| 0 <= i < a.len() && 0 <= j < a.len() && i != j implies a[i] != a[j] by {
        assert(a[i] as u32 != a[j] as u32);
    }
}

/// The task that fetches the first listing page of `letter`, whose summary
/// gives the letter's total.
pub open spec fn count_task_spec(letter: char) -> FetchTask {
    FetchTask { letter, page: 0, word: None }
}

/// One count fetch per letter, in the letters' order.
pub fn count_tasks(letters: &Vec<char>) -> (r: Vec<FetchTask>)
    ensures
        r@.len() == letters@.len(),
        forall|i: int| 0 <= i < letters@.len() ==> r@[i] == count_task_spec(#[trigger] letters@[i]),
{
    let mut r: Vec<FetchTask> = Vec::new();
    let mut i: usize = 0;
    while i < letters.len()
        invariant
            i <= letters.len(),
            r@.len() == i,
            forall|j: int| 0 <= j < i ==> r@[j] == count_task_spec(#[trigger] letters@[j]),
        decreases letters.len() - i,
    {
        r.push(FetchTask { letter: letters[i], page: 0, word: None });
        i = i + 1;
    }
    r
}

/// The sum of the totals in `counts`.
pub open spec fn sum_totals(counts: Seq<LetterCount>) -> int
    decreases counts.len(),
{
    if counts.len() == 0 {
        0
    } else {
        sum_totals(counts.drop_last()) + counts.last().total
    }
}

/// Count discovery over the alphabet fetches each letter exactly once and
/// fetches nothing else: for the tasks that `count_tasks` plans from the
/// alphabet, every letter has one task, and every task is a letter's.
pub proof fn lemma_one_count_fetch_per_letter(tasks: Seq<FetchTask>)
    requires
        tasks.len() == alphabet_spec().len(),
        forall|i: int| 0 <= i < alphabet_spec().len() ==> tasks[i] == count_task_spec(#[trigger] alphabet_spec()[i]),
    ensures
        tasks.len() == 32,
        forall|i: int| 0 <= i < tasks.len() ==> alphabet_spec().contains(#[trigger] tasks[i].letter) && tasks[i].page == 0,
        forall|c: char| alphabet_spec().contains(c) ==> exists|i: int| 0 <= i < tasks.len() && #[trigger] tasks[i].letter == c,
        forall|i: int, j: int| 0 <= i < tasks.len() && 0 <= j < tasks.len() && #[trigger] tasks[i].letter == #[trigger] tasks[j].letter ==> i == j,
{
    lemma_alphabet_distinct();
    let a = alphabet_spec();
    assert forall|i: int| 0 <= i < tasks.len() implies a.contains(#[trigger] tasks[i].letter) && tasks[i].page == 0 by {
        assert(tasks[i] == count_task_spec(a[i]));
    }
    assert forall|c: char| a.contains(c) implies exists|i: int| 0 <= i < tasks.len() && #[trigger] tasks[i].letter == c by {
        let k = choose|k: int| 0 <= k < a.len() && a[k] == c;
        assert(tasks[k] == count_task_spec(a[k]));
        assert(tasks[k].letter == c);
    }
    assert forall|i: int, j: int| 0 <= i < tasks.len() && 0 <= j < tasks.len() && #[trigger] tasks[i].letter == #[trigger] tasks[j].letter implies i == j by {
        assert(tasks[i] == count_task_spec(a[i]));
        assert(tasks[j] == count_task_spec(a[j]));
    }
}

/// The aggregated total is the sum of the per-letter totals, one term per
/// letter: the total of `counts` with one more letter's count appended is
/// the earlier total plus that count.
pub proof fn lemma_total_adds_letter(counts: Seq<LetterCount>, c: LetterCount)
    ensures
        sum_totals(counts.push(c)) == sum_totals(counts) + c.total,
        sum_totals(Seq::<LetterCount>::empty()) == 0,
{
    assert(counts.push(c).drop_last() =~= counts);
}

/// The index of the first result for `c` in `s` at or after `i`; `s.len()`
/// if none.
pub open spec fn letter_index_from(s: Seq<LetterCount>, c: char, i: int) -> int
    decreases s.len() - i,
{
    if i < 0 || i >= s.len() {
        s.len() as int
    } else if s[i].letter == c {
        i
    } else {
        letter_index_from(s, c, i + 1)
    }
}

proof fn lemma_letter_index(s: Seq<LetterCount>, c: char, i: int)
    requires
        0 <= i <= s.len(),
    ensures
        i <= letter_index_from(s, c, i) <= s.len(),
        letter_index_from(s, c, i) < s.len() ==> s[letter_index_from(s, c, i)].letter == c,
        forall|k: int| i <= k < letter_index_from(s, c, i) ==> s[k].letter != c,
    decreases s.len() - i,
{
    if i < s.len() && s[i].letter != c {
        lemma_letter_index(s, c, i + 1);
    }
}

/// Whether `s` holds a result for `c`.
pub open spec fn has_letter(s: Seq<LetterCount>, c: char) -> bool {
    exists|j: int| 0 <= j < s.len() && (#[trigger] s[j]).letter == c
}

/// The total that the results `s` give for `c`: that of the first result
/// for `c`.
pub open spec fn total_of(s: Seq<LetterCount>, c: char) -> u64 {
    s[letter_index_from(s, c, 0)].total
}

/// Gathers the results of count discovery, which arrive in any order, into
/// one count per letter in the order of `letters`; `None` if a letter has no
/// result.
pub fn counts_by_letter(letters: &Vec<char>, results: &Vec<LetterCount>) -> (r: Option<Vec<LetterCount>>)
    ensures
        r is Some <==> forall|i: int| 0 <= i < letters@.len() ==> has_letter(results@, #[trigger] letters@[i]),
        r is Some ==> r->0@.len() == letters@.len(),
        r is Some ==> forall|i: int| 0 <= i < letters@.len() ==> #[trigger] r->0@[i]
            == (LetterCount { letter: letters@[i], total: total_of(results@, letters@[i]) }),
{
    let mut out: Vec<LetterCount> = Vec::new();
    let mut i: usize = 0;
    while i < letters.len()
        invariant
            i <= letters.len(),
            out@.len() == i,
            forall|k: int| 0 <= k < i ==> has_letter(results@, #[trigger] letters@[k]),
            forall|k: int| 0 <= k < i ==> #[trigger] out@[k]
                == (LetterCount { letter: letters@[k], total: total_of(results@, letters@[k]) }),
        decreases letters.len() - i,
    {
        let c = letters[i];
        let mut j: usize = 0;
        while j < results.len() && results[j].letter != c
            invariant
                j <= results.len(),
                letter_index_from(results@, c, 0) == letter_index_from(results@, c, j as int),
            decreases results.len() - j,
        {
            j = j + 1;
        }
        proof {
            lemma_letter_index(results@, c, 0);
        }
        if j == results.len() {
            proof {
                assert forall|k: int| 0 <= k < results@.len() implies (#[trigger] results@[k]).letter != c by {}
                assert(!has_letter(results@, letters@[i as int]));
            }
            return None;
        }
        out.push(LetterCount { letter: c, total: results[j].total });
        i = i + 1;
    }
    Some(out)
}

/// The aggregation does not depend on the order in which results arrive:
/// two arrivals of the same results, at most one per letter, give every
/// letter the same total.
pub proof fn lemma_counts_order_independent(s1: Seq<LetterCount>, s2: Seq<LetterCount>, c: char)
    requires
        s1.to_multiset() == s2.to_multiset(),
        forall|i: int, j: int| 0 <= i < s1.len() && 0 <= j < s1.len() && s1[i].letter == s1[j].letter ==> i == j,
        has_letter(s1, c),
    ensures
        has_letter(s2, c),
        total_of(s1, c) == total_of(s2, c),
{
    lemma_letter_index(s1, c, 0);
    lemma_letter_index(s2, c, 0);
    let j1 = letter_index_from(s1, c, 0);
    assert(j1 < s1.len());
    let x = s1[j1];
    s1.to_multiset_ensures();
    s2.to_multiset_ensures();
    assert(s1.contains(x));
    assert(s2.to_multiset().count(x) > 0);
    assert(s2.contains(x));
    let k = choose|k: int| 0 <= k < s2.len() && s2[k] == x;
    assert(s2[k].letter == c);
    let j2 = letter_index_from(s2, c, 0);
    assert(j2 <= k);
    let y = s2[j2];
    assert(s2.contains(y));
    assert(s1.to_multiset().count(y) > 0);
    assert(s1.contains(y));
    let m = choose|m: int| 0 <= m < s1.len() && s1[m] == y;
    assert(s1[m].letter == c);
    assert(m == j1);
}

/// The task that fetches the definition page of entry `id`. The form asks
/// for a letter and a page too; the site ignores them once it has an id.
pub open spec fn definition_task_spec(id: u32) -> FetchTask {
    FetchTask { letter: 'A', page: 0, word: Some(id) }
}

pub fn definition_task(id: u32) -> (r: FetchTask)
    ensures
        r == definition_task_spec(id),
{
    FetchTask { letter: 'A', page: 0, word: Some(id) }
}

/// The number of entries over all letters; `None` if it exceeds `u64`.
pub fn total_count(counts: &Vec<LetterCount>) -> (r: Option<u64>)
    ensures
        r is Some <==> sum_totals(counts@) <= u64::MAX,
        r is Some ==> r->0 == sum_totals(counts@),
{
    let mut sum: u64 = 0;
    let mut i: usize = 0;
    while i < counts.len()
        invariant
            i <= counts.len(),
            sum == sum_totals(counts@.take(i as int)),
        decreases counts.len() - i,
    {
        assert(counts@.take(i + 1).drop_last() =~= counts@.take(i as int));
        match sum.checked_add(counts[i].total) {
            Some(s) => {
                sum = s;
            },
            None => {
                proof {
                    lemma_sum_monotone(counts@, i as int + 1, counts.len() as int);
                    assert(counts@.take(counts.len() as int) =~= counts@);
                }
                return None;
            },
        }
        i = i + 1;
    }
    assert(counts@.take(i as int) =~= counts@);
    Some(sum)
}

proof fn lemma_sum_monotone(s: Seq<LetterCount>, i: int, j: int)
    requires
        0 <= i <= j <= s.len(),
    ensures
        sum_totals(s.take(i)) <= sum_totals(s.take(j)),
    decreases j - i,
{
    if i < j {
        assert(s.take(j).drop_last() =~= s.take(j - 1));
        lemma_sum_monotone(s, i, j - 1);
    }
}

/// The number of pages of `page_size` entries that cover `total` entries.
pub open spec fn page_count(total: nat, page_size: nat) -> nat
    recommends
        page_size > 0,
{
    if total % page_size == 0 {
        total / page_size
    } else {
        total / page_size + 1
    }
}

/// The listing tasks of one letter: pages `0 .. ceil(total / page_size)`.
pub open spec fn page_tasks_spec(letter: char, total: nat, page_size: nat) -> Seq<FetchTask> {
    Seq::new(page_count(total, page_size), |i: int| FetchTask { letter, page: i as u64, word: None })
}

/// Plans the page walk of one letter. Every page, the last one too, asks for
/// a full page.
pub fn page_tasks(letter: char, total: u64, page_size: u64) -> (r: Vec<FetchTask>)
    requires
        page_size > 0,
    ensures
        r@ == page_tasks_spec(letter, total as nat, page_size as nat),
{
    let pages: u64 = if total % page_size == 0 {
        total / page_size
    } else {
        proof {
            lemma_partial_page_fits(total as nat, page_size as nat);
        }
        total / page_size + 1
    };
    let mut r: Vec<FetchTask> = Vec::new();
    let mut page: u64 = 0;
    while page < pages
        invariant
            page <= pages,
            page_size > 0,
            pages == page_count(total as nat, page_size as nat),
            r@ == page_tasks_spec(letter, total as nat, page_size as nat).take(page as int),
        decreases pages - page,
    {
        r.push(FetchTask { letter, page, word: None });
        page = page + 1;
        assert(r@ =~= page_tasks_spec(letter, total as nat, page_size as nat).take(page as int));
    }
    assert(r@ =~= page_tasks_spec(letter, total as nat, page_size as nat));
    r
}

proof fn lemma_partial_page_fits(total: nat, page_size: nat)
    requires
        page_size > 0,
        total % page_size != 0,
        total <= u64::MAX,
    ensures
        total / page_size < u64::MAX,
{
    let q = total / page_size;
    let m = total % page_size;
    assert(total == q * page_size + m) by (nonlinear_arith)
        requires page_size > 0, q == total / page_size, m == total % page_size;
    assert(q <= q * page_size) by (nonlinear_arith)
        requires page_size > 0, q >= 0;
}

/// The listing tasks of all letters, letter after letter in the order of
/// `counts`, pages in increasing order within a letter.
pub open spec fn listing_tasks_spec(counts: Seq<LetterCount>, page_size: nat) -> Seq<FetchTask>
    decreases counts.len(),
{
    if counts.len() == 0 {
        seq![]
    } else {
        listing_tasks_spec(counts.drop_last(), page_size)
            + page_tasks_spec(counts.last().letter, counts.last().total as nat, page_size)
    }
}

/// The number of listing tasks of all letters.
pub open spec fn total_pages(counts: Seq<LetterCount>, page_size: nat) -> nat
    decreases counts.len(),
{
    if counts.len() == 0 {
        0
    } else {
        total_pages(counts.drop_last(), page_size) + page_count(counts.last().total as nat, page_size)
    }
}

/// Plans the page walk over every letter whose total is known.
pub fn listing_tasks(counts: &Vec<LetterCount>, page_size: u64) -> (r: Vec<FetchTask>)
    requires
        page_size > 0,
    ensures
        r@ == listing_tasks_spec(counts@, page_size as nat),
{
    let mut r: Vec<FetchTask> = Vec::new();
    let mut i: usize = 0;
    while i < counts.len()
        invariant
            i <= counts.len(),
            page_size > 0,
            r@ == listing_tasks_spec(counts@.take(i as int), page_size as nat),
        decreases counts.len() - i,
    {
        let c = counts[i];
        let mut pages = page_tasks(c.letter, c.total, page_size);
        r.append(&mut pages);
        assert(counts@.take(i + 1).drop_last() =~= counts@.take(i as int));
        i = i + 1;
    }
    assert(counts@.take(i as int) =~= counts@);
    r
}

/// The page walk plans exactly `ceil(total / page_size)` tasks per letter.
pub proof fn lemma_listing_task_count(counts: Seq<LetterCount>, page_size: nat)
    requires
        page_size > 0,
    ensures
        listing_tasks_spec(counts, page_size).len() == total_pages(counts, page_size),
    decreases counts.len(),
{
    if counts.len() > 0 {
        lemma_listing_task_count(counts.drop_last(), page_size);
    }
}

/// The page walk of one letter plans `ceil(total / page_size)` tasks, pages
/// `0, 1, ...` in order: they hold at least `total` entries, and one page
/// fewer would not.
pub proof fn lemma_pages_cover(letter: char, total: nat, page_size: nat)
    requires
        page_size > 0,
        total <= u64::MAX,
    ensures
        page_count(total, page_size) * page_size >= total,
        page_count(total, page_size) > 0 ==> (page_count(total, page_size) - 1) * page_size < total,
        page_tasks_spec(letter, total, page_size).len() == page_count(total, page_size),
        forall|i: int| 0 <= i < page_count(total, page_size) ==> (#[trigger] page_tasks_spec(letter, total, page_size)[i]).page == i,
{
    let q = total / page_size;
    let m = total % page_size;
    assert(total == q * page_size + m) by (nonlinear_arith)
        requires page_size > 0, q == total / page_size, m == total % page_size;
    assert(0 <= m < page_size);
    assert(q <= total) by (nonlinear_arith)
        requires page_size > 0, total == q * page_size + m, m >= 0, q >= 0;
    if m != 0 {
        lemma_partial_page_fits(total, page_size);
    }
    if m == 0 {
        assert(page_count(total, page_size) * page_size >= total);
        if q > 0 {
            assert((q - 1) * page_size == q * page_size - page_size) by (nonlinear_arith);
        }
    } else {
        assert((q + 1) * page_size == q * page_size + page_size) by (nonlinear_arith);
    }
}

} // verus!
