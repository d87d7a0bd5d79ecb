use vstd::prelude::*;
use vstd::set_lib::lemma_len_union;
use vstd::seq_lib::{seq_to_set_distributes_over_add, seq_to_set_is_finite};
use crate::chars::views;
use crate::count::FileReport;
use crate::wordset::WordSet;

verus! {

/// What the totals of one pattern stand for: the words counted in its files,
/// and the set of the different words among them.
pub struct PatternTotals {
    pub total_words: nat,
    pub unique: Set<Seq<char>>,
}

/// What the grand totals stand for: the files folded in, the words counted in
/// them, and the set of the different words among them.
pub struct GrandTotals {
    pub files_processed: nat,
    pub total_words: nat,
    pub unique: Set<Seq<char>>,
}

impl PatternTotals {
    /// The totals of a pattern without files.
    pub open spec fn zero() -> PatternTotals {
        PatternTotals { total_words: 0, unique: Set::empty() }
    }
}

impl GrandTotals {
    /// The grand totals before the first file.
    pub open spec fn zero() -> GrandTotals {
        GrandTotals { files_processed: 0, total_words: 0, unique: Set::empty() }
    }
}

/// The totals of a pattern after one more file, whose words are `words`.
pub open spec fn pattern_with_file(totals: PatternTotals, words: Seq<Seq<char>>) -> PatternTotals {
    PatternTotals {
        total_words: totals.total_words + words.len(),
        unique: totals.unique.union(words.to_set()),
    }
}

/// The grand totals after one more file, whose words are `words`.
pub open spec fn grand_with_file(totals: GrandTotals, words: Seq<Seq<char>>) -> GrandTotals {
    GrandTotals {
        files_processed: totals.files_processed + 1,
        total_words: totals.total_words + words.len(),
        unique: totals.unique.union(words.to_set()),
    }
}

/// The words of `files`, those of the first file first.
pub open spec fn all_words(files: Seq<Seq<Seq<char>>>) -> Seq<Seq<char>> {
    files.flatten()
}

/// The totals of a pattern whose files hold the words `files`: the words of all
/// its files are counted, and the different ones among them.
pub open spec fn pattern_totals(files: Seq<Seq<Seq<char>>>) -> PatternTotals {
    PatternTotals { total_words: all_words(files).len(), unique: all_words(files).to_set() }
}

/// The grand totals after the files that hold the words `files`.
pub open spec fn grand_with_files(totals: GrandTotals, files: Seq<Seq<Seq<char>>>) -> GrandTotals {
    GrandTotals {
        files_processed: totals.files_processed + files.len(),
        total_words: totals.total_words + all_words(files).len(),
        unique: totals.unique.union(all_words(files).to_set()),
    }
}

/// The words of each of `reports`, in order.
pub open spec fn report_words(reports: Seq<FileReport>) -> Seq<Seq<Seq<char>>> {
    reports.map_values(|r: FileReport| views(r.words@))
}

/// Without a file the totals of a pattern are zero, and the grand totals stay
/// what they were.
pub proof fn lemma_totals_without_files(totals: GrandTotals)
    ensures
        pattern_totals(Seq::empty()) == PatternTotals::zero(),
        grand_with_files(totals, Seq::empty()) == totals,
{
    let none = Seq::<Seq<Seq<char>>>::empty();
    assert(all_words(none) =~= Seq::<Seq<char>>::empty());
    assert(all_words(none).to_set() =~= Set::<Seq<char>>::empty());
    assert(totals.unique.union(all_words(none).to_set()) =~= totals.unique);
}

/// The totals over some files and one more are the totals over the files with
/// the one folded in.
pub proof fn lemma_totals_file_by_file(
    totals: GrandTotals,
    files: Seq<Seq<Seq<char>>>,
    words: Seq<Seq<char>>,
)
    ensures
        pattern_totals(files.push(words)) == pattern_with_file(pattern_totals(files), words),
        grand_with_files(totals, files.push(words)) == grand_with_file(
            grand_with_files(totals, files),
            words,
        ),
{
    files.lemma_flatten_push(words);
    assert(all_words(files.push(words)) =~= all_words(files) + words);
    seq_to_set_distributes_over_add(all_words(files), words);
    assert(all_words(files.push(words)).to_set() =~= all_words(files).to_set().union(
        words.to_set(),
    ));
    assert(totals.unique.union(all_words(files).to_set()).union(words.to_set())
        =~= totals.unique.union(all_words(files).to_set().union(words.to_set())));
}

/// The order in which two files are folded in makes no difference.
pub proof fn lemma_order_makes_no_difference(
    totals: GrandTotals,
    first: Seq<Seq<char>>,
    second: Seq<Seq<char>>,
)
    ensures
        grand_with_file(grand_with_file(totals, first), second) == grand_with_file(
            grand_with_file(totals, second),
            first,
        ),
{
    let one = grand_with_file(grand_with_file(totals, first), second);
    let other = grand_with_file(grand_with_file(totals, second), first);
    assert(one.unique =~= other.unique);
}

/// A file that is folded in a second time adds no different word.
pub proof fn lemma_same_file_adds_no_word(totals: GrandTotals, words: Seq<Seq<char>>)
    ensures
        grand_with_file(grand_with_file(totals, words), words).unique == grand_with_file(
            totals,
            words,
        ).unique,
{
    assert(grand_with_file(grand_with_file(totals, words), words).unique =~= grand_with_file(
        totals,
        words,
    ).unique);
}

/// However many files are folded in, the different words stay finitely many
/// and no more than the words counted.
pub proof fn lemma_unique_never_above_total(totals: GrandTotals, files: Seq<Seq<Seq<char>>>)
    requires
        totals.unique.finite(),
        totals.unique.len() <= totals.total_words,
    ensures
        grand_with_files(totals, files).unique.finite(),
        grand_with_files(totals, files).unique.len() <= grand_with_files(totals, files).total_words,
{
    lemma_unique_stays_below_total(totals.total_words, totals.unique, all_words(files));
}

/// Folding one more file into a finite set of different words that is no
/// larger than the count of words leaves it finite and no larger than the new
/// count.
pub proof fn lemma_unique_stays_below_total(
    total_words: nat,
    unique: Set<Seq<char>>,
    words: Seq<Seq<char>>,
)
    requires
        unique.finite(),
        unique.len() <= total_words,
    ensures
        unique.union(words.to_set()).finite(),
        unique.union(words.to_set()).len() <= total_words + words.len(),
{
    broadcast use seq_to_set_is_finite;

    words.lemma_cardinality_of_set();
    lemma_len_union(unique, words.to_set());
}

/// The words of one pattern, accumulated file by file.
pub struct PatternResult {
    total_words: usize,
    unique: WordSet,
}

impl View for PatternResult {
    type V = PatternTotals;

    closed spec fn view(&self) -> PatternTotals {
        PatternTotals { total_words: self.total_words as nat, unique: self.unique@ }
    }
}

impl PatternResult {
    /// The different words are finitely many and no more than the words
    /// counted.
    pub open spec fn wf(&self) -> bool {
        self@.unique.finite() && self@.unique.len() <= self@.total_words <= usize::MAX
    }

    /// The totals of a pattern before its first file.
    pub fn new() -> (result: PatternResult)
        ensures
            result.wf(),
            result@ == PatternTotals::zero(),
    {
        PatternResult { total_words: 0, unique: WordSet::new() }
    }

    /// Folds in a file whose words are `words`.
    pub fn add_file(&mut self, words: &Vec<String>)
        requires
            old(self).wf(),
            old(self)@.total_words + words.len() <= usize::MAX,
        ensures
            final(self).wf(),
            final(self)@ == pattern_with_file(old(self)@, views(words@)),
    {
        proof {
            lemma_unique_stays_below_total(self@.total_words, self@.unique, views(words@));
        }
        self.total_words = self.total_words + words.len();
        self.unique.extend(words);
    }

    /// The words counted in the files of the pattern.
    pub fn total_words(&self) -> (n: usize)
        ensures
            n == self@.total_words,
    {
        self.total_words
    }

    /// The different words in the files of the pattern.
    pub fn unique_words(&self) -> (n: usize)
        requires
            self.wf(),
        ensures
            n == self@.unique.len(),
            n <= self@.total_words,
    {
        self.unique.len()
    }
}

/// The words of every file of a run, accumulated file by file over all its
/// patterns.
pub struct GrandTotal {
    files_processed: usize,
    total_words: usize,
    unique: WordSet,
}

impl View for GrandTotal {
    type V = GrandTotals;

    closed spec fn view(&self) -> GrandTotals {
        GrandTotals {
            files_processed: self.files_processed as nat,
            total_words: self.total_words as nat,
            unique: self.unique@,
        }
    }
}

impl GrandTotal {
    /// The different words are finitely many and no more than the words
    /// counted.
    pub open spec fn wf(&self) -> bool {
        &&& self@.unique.finite()
        &&& self@.unique.len() <= self@.total_words <= usize::MAX
        &&& self@.files_processed <= usize::MAX
    }

    /// The grand totals before the first file.
    pub fn new() -> (total: GrandTotal)
        ensures
            total.wf(),
            total@ == GrandTotals::zero(),
    {
        GrandTotal { files_processed: 0, total_words: 0, unique: WordSet::new() }
    }

    /// Folds in a file whose words are `words`.
    pub fn add_file(&mut self, words: &Vec<String>)
        requires
            old(self).wf(),
            old(self)@.files_processed < usize::MAX,
            old(self)@.total_words + words.len() <= usize::MAX,
        ensures
            final(self).wf(),
            final(self)@ == grand_with_file(old(self)@, views(words@)),
    {
        proof {
            lemma_unique_stays_below_total(self@.total_words, self@.unique, views(words@));
        }
        self.files_processed = self.files_processed + 1;
        self.total_words = self.total_words + words.len();
        self.unique.extend(words);
    }

    /// The files folded in.
    pub fn files_processed(&self) -> (n: usize)
        ensures
            n == self@.files_processed,
    {
        self.files_processed
    }

    /// The words counted in all files.
    pub fn total_words(&self) -> (n: usize)
        ensures
            n == self@.total_words,
    {
        self.total_words
    }

    /// The different words in all files.
    pub fn unique_words(&self) -> (n: usize)
        requires
            self.wf(),
        ensures
            n == self@.unique.len(),
            n <= self@.total_words,
    {
        self.unique.len()
    }

    /// The two counts whose quotient is the unique ratio, the different words
    /// first, or `None` where no word was counted and there is no quotient.
    pub fn unique_ratio_terms(&self) -> (terms: Option<(usize, usize)>)
        requires
            self.wf(),
        ensures
            terms is None <==> self@.total_words == 0,
            terms matches Some(pair) ==> pair.0 == self@.unique.len() && pair.1
                == self@.total_words && pair.0 <= pair.1,
    {
        if self.total_words == 0 {
            None
        } else {
            Some((self.unique.len(), self.total_words))
        }
    }
}

/// The number of words in `reports` together, or `None` where it is more than
/// a `usize` holds.
fn count_words_in(reports: &Vec<FileReport>) -> (sum: Option<usize>)
    ensures
        sum is Some <==> all_words(report_words(reports@)).len() <= usize::MAX,
        sum matches Some(n) ==> n == all_words(report_words(reports@)).len(),
{
    let ghost files = report_words(reports@);
    let mut sum: usize = 0;
    let mut i: usize = 0;
    assert(files.take(0) =~= Seq::<Seq<Seq<char>>>::empty());
    assert(all_words(files.take(0)) =~= Seq::<Seq<char>>::empty());
    while i < reports.len()
        invariant
            i <= reports.len(),
            files == report_words(reports@),
            sum == all_words(files.take(i as int)).len(),
        decreases reports.len() - i,
    {
        proof {
            lemma_one_more_file(files, i as int);
            lemma_first_files_hold_fewer_words(files, i as int + 1);
        }
        match sum.checked_add(reports[i].words.len()) {
            Some(more) => {
                sum = more;
            },
            None => {
                return None;
            },
        }
        i += 1;
    }
    assert(files.take(reports.len() as int) =~= files);
    Some(sum)
}

/// The words of the first `n + 1` files are those of the first `n` and then
/// those of the next.
proof fn lemma_one_more_file(files: Seq<Seq<Seq<char>>>, n: int)
    requires
        0 <= n < files.len(),
    ensures
        files.take(n + 1) == files.take(n).push(files[n]),
        all_words(files.take(n + 1)) == all_words(files.take(n)) + files[n],
{
    assert(files.take(n + 1) =~= files.take(n).push(files[n]));
    files.take(n).lemma_flatten_push(files[n]);
}

/// The first files of a sequence hold no more words than all of them.
proof fn lemma_first_files_hold_fewer_words(files: Seq<Seq<Seq<char>>>, n: int)
    requires
        0 <= n <= files.len(),
    ensures
        all_words(files.take(n)).len() <= all_words(files).len(),
    decreases files.len() - n,
{
    if n < files.len() {
        lemma_one_more_file(files, n);
        lemma_first_files_hold_fewer_words(files, n + 1);
    } else {
        assert(files.take(n) =~= files);
    }
}

/// Folds the files of one pattern into the totals of the pattern and into the
/// grand totals. Where the counts would not fit a `usize` nothing is folded
/// in and `None` comes back.
pub fn aggregate(reports: &Vec<FileReport>, grand: &mut GrandTotal) -> (r: Option<PatternResult>)
    requires
        old(grand).wf(),
    ensures
        final(grand).wf(),
        r is Some <==> grand_with_files(old(grand)@, report_words(reports@)).files_processed
            <= usize::MAX && grand_with_files(old(grand)@, report_words(reports@)).total_words
            <= usize::MAX,
        r is None ==> final(grand)@ == old(grand)@,
        r matches Some(pattern) ==> {
            &&& pattern.wf()
            &&& pattern@ == pattern_totals(report_words(reports@))
            &&& final(grand)@ == grand_with_files(old(grand)@, report_words(reports@))
        },
{
    let ghost files = report_words(reports@);
    let ghost start = grand@;
    let fits = match count_words_in(reports) {
        Some(sum) => sum <= usize::MAX - grand.total_words && reports.len() <= usize::MAX
            - grand.files_processed,
        None => false,
    };
    if !fits {
        return None;
    }
    let mut pattern = PatternResult::new();
    let mut i: usize = 0;
    proof {
        assert(files.take(0) =~= Seq::<Seq<Seq<char>>>::empty());
        lemma_totals_without_files(start);
    }
    while i < reports.len()
        invariant
            i <= reports.len(),
            files == report_words(reports@),
            start.files_processed + reports.len() <= usize::MAX,
            start.total_words + all_words(files).len() <= usize::MAX,
            pattern.wf(),
            grand.wf(),
            pattern@ == pattern_totals(files.take(i as int)),
            grand@ == grand_with_files(start, files.take(i as int)),
        decreases reports.len() - i,
    {
        proof {
            lemma_one_more_file(files, i as int);
            lemma_first_files_hold_fewer_words(files, i as int + 1);
            lemma_totals_file_by_file(start, files.take(i as int), files[i as int]);
        }
        pattern.add_file(&reports[i].words);
        grand.add_file(&reports[i].words);
        i += 1;
    }
    assert(files.take(reports.len() as int) =~= files);
    Some(pattern)
}

} // verus!
