use vstd::prelude::*;
use vstd::std_specs::iter::IteratorSpec;
use crate::chars::{alphabetic, lowercase, views, is_alphabetic, to_lowercase, push_char};

verus! {

/// Length of the longest prefix of `s` that holds letters only.
pub open spec fn run_len(s: Seq<char>) -> nat
    decreases s.len(),
{
    if s.len() > 0 && alphabetic(s[0]) {
        1 + run_len(s.drop_first())
    } else {
        0
    }
}

/// The maximal runs of letters in `s`, in the order in which they start. Every
/// other character separates two runs and belongs to none.
pub open spec fn runs(s: Seq<char>) -> Seq<Seq<char>>
    decreases s.len(),
    via runs_decreases
{
    if s.len() == 0 {
        Seq::empty()
    } else if !alphabetic(s[0]) {
        runs(s.drop_first())
    } else {
        seq![s.take(run_len(s) as int)] + runs(s.skip(run_len(s) as int))
    }
}

#[via_fn]
proof fn runs_decreases(s: Seq<char>) {
    lemma_run_len_is_maximal(s);
}

/// The words of `s`: its runs of letters, each in lowercase.
pub open spec fn words_of(s: Seq<char>) -> Seq<Seq<char>> {
    runs(s).map_values(|run: Seq<char>| lowercase(run))
}

/// A prefix of `k` letters that ends `s` or is followed by a separator is the
/// longest prefix of letters.
pub proof fn lemma_run_len(s: Seq<char>, k: nat)
    requires
        k <= s.len(),
        forall|j: int| 0 <= j < k ==> alphabetic(#[trigger] s[j]),
        k == s.len() || !alphabetic(s[k as int]),
    ensures
        run_len(s) == k,
    decreases k,
{
    if k > 0 {
        let rest = s.drop_first();
        assert forall|j: int| 0 <= j < k - 1 implies alphabetic(#[trigger] rest[j]) by {
            assert(rest[j] == s[j + 1]);
        }
        lemma_run_len(rest, (k - 1) as nat);
    }
}

/// The longest prefix of letters holds letters only, and ends the text or is
/// followed by a separator.
pub proof fn lemma_run_len_is_maximal(s: Seq<char>)
    ensures
        run_len(s) <= s.len(),
        forall|j: int| 0 <= j < run_len(s) ==> alphabetic(#[trigger] s[j]),
        run_len(s) == s.len() || !alphabetic(s[run_len(s) as int]),
    decreases s.len(),
{
    if s.len() > 0 && alphabetic(s[0]) {
        let rest = s.drop_first();
        lemma_run_len_is_maximal(rest);
        assert forall|j: int| 0 <= j < run_len(s) implies alphabetic(#[trigger] s[j]) by {
            if j > 0 {
                assert(s[j] == rest[j - 1]);
            }
        }
        if run_len(s) < s.len() {
            assert(s[run_len(s) as int] == rest[run_len(rest) as int]);
        }
    }
}

/// No run is empty, and a run holds letters only.
pub proof fn lemma_runs_hold_letters(s: Seq<char>)
    ensures
        forall|i: int, j: int|
            0 <= i < runs(s).len() && 0 <= j < runs(s)[i].len() ==> alphabetic(
                #[trigger] runs(s)[i][j],
            ),
        forall|i: int| 0 <= i < runs(s).len() ==> (#[trigger] runs(s)[i]).len() > 0,
    decreases s.len(),
{
    if s.len() == 0 {
        assert(runs(s).len() == 0);
    } else if !alphabetic(s[0]) {
        lemma_runs_hold_letters(s.drop_first());
        assert(runs(s) == runs(s.drop_first()));
    } else {
        let k = run_len(s) as int;
        lemma_run_len_is_maximal(s);
        lemma_runs_hold_letters(s.skip(k));
        let tail = runs(s.skip(k));
        assert(runs(s) == seq![s.take(k)] + tail);
        assert forall|i: int, j: int|
            0 <= i < runs(s).len() && 0 <= j < runs(s)[i].len() implies alphabetic(
            #[trigger] runs(s)[i][j],
        ) by {
            if i == 0 {
                assert(runs(s)[0] == s.take(k));
                assert(s.take(k)[j] == s[j]);
            } else {
                assert(runs(s)[i] == tail[i - 1]);
            }
        }
        assert forall|i: int| 0 <= i < runs(s).len() implies (#[trigger] runs(s)[i]).len() > 0 by {
            if i == 0 {
                assert(runs(s)[0] == s.take(k));
            } else {
                assert(runs(s)[i] == tail[i - 1]);
            }
        }
    }
}

/// The runs of a text that is followed by a separator, or by nothing, are not
/// touched by what comes behind: the runs of the whole are those of the first
/// part and then those of the rest.
pub proof fn lemma_runs_concat(a: Seq<char>, b: Seq<char>)
    requires
        b.len() == 0 || !alphabetic(b[0]),
    ensures
        runs(a + b) == runs(a) + runs(b),
    decreases a.len(),
{
    let whole = a + b;
    if a.len() == 0 {
        assert(whole =~= b);
        assert(runs(a) + runs(b) =~= runs(b));
    } else if !alphabetic(a[0]) {
        assert(whole[0] == a[0]);
        assert(whole.drop_first() =~= a.drop_first() + b);
        lemma_runs_concat(a.drop_first(), b);
    } else {
        let k = run_len(a);
        lemma_run_len_is_maximal(a);
        assert(whole[0] == a[0]);
        assert forall|j: int| 0 <= j < k implies alphabetic(#[trigger] whole[j]) by {
            assert(whole[j] == a[j]);
        }
        if k < a.len() {
            assert(whole[k as int] == a[k as int]);
        } else if b.len() > 0 {
            assert(whole[k as int] == b[0]);
        }
        lemma_run_len(whole, k);
        assert(whole.take(k as int) =~= a.take(k as int));
        assert(whole.skip(k as int) =~= a.skip(k as int) + b);
        lemma_runs_concat(a.skip(k as int), b);
        assert(runs(whole) =~= runs(a) + runs(b));
    }
}

/// A character that is no letter separates: the words of a text with such a
/// character in it are the words before the character and then the words
/// behind it.
pub proof fn lemma_separator_splits(before: Seq<char>, separator: char, behind: Seq<char>)
    requires
        !alphabetic(separator),
    ensures
        words_of(before + seq![separator] + behind) == words_of(before) + words_of(behind),
{
    let rest = seq![separator] + behind;
    assert(rest[0] == separator);
    assert(rest.drop_first() =~= behind);
    assert(runs(rest) == runs(behind));
    lemma_runs_concat(before, rest);
    assert(before + seq![separator] + behind =~= before + rest);
    lemma_lower_concat(runs(before), runs(behind));
}

/// A text without characters has no words.
pub proof fn lemma_no_text_no_words()
    ensures
        words_of(Seq::<char>::empty()) == Seq::<Seq<char>>::empty(),
{
    assert(words_of(Seq::<char>::empty()) =~= Seq::<Seq<char>>::empty());
}

/// A text of letters only, if it is not empty, is one word: its lowercase form.
pub proof fn lemma_letters_are_one_word(s: Seq<char>)
    requires
        s.len() > 0,
        forall|j: int| 0 <= j < s.len() ==> alphabetic(#[trigger] s[j]),
    ensures
        words_of(s) == seq![lowercase(s)],
{
    lemma_final_run(s, 0);
    assert(s.skip(0) =~= s);
}

/// Words are told apart by their lowercase forms alone: two runs of letters
/// with the same lowercase form, with a separator between them, are two words
/// and one different word.
pub proof fn lemma_case_is_ignored(first: Seq<char>, separator: char, second: Seq<char>)
    requires
        first.len() > 0,
        second.len() > 0,
        forall|j: int| 0 <= j < first.len() ==> alphabetic(#[trigger] first[j]),
        forall|j: int| 0 <= j < second.len() ==> alphabetic(#[trigger] second[j]),
        !alphabetic(separator),
        lowercase(first) == lowercase(second),
    ensures
        words_of(first + seq![separator] + second).len() == 2,
        words_of(first + seq![separator] + second).to_set().len() == 1,
{
    lemma_separator_splits(first, separator, second);
    lemma_letters_are_one_word(first);
    lemma_letters_are_one_word(second);
    let words = words_of(first + seq![separator] + second);
    assert(words =~= seq![lowercase(first), lowercase(first)]);
    assert(words.to_set() =~= set![lowercase(first)]);
}

/// Mapping each run to lowercase goes through concatenation.
proof fn lemma_lower_concat(a: Seq<Seq<char>>, b: Seq<Seq<char>>)
    ensures
        (a + b).map_values(|run: Seq<char>| lowercase(run)) == a.map_values(
            |run: Seq<char>| lowercase(run),
        ) + b.map_values(|run: Seq<char>| lowercase(run)),
{
    assert((a + b).map_values(|run: Seq<char>| lowercase(run)) =~= a.map_values(
        |run: Seq<char>| lowercase(run),
    ) + b.map_values(|run: Seq<char>| lowercase(run)));
}

/// The runs of `s` from `start` on, where the characters from `start` up to `i`
/// are letters and the one at `i` is a separator: the run that ends at `i`, if
/// it is not empty, and then the runs behind `i`.
proof fn lemma_separator_step(s: Seq<char>, start: int, i: int)
    requires
        0 <= start <= i < s.len(),
        forall|j: int| start <= j < i ==> alphabetic(#[trigger] s[j]),
        !alphabetic(s[i]),
    ensures
        start == i ==> words_of(s.skip(start)) == words_of(s.skip(i + 1)),
        start < i ==> words_of(s.skip(start)) == seq![lowercase(s.subrange(start, i))] + words_of(
            s.skip(i + 1),
        ),
{
    let t = s.skip(start);
    let u = s.skip(i);
    assert(u.drop_first() =~= s.skip(i + 1));
    assert(runs(u) == runs(s.skip(i + 1)));
    if start < i {
        let k = (i - start) as nat;
        assert forall|j: int| 0 <= j < k implies alphabetic(#[trigger] t[j]) by {
            assert(t[j] == s[start + j]);
        }
        lemma_run_len(t, k);
        assert(t.take(k as int) =~= s.subrange(start, i));
        assert(t.skip(k as int) =~= u);
        assert(runs(t) == seq![s.subrange(start, i)] + runs(u));
        lemma_lower_concat(seq![s.subrange(start, i)], runs(u));
        assert(seq![s.subrange(start, i)].map_values(|run: Seq<char>| lowercase(run))
            =~= seq![lowercase(s.subrange(start, i))]);
    }
}

/// The runs of `s` from `start` on, where every character from `start` on is a
/// letter: that run alone, if it is not empty.
proof fn lemma_final_run(s: Seq<char>, start: int)
    requires
        0 <= start <= s.len(),
        forall|j: int| start <= j < s.len() ==> alphabetic(#[trigger] s[j]),
    ensures
        start == s.len() ==> words_of(s.skip(start)) == Seq::<Seq<char>>::empty(),
        start < s.len() ==> words_of(s.skip(start)) == seq![lowercase(s.skip(start))],
{
    let t = s.skip(start);
    if start < s.len() {
        let k = t.len();
        assert forall|j: int| 0 <= j < k implies alphabetic(#[trigger] t[j]) by {
            assert(t[j] == s[start + j]);
        }
        lemma_run_len(t, k);
        assert(t.take(k as int) =~= t);
        assert(t.skip(k as int).len() == 0);
        assert(runs(t.skip(k as int)) =~= Seq::<Seq<char>>::empty());
        assert(runs(t) =~= seq![t]);
        assert(words_of(t) =~= seq![lowercase(t)]);
    } else {
        assert(words_of(t) =~= Seq::<Seq<char>>::empty());
    }
}

/// The views of `words` with `word` behind them.
proof fn lemma_push_word(words: Seq<String>, word: String)
    ensures
        views(words.push(word)) == views(words).push(word@),
{
    assert(views(words.push(word)) =~= views(words).push(word@));
}

/// Splits `text` into its words: the maximal runs of letters, each in lowercase,
/// in the order in which they occur.
pub fn tokenize(text: &str) -> (words: Vec<String>)
    ensures
        views(words@) == words_of(text@),
{
    let mut words: Vec<String> = Vec::new();
    let mut current = String::new();
    let ghost mut start: int = 0;
    assert(text@.skip(0) =~= text@);
    assert(views(words@) =~= Seq::<Seq<char>>::empty());
    for c in it: text.chars()
        invariant
            it.seq() == text@,
            0 <= start <= it.index() <= text@.len(),
            current@ == text@.subrange(start, it.index() as int),
            forall|j: int| start <= j < it.index() ==> alphabetic(#[trigger] text@[j]),
            views(words@) + words_of(text@.skip(start)) == words_of(text@),
    {
        let ghost i = it.index() as int;
        if is_alphabetic(c) {
            push_char(&mut current, c);
            assert(current@ == text@.subrange(start, i + 1));
        } else {
            proof {
                lemma_separator_step(text@, start, i);
            }
            if !current.as_str().is_empty() {
                let word = to_lowercase(current.as_str());
                proof {
                    lemma_push_word(words@, word);
                }
                words.push(word);
                current = String::new();
            }
            proof {
                start = i + 1;
            }
        }
    }
    proof {
        lemma_final_run(text@, start);
    }
    if !current.as_str().is_empty() {
        let word = to_lowercase(current.as_str());
        proof {
            lemma_push_word(words@, word);
        }
        words.push(word);
    }
    words
}

} // verus!
