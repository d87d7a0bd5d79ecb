use vstd::prelude::*;
use vstd::hash_set::StringHashSet;
use crate::chars::views;

verus! {

/// A set of words. Its view is the set of the character sequences that were put
/// into it.
pub struct WordSet {
    words: StringHashSet,
}

impl View for WordSet {
    type V = Set<Seq<char>>;

    closed spec fn view(&self) -> Set<Seq<char>> {
        self.words@
    }
}

impl WordSet {
    /// A word set holds finitely many words. `new` makes such a set and every
    /// method keeps it so.
    pub open spec fn wf(&self) -> bool {
        self@.finite()
    }

    /// The set that holds no word.
    pub fn new() -> (set: WordSet)
        ensures
            set.wf(),
            set@ == Set::<Seq<char>>::empty(),
    {
        WordSet { words: StringHashSet::new() }
    }

    /// The number of words in the set.
    pub fn len(&self) -> (n: usize)
        ensures
            n == self@.len(),
    {
        self.words.len()
    }

    /// Whether the set holds no word.
    pub fn is_empty(&self) -> (empty: bool)
        requires
            self.wf(),
        ensures
            empty == (self@ == Set::<Seq<char>>::empty()),
    {
        proof {
            if self@.len() == 0 {
                self@.lemma_len0_is_empty();
                assert(self@ =~= Set::<Seq<char>>::empty());
            }
        }
        self.words.len() == 0
    }

    /// Whether `word` is in the set.
    pub fn contains(&self, word: &str) -> (found: bool)
        ensures
            found == self@.contains(word@),
    {
        self.words.contains(word)
    }

    /// Puts `word` into the set, and says whether it was new to it.
    pub fn insert(&mut self, word: String) -> (fresh: bool)
        requires
            old(self).wf(),
        ensures
            final(self).wf(),
            final(self)@ == old(self)@.insert(word@),
            fresh == !old(self)@.contains(word@),
            final(self)@.len() == old(self)@.len() + if fresh { 1nat } else { 0nat },
    {
        self.words.insert(word)
    }

    /// Puts every word of `words` into the set.
    pub fn extend(&mut self, words: &Vec<String>)
        requires
            old(self).wf(),
        ensures
            final(self).wf(),
            final(self)@ == old(self)@.union(views(words@).to_set()),
    {
        let ghost before = self@;
        let mut i: usize = 0;
        while i < words.len()
            invariant
                i <= words.len(),
                self.wf(),
                self@ == before.union(views(words@).take(i as int).to_set()),
            decreases words.len() - i,
        {
            let word = words[i].clone();
            proof {
                let views = views(words@);
                assert(views.take(i as int + 1) =~= views.take(i as int).push(views[i as int]));
                views.take(i as int).lemma_push_to_set_commute(word@);
                assert(before.union(views.take(i as int).to_set()).insert(word@) =~= before.union(
                    views.take(i as int).to_set().insert(word@),
                ));
            }
            self.insert(word);
            i += 1;
        }
        proof {
            assert(views(words@).take(words.len() as int) =~= views(words@));
        }
    }
}

/// The number of distinct words among `words`.
pub fn count_unique(words: &Vec<String>) -> (unique: usize)
    ensures
        unique == views(words@).to_set().len(),
        unique <= words.len(),
{
    let mut seen = WordSet::new();
    seen.extend(words);
    proof {
        assert(seen@ =~= views(words@).to_set());
        views(words@).lemma_cardinality_of_set();
    }
    seen.len()
}

} // verus!
