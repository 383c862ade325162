//! What a policy draws: the words, their transforms, the separator and the
//! paddings.
//!
//! None of these results is a function of the policy: two calls may differ.
//! Each contract states what holds of every result that can come back.

use vstd::prelude::*;

use crate::casing::{rendered, transform_word};
use crate::padding::{is_digit_block, is_symbol_block, rand_chars, rand_digits};
use crate::policy::{PaddingResult, PaddingStrategy, Randomizer, SettingsView};
use crate::random::uniform_index;
use crate::sampling::{is_selection, rand_indices};
use crate::settings::Settings;
use crate::transform::{flag_set, has_flag, FieldSize, WordTransform};

verus! {

/// The items of `pool` at `picks`, in the order of the picks.
pub open spec fn chosen<A>(pool: Seq<A>, picks: Seq<usize>) -> Seq<A> {
    Seq::new(picks.len(), |at: int| pool[picks[at] as int])
}

/// Whether `items` can be what is chosen for `count` words out of `pool`.
pub open spec fn is_choice<A>(items: Seq<A>, pool: Seq<A>, count: nat) -> bool {
    exists|picks: Seq<usize>|
        is_selection(picks, pool.len(), count) && items == #[trigger] chosen(pool, picks)
}

/// The transform of the word at `at` where words alternate between `even`
/// and `odd`.
pub open spec fn alternating(even: WordTransform, odd: WordTransform, at: int) -> WordTransform {
    if at % 2 == 0 {
        even
    } else {
        odd
    }
}

/// The transforms of single words among `transforms`, in the order in which
/// they are drawn from.
pub open spec fn enabled_singles(transforms: Set<WordTransform>) -> Seq<WordTransform> {
    let lower = if transforms.contains(WordTransform::Lowercase) {
        seq![WordTransform::Lowercase]
    } else {
        seq![]
    };
    let title = if transforms.contains(WordTransform::Titlecase) {
        seq![WordTransform::Titlecase]
    } else {
        seq![]
    };
    let upper = if transforms.contains(WordTransform::Uppercase) {
        seq![WordTransform::Uppercase]
    } else {
        seq![]
    };
    let inversed = if transforms.contains(WordTransform::InversedTitlecase) {
        seq![WordTransform::InversedTitlecase]
    } else {
        seq![]
    };
    lower + title + upper + inversed
}

/// Whether `list` can be the transforms of the words of a passphrase: one
/// for each word; under an altercase mode lower and upper case in turn;
/// else, for each word, one of the transforms of the policy.
pub open spec fn is_transform_list(list: Seq<WordTransform>, policy: SettingsView) -> bool {
    &&& list.len() == policy.words_count
    &&& forall|at: int|
        0 <= at < list.len() ==> {
            let transform = #[trigger] list[at];
            if policy.word_transforms.contains(WordTransform::AltercaseLowerFirst) {
                transform == alternating(WordTransform::Lowercase, WordTransform::Uppercase, at)
            } else if policy.word_transforms.contains(WordTransform::AltercaseUpperFirst) {
                transform == alternating(WordTransform::Uppercase, WordTransform::Lowercase, at)
            } else {
                transform.is_single() && policy.word_transforms.contains(transform)
            }
        }
}

/// Whether `words` can be the words of a passphrase: words chosen out of
/// `pool`, each rendered by its transform.
pub open spec fn is_word_list(words: Seq<Seq<char>>, pool: Seq<Seq<char>>, policy: SettingsView) -> bool {
    exists|picks: Seq<usize>, transforms: Seq<WordTransform>| #[trigger]
        renders(words, pool, picks, transforms) && is_selection(
            picks,
            pool.len(),
            policy.words_count as nat,
        ) && is_transform_list(transforms, policy)
}

/// Whether `words` are the words of `pool` at `picks`, each rendered by the
/// transform at its place.
pub open spec fn renders(
    words: Seq<Seq<char>>,
    pool: Seq<Seq<char>>,
    picks: Seq<usize>,
    transforms: Seq<WordTransform>,
) -> bool {
    &&& words.len() == picks.len()
    &&& words.len() <= transforms.len()
    &&& forall|at: int|
        0 <= at < words.len() ==> #[trigger] words[at] == rendered(
            pool[picks[at] as int],
            transforms[at],
        )
}

/// The texts of a list of words.
pub open spec fn texts(words: Seq<&str>) -> Seq<Seq<char>> {
    Seq::new(words.len(), |at: int| words[at]@)
}

/// The texts of a list of strings.
pub open spec fn string_texts(words: Seq<String>) -> Seq<Seq<char>> {
    Seq::new(words.len(), |at: int| words[at]@)
}

/// Whether `result` is what has to be done to a passphrase of `pass_length`
/// characters: nothing under a fixed padding; under an adaptive one, symbols
/// for each character that it is short of the target, else a cut to the
/// target.
pub open spec fn is_padding_decision(
    result: PaddingResult,
    policy: SettingsView,
    pass_length: nat,
) -> bool {
    match policy.padding_strategy {
        PaddingStrategy::Fixed => result == PaddingResult::Unchanged,
        PaddingStrategy::Adaptive(target) => if target > pass_length {
            result matches PaddingResult::Pad(symbols) && is_symbol_block(
                symbols@,
                policy.padding_symbols,
                (target - pass_length) as nat,
            )
        } else {
            result == PaddingResult::TrimTo(target)
        },
    }
}

/// Under an altercase mode the transforms are the same at every call.
pub proof fn lemma_altercase_is_fixed(
    first: Seq<WordTransform>,
    second: Seq<WordTransform>,
    policy: SettingsView,
)
    requires
        is_transform_list(first, policy),
        is_transform_list(second, policy),
        policy.word_transforms.contains(WordTransform::AltercaseLowerFirst)
            || policy.word_transforms.contains(WordTransform::AltercaseUpperFirst),
    ensures
        first == second,
{
    assert forall|at: int| 0 <= at < first.len() implies first[at] == second[at] by {
        let one = first[at];
        let other = second[at];
    }
    assert(first =~= second);
}

/// As many words are chosen as the policy asks for, unless the pool is
/// empty; and no word of the pool is chosen twice where the pool holds
/// enough words.
pub proof fn lemma_choice<A>(items: Seq<A>, pool: Seq<A>, count: nat)
    requires
        is_choice(items, pool, count),
    ensures
        items.len() == if pool.len() == 0 {
            0
        } else {
            count
        },
        forall|at: int| 0 <= at < items.len() ==> pool.contains(#[trigger] items[at]),
        pool.len() >= count ==> exists|picks: Seq<usize>|
            picks.no_duplicates() && items == #[trigger] chosen(pool, picks),
{
    let picks = choose|picks: Seq<usize>|
        is_selection(picks, pool.len(), count) && items == #[trigger] chosen(pool, picks);
    assert forall|at: int| 0 <= at < items.len() implies pool.contains(#[trigger] items[at]) by {
        assert(items[at] == pool[picks[at] as int]);
    }
}

/// Whether `word` is a word of `pool` as some transform renders it.
pub open spec fn comes_from(word: Seq<char>, pool: Seq<Seq<char>>) -> bool {
    exists|index: int, transform: WordTransform|
        0 <= index < pool.len() && #[trigger] rendered(pool[index], transform) == word
}

/// A passphrase holds as many words as the policy asks for, unless the pool
/// is empty, and each of them is a word of the pool as one transform
/// renders it.
pub proof fn lemma_word_list(words: Seq<Seq<char>>, pool: Seq<Seq<char>>, policy: SettingsView)
    requires
        is_word_list(words, pool, policy),
    ensures
        words.len() == if pool.len() == 0 {
            0
        } else {
            policy.words_count as nat
        },
        forall|at: int| 0 <= at < words.len() ==> comes_from(#[trigger] words[at], pool),
{
    let (picks, transforms) = choose|picks: Seq<usize>, transforms: Seq<WordTransform>| #[trigger]
        renders(words, pool, picks, transforms) && is_selection(
            picks,
            pool.len(),
            policy.words_count as nat,
        ) && is_transform_list(transforms, policy);
    assert forall|at: int| 0 <= at < words.len() implies comes_from(#[trigger] words[at], pool) by {
        assert(rendered(pool[picks[at] as int], transforms[at]) == words[at]);
    }
}

/// The transforms of single words that are set in `flags`.
pub fn enabled_single_transforms(flags: FieldSize) -> (list: Vec<WordTransform>)
    ensures
        list@ == enabled_singles(flag_set(flags)),
{
    let mut list: Vec<WordTransform> = Vec::new();
    if has_flag(flags, WordTransform::Lowercase) {
        list.push(WordTransform::Lowercase);
    }
    if has_flag(flags, WordTransform::Titlecase) {
        list.push(WordTransform::Titlecase);
    }
    if has_flag(flags, WordTransform::Uppercase) {
        list.push(WordTransform::Uppercase);
    }
    if has_flag(flags, WordTransform::InversedTitlecase) {
        list.push(WordTransform::InversedTitlecase);
    }
    list
}

/// `count` transforms that alternate between `even` and `odd`.
pub fn alternate(count: u8, even: WordTransform, odd: WordTransform) -> (list: Vec<WordTransform>)
    ensures
        list@ == Seq::new(count as nat, |at: int| alternating(even, odd, at)),
{
    let mut list: Vec<WordTransform> = Vec::new();
    let mut at: u8 = 0;
    while at < count
        invariant
            at <= count,
            list@ == Seq::new(at as nat, |at: int| alternating(even, odd, at)),
        decreases count - at,
    {
        if at % 2 == 0 {
            list.push(even);
        } else {
            list.push(odd);
        }
        at = at + 1;
    }
    list
}

/// The words of `pool` at `picks`, in the order of the picks.
pub fn words_at<'a>(pool: &[&'a str], picks: &Vec<usize>) -> (list: Vec<&'a str>)
    requires
        forall|at: int| 0 <= at < picks.len() ==> picks[at] < pool.len(),
    ensures
        list@ == chosen(pool@, picks@),
{
    let mut list: Vec<&'a str> = Vec::new();
    let mut at: usize = 0;
    while at < picks.len()
        invariant
            at <= picks.len(),
            forall|at: int| 0 <= at < picks.len() ==> picks[at] < pool.len(),
            list@ == Seq::new(at as nat, |at: int| pool@[picks@[at] as int]),
        decreases picks.len() - at,
    {
        list.push(pool[picks[at]]);
        at = at + 1;
    }
    list
}

impl Settings {
    /// Chooses the words of a passphrase out of `pool`.
    pub fn build_words_list<'a>(&self, pool: &[&'a str]) -> (list: Vec<&'a str>)
        ensures
            is_choice(list@, pool@, self@.words_count as nat),
    {
        let picks = rand_indices(pool.len(), self.words_count());
        words_at(pool, &picks)
    }

    /// Chooses the transform of each word of a passphrase.
    pub fn build_transforms_list(&self) -> (list: Vec<WordTransform>)
        ensures
            is_transform_list(list@, self@),
    {
        proof {
            use_type_invariant(self);
        }
        let flags = self.word_transforms();
        let count = self.words_count();
        if has_flag(flags, WordTransform::AltercaseLowerFirst) {
            return alternate(count, WordTransform::Lowercase, WordTransform::Uppercase);
        }
        if has_flag(flags, WordTransform::AltercaseUpperFirst) {
            return alternate(count, WordTransform::Uppercase, WordTransform::Lowercase);
        }
        let whitelisted = enabled_single_transforms(flags);
        proof {
            assert(set![WordTransform::AltercaseLowerFirst].contains(
                WordTransform::AltercaseLowerFirst,
            ));
            assert(set![WordTransform::AltercaseUpperFirst].contains(
                WordTransform::AltercaseUpperFirst,
            ));
        }
        let mut list: Vec<WordTransform> = Vec::new();
        while list.len() < count as usize
            invariant
                list.len() <= count,
                whitelisted@.len() > 0,
                whitelisted@ == enabled_singles(self@.word_transforms),
                forall|at: int|
                    0 <= at < list.len() ==> (#[trigger] list[at]).is_single()
                        && self@.word_transforms.contains(list[at]),
            decreases count - list.len(),
        {
            let index = uniform_index(whitelisted.len());
            list.push(whitelisted[index]);
        }
        list
    }
}

impl Randomizer for Settings {
    /// The lengths of the words that the policy asks for.
    fn word_lengths(&self) -> (lengths: core::ops::Range<u8>)
        ensures
            lengths.start == self@.word_lengths.0,
            lengths.end == self@.word_lengths.1 + 1,
    {
        proof {
            use_type_invariant(self);
        }
        self.min_word_length()..(self.max_word_length() + 1)
    }

    /// The words of a passphrase: chosen out of `pool`, each rendered by its
    /// transform.
    fn rand_words(&self, pool: &[&str]) -> (words: Vec<String>)
        ensures
            is_word_list(string_texts(words@), texts(pool@), self@),
    {
        let words_list = self.build_words_list(pool);
        let transforms_list = self.build_transforms_list();
        let ghost picks = choose|picks: Seq<usize>|
            is_selection(picks, pool@.len(), self@.words_count as nat) && words_list@
                == #[trigger] chosen(pool@, picks);

        let mut words: Vec<String> = Vec::new();
        let mut at: usize = 0;
        while at < words_list.len() && at < transforms_list.len()
            invariant
                at <= words_list.len(),
                at <= transforms_list.len(),
                words.len() == at,
                words_list@ == chosen(pool@, picks),
                forall|i: int|
                    0 <= i < at ==> (#[trigger] words[i])@ == rendered(
                        words_list[i]@,
                        transforms_list[i],
                    ),
            decreases words_list.len() - at,
        {
            words.push(transform_word(words_list[at], transforms_list[at]));
            at = at + 1;
        }
        proof {
            assert(renders(string_texts(words@), texts(pool@), picks, transforms_list@)) by {
                assert forall|i: int| 0 <= i < words.len() implies #[trigger] string_texts(
                    words@,
                )[i] == rendered(texts(pool@)[picks[i] as int], transforms_list@[i]) by {
                    assert(words_list[i] == pool@[picks[i] as int]);
                }
            }
        }
        words
    }

    /// The separator of a passphrase: one character of the separators, or
    /// nothing where there are none.
    fn rand_separator(&self) -> (separator: String)
        ensures
            is_symbol_block(separator@, self@.separators, 1),
    {
        rand_chars(self.separators(), 1)
    }

    /// What stands before the words: the symbols, then the digits.
    fn rand_prefix(&self) -> (prefix: (String, String))
        ensures
            is_symbol_block(
                prefix.0@,
                self@.padding_symbols,
                self@.padding_symbol_lengths.0 as nat,
            ),
            is_digit_block(prefix.1@, self@.padding_digits.0),
    {
        let (prefix_digits, _) = self.padding_digits();
        let (prefix_symbols, _) = self.padding_symbol_lengths();
        (rand_chars(self.padding_symbols(), prefix_symbols), rand_digits(prefix_digits))
    }

    /// What stands behind the words: the digits, then the symbols.
    fn rand_suffix(&self) -> (suffix: (String, String))
        ensures
            is_digit_block(suffix.0@, self@.padding_digits.1),
            is_symbol_block(
                suffix.1@,
                self@.padding_symbols,
                self@.padding_symbol_lengths.1 as nat,
            ),
    {
        let (_, suffix_digits) = self.padding_digits();
        let (_, suffix_symbols) = self.padding_symbol_lengths();
        (rand_digits(suffix_digits), rand_chars(self.padding_symbols(), suffix_symbols))
    }

    /// What has to be done to a passphrase of `pass_length` characters.
    fn adjust_padding(&self, pass_length: usize) -> (result: PaddingResult)
        ensures
            is_padding_decision(result, self@, pass_length as nat),
    {
        match self.padding_strategy() {
            PaddingStrategy::Fixed => PaddingResult::Unchanged,
            PaddingStrategy::Adaptive(length) => {
                if length as usize > pass_length {
                    let padded_symbols = rand_chars(
                        self.padding_symbols(),
                        length - pass_length as u8,
                    );
                    PaddingResult::Pad(padded_symbols)
                } else {
                    PaddingResult::TrimTo(length)
                }
            },
        }
    }
}

} // verus!
