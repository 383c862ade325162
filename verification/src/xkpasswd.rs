//! Putting a passphrase together.
//!
//! The words are joined by the separator, the paddings are set before and
//! behind them, and last of all the passphrase is brought to the length that
//! an adaptive padding asks for.

use std::collections::HashMap;
use vstd::prelude::*;

use crate::dict::{collect_pool, dict_texts, load_dict, parsed_dict, pooled};
use crate::padding::{is_digit_block, is_symbol_block, lemma_symbol_block};
use crate::policy::{PaddingResult, PaddingStrategy, Randomizer, SettingsView};
use crate::randomizer::{is_padding_decision, is_word_list, string_texts, texts};
use crate::settings::Settings;

verus! {

/// The words in one text, with the separator between each two of them.
pub open spec fn joined(words: Seq<Seq<char>>, separator: Seq<char>) -> Seq<char>
    decreases words.len(),
{
    if words.len() == 0 {
        Seq::empty()
    } else if words.len() == 1 {
        words[0]
    } else {
        joined(words.drop_last(), separator) + separator + words.last()
    }
}

/// A passphrase after what `decision` asks for was done to it. A cut to
/// more characters than there are leaves it as it is.
pub open spec fn padded(passphrase: Seq<char>, decision: PaddingResult) -> Seq<char> {
    match decision {
        PaddingResult::Unchanged => passphrase,
        PaddingResult::Pad(symbols) => passphrase + symbols@,
        PaddingResult::TrimTo(length) => if length <= passphrase.len() {
            passphrase.take(length as int)
        } else {
            passphrase
        },
    }
}

/// Whether `result` can be what the padding strategy of `policy` makes of
/// `passphrase`.
pub open spec fn is_adjusted(
    result: Seq<char>,
    passphrase: Seq<char>,
    policy: SettingsView,
) -> bool {
    exists|decision: PaddingResult| #[trigger]
        is_padding_decision(decision, policy, passphrase.len()) && result == padded(
            passphrase,
            decision,
        )
}

/// The parts that a passphrase is put together from.
pub struct Parts {
    /// The words as they were rendered.
    pub words: Seq<Seq<char>>,
    /// What stands between two words.
    pub separator: Seq<char>,
    /// The symbols before the words.
    pub prefix_symbols: Seq<char>,
    /// The digits before the words, behind the symbols.
    pub prefix_digits: Seq<char>,
    /// The digits behind the words.
    pub suffix_digits: Seq<char>,
    /// The symbols behind the words, behind the digits.
    pub suffix_symbols: Seq<char>,
}

impl Parts {
    /// Whether the parts can have been drawn for `policy` out of `pool`.
    pub open spec fn fits(self, policy: SettingsView, pool: Seq<Seq<char>>) -> bool {
        &&& is_word_list(self.words, pool, policy)
        &&& is_symbol_block(self.separator, policy.separators, 1)
        &&& is_symbol_block(
            self.prefix_symbols,
            policy.padding_symbols,
            policy.padding_symbol_lengths.0 as nat,
        )
        &&& is_digit_block(self.prefix_digits, policy.padding_digits.0)
        &&& is_digit_block(self.suffix_digits, policy.padding_digits.1)
        &&& is_symbol_block(
            self.suffix_symbols,
            policy.padding_symbols,
            policy.padding_symbol_lengths.1 as nat,
        )
    }

    /// The parts in one text.
    pub open spec fn assembled(self) -> Seq<char> {
        self.prefix_symbols + self.prefix_digits + joined(self.words, self.separator)
            + self.suffix_digits + self.suffix_symbols
    }
}

/// Whether `passphrase` can be made for `policy` out of `pool`.
pub open spec fn is_passphrase(
    passphrase: Seq<char>,
    policy: SettingsView,
    pool: Seq<Seq<char>>,
) -> bool {
    exists|parts: Parts| #[trigger]
        parts.fits(policy, pool) && is_adjusted(passphrase, parts.assembled(), policy)
}

/// What an adaptive padding makes of a passphrase is never longer than its
/// target, and as long as its target where there are symbols to pad with or
/// where the passphrase reached the target by itself.
pub proof fn lemma_adaptive_length(
    result: Seq<char>,
    passphrase: Seq<char>,
    policy: SettingsView,
    target: u8,
)
    requires
        is_adjusted(result, passphrase, policy),
        policy.padding_strategy == PaddingStrategy::Adaptive(target),
    ensures
        result.len() <= target,
        policy.padding_symbols.len() > 0 || passphrase.len() >= target ==> result.len()
            == target,
        passphrase.len() >= target ==> result == passphrase.take(target as int),
{
    let decision = choose|decision: PaddingResult| #[trigger]
        is_padding_decision(decision, policy, passphrase.len()) && result == padded(
            passphrase,
            decision,
        );
    if target > passphrase.len() {
        let symbols = decision->Pad_0;
        lemma_symbol_block(symbols@, policy.padding_symbols, (target - passphrase.len()) as nat);
    }
}

/// A fixed padding leaves a passphrase as it was put together.
pub proof fn lemma_fixed_keeps(result: Seq<char>, passphrase: Seq<char>, policy: SettingsView)
    requires
        is_adjusted(result, passphrase, policy),
        policy.padding_strategy == PaddingStrategy::Fixed,
    ensures
        result == passphrase,
{
}

/// A passphrase under a fixed padding is its parts put together; one under
/// an adaptive padding is never longer than the target, and as long as the
/// target where there are symbols to pad with.
pub proof fn lemma_passphrase(passphrase: Seq<char>, policy: SettingsView, pool: Seq<Seq<char>>)
    requires
        is_passphrase(passphrase, policy, pool),
    ensures
        policy.padding_strategy == PaddingStrategy::Fixed ==> exists|parts: Parts| #[trigger]
            parts.fits(policy, pool) && passphrase == parts.assembled(),
        policy.padding_strategy matches PaddingStrategy::Adaptive(target) ==> passphrase.len()
            <= target && (policy.padding_symbols.len() > 0 ==> passphrase.len() == target),
{
    let parts = choose|parts: Parts| #[trigger]
        parts.fits(policy, pool) && is_adjusted(passphrase, parts.assembled(), policy);
    match policy.padding_strategy {
        PaddingStrategy::Fixed => {
            lemma_fixed_keeps(passphrase, parts.assembled(), policy);
        },
        PaddingStrategy::Adaptive(target) => {
            lemma_adaptive_length(passphrase, parts.assembled(), policy, target);
        },
    }
}

/// Joins the words by the separator.
pub fn join_words(words: &Vec<String>, separator: &str) -> (text: String)
    ensures
        text@ == joined(string_texts(words@), separator@),
{
    let mut text = String::new();
    let mut at: usize = 0;
    while at < words.len()
        invariant
            at <= words.len(),
            text@ == joined(string_texts(words@).take(at as int), separator@),
        decreases words.len() - at,
    {
        let ghost before = string_texts(words@).take(at as int);
        let ghost after = string_texts(words@).take(at + 1);
        if at > 0 {
            text.append(separator);
        }
        text.append(words[at].as_str());
        at = at + 1;
        proof {
            assert(after.drop_last() =~= before);
        }
    }
    assert(string_texts(words@).take(words.len() as int) =~= string_texts(words@));
    text
}

/// Puts the parts of a passphrase together: the prefix, symbols first; the
/// words, joined by the separator; the suffix, digits first.
pub fn assemble(
    words: &Vec<String>,
    separator: &str,
    prefix: &(String, String),
    suffix: &(String, String),
) -> (passphrase: String)
    ensures
        passphrase@ == (Parts {
            words: string_texts(words@),
            separator: separator@,
            prefix_symbols: prefix.0@,
            prefix_digits: prefix.1@,
            suffix_digits: suffix.0@,
            suffix_symbols: suffix.1@,
        }).assembled(),
{
    let mut passphrase = String::new();
    passphrase.append(prefix.0.as_str());
    passphrase.append(prefix.1.as_str());
    passphrase.append(join_words(words, separator).as_str());
    passphrase.append(suffix.0.as_str());
    passphrase.append(suffix.1.as_str());
    passphrase
}

/// Does to a passphrase what `decision` asks for.
pub fn apply_padding(passphrase: String, decision: &PaddingResult) -> (result: String)
    ensures
        result@ == padded(passphrase@, *decision),
{
    match decision {
        PaddingResult::Unchanged => passphrase,
        PaddingResult::Pad(symbols) => passphrase.concat(symbols.as_str()),
        PaddingResult::TrimTo(length) => {
            let kept = *length as usize;
            if kept <= passphrase.as_str().unicode_len() {
                String::from_str(passphrase.as_str().substring_char(0, kept))
            } else {
                passphrase
            }
        },
    }
}

impl Settings {
    /// Brings a passphrase to the length that the padding strategy asks for.
    pub fn adjust_for_padding_strategy(&self, passwd: String) -> (result: String)
        ensures
            is_adjusted(result@, passwd@, self@),
    {
        let decision = self.adjust_padding(passwd.as_str().unicode_len());
        apply_padding(passwd, &decision)
    }
}

/// Makes a passphrase for `settings` out of the words of `pool`.
pub fn gen_passwd(settings: &Settings, pool: &[&str]) -> (passphrase: String)
    ensures
        is_passphrase(passphrase@, settings@, texts(pool@)),
{
    let words = settings.rand_words(pool);
    let separator = settings.rand_separator();
    let prefix = settings.rand_prefix();
    let suffix = settings.rand_suffix();
    let assembled = assemble(&words, separator.as_str(), &prefix, &suffix);
    let ghost parts = Parts {
        words: string_texts(words@),
        separator: separator@,
        prefix_symbols: prefix.0@,
        prefix_digits: prefix.1@,
        suffix_digits: suffix.0@,
        suffix_symbols: suffix.1@,
    };
    assert(parts.fits(settings@, texts(pool@)));
    settings.adjust_for_padding_strategy(assembled)
}

/// A generator of passphrases: the dictionary that it takes its words from.
pub struct Xkpasswd {
    dict: HashMap<u8, Vec<String>>,
}

impl View for Xkpasswd {
    type V = Map<u8, Seq<Seq<char>>>;

    /// The words of the dictionary, by their length.
    closed spec fn view(&self) -> Map<u8, Seq<Seq<char>>> {
        dict_texts(self.dict@)
    }
}

impl Xkpasswd {
    /// A generator with the dictionary that `dict_bytes` give, or nothing
    /// where they give none.
    pub fn new(dict_bytes: &[u8]) -> (generator: Option<Xkpasswd>)
        ensures
            match generator {
                Some(generator) => parsed_dict(dict_bytes@) == Some(generator@),
                None => parsed_dict(dict_bytes@) is None,
            },
    {
        match load_dict(dict_bytes) {
            Some(dict) => Some(Xkpasswd { dict }),
            None => None,
        }
    }

    /// Makes a passphrase for `settings` out of the words of the dictionary
    /// that have one of the lengths that `settings` ask for.
    pub fn gen_pass(&self, settings: &Settings) -> (passphrase: String)
        ensures
            is_passphrase(
                passphrase@,
                settings@,
                pooled(
                    self@,
                    settings@.word_lengths.0 as int,
                    settings@.word_lengths.1 + 1,
                ),
            ),
    {
        let pool = collect_pool(&self.dict, settings.word_lengths());
        gen_passwd(settings, pool.as_slice())
    }
}

} // verus!
