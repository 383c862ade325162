//! The vocabulary of a passphrase policy: its mathematical model, the rules
//! that make a model valid, what each change of a policy yields, and the two
//! traits through which a policy is built and used.

use vstd::prelude::*;

use crate::transform::{effective_transforms, usable_transforms, WordTransform};

verus! {

/// How the finished passphrase is brought to its length.
#[derive(Clone, Copy, Debug, PartialEq, Eq, Hash, Structural)]
pub enum PaddingStrategy {
    /// The passphrase keeps the length it was assembled with.
    Fixed,
    /// The passphrase is padded or cut to this many characters.
    Adaptive(u8),
}

/// What has to be done to an assembled passphrase.
#[derive(Debug, PartialEq, Eq)]
pub enum PaddingResult {
    /// Nothing.
    Unchanged,
    /// These characters are appended.
    Pad(String),
    /// Only this many leading characters are kept.
    TrimTo(u8),
}

impl Clone for PaddingResult {
    fn clone(&self) -> (copy: Self)
        ensures
            copy == *self,
    {
        match self {
            PaddingResult::Unchanged => PaddingResult::Unchanged,
            PaddingResult::Pad(symbols) => PaddingResult::Pad(symbols.clone()),
            PaddingResult::TrimTo(length) => PaddingResult::TrimTo(*length),
        }
    }
}

/// The policies that come ready made.
#[derive(Clone, Copy, Debug, PartialEq, Eq, Hash, Structural)]
pub enum Preset {
    /// Three words between digits and one symbol on each side.
    AppleID,
    /// The policy that a builder starts from.
    Default,
    /// Two words of five characters with a digit before and a symbol behind.
    WindowsNtlmV1,
    /// Six words in lower case with blanks between them, and a mark at the
    /// end.
    SecurityQuestions,
    /// Three short words between two symbols.
    Web16,
    /// Four words in alternating case between digits and symbols.
    Web32,
    /// Six words between digits, padded or cut to 63 characters.
    Wifi,
    /// Four words with dashes between them.
    Xkcd,
}

/// Why a change of a policy was refused.
#[derive(Clone, Copy, Debug, PartialEq, Eq, Hash, Structural)]
pub enum SettingsError {
    /// No words were asked for.
    InvalidWordsCount,
    /// The shorter word length is under the minimum.
    WordLengthTooShort,
    /// The longer word length is over the maximum.
    WordLengthTooLong,
    /// None of the transforms asked for can be used.
    InvalidTransform,
    /// An adaptive padding to no characters was asked for.
    InvalidAdaptiveTarget,
}

impl SettingsError {
    /// The characters of the text with which a builder reports this error.
    pub open spec fn text(self) -> Seq<char> {
        match self {
            SettingsError::InvalidWordsCount => {
                "only positive integer is allowed for words count"@
            },
            SettingsError::WordLengthTooShort => "min word length must be 4 or higher"@,
            SettingsError::WordLengthTooLong => "max word length must be 10 or lower"@,
            SettingsError::InvalidTransform => "invalid transform"@,
            SettingsError::InvalidAdaptiveTarget => "invalid adaptive padding number"@,
        }
    }

    /// The text with which a builder reports this error.
    pub fn message(self) -> (message: &'static str)
        ensures
            message@ == self.text(),
    {
        match self {
            SettingsError::InvalidWordsCount => "only positive integer is allowed for words count",
            SettingsError::WordLengthTooShort => "min word length must be 4 or higher",
            SettingsError::WordLengthTooLong => "max word length must be 10 or lower",
            SettingsError::InvalidTransform => "invalid transform",
            SettingsError::InvalidAdaptiveTarget => "invalid adaptive padding number",
        }
    }
}

/// The shortest word a policy may ask for.
pub const MIN_WORD_LENGTH: u8 = 4;

/// The longest word a policy may ask for.
pub const MAX_WORD_LENGTH: u8 = 10;

/// How many digits, and how many symbols, follow the words by default.
pub const DEFAULT_PADDING_LENGTH: u8 = 2;

/// The separators of the default policy.
pub const DEFAULT_SEPARATORS: &'static str = ".-_~";

/// The padding symbols of the default policy.
pub const DEFAULT_SYMBOLS: &'static str = "~@$%^&*-_+=:|~?/.;";

/// The number of words of the default policy.
pub const DEFAULT_WORDS_COUNT: u8 = 3;

/// The transforms of the default policy: lower case and upper case.
pub const DEFAULT_WORD_TRANSFORMS: u8 = 0b0000_0101;

/// A policy as a mathematical value.
pub struct SettingsView {
    /// How many words the passphrase holds.
    pub words_count: u8,
    /// The shortest and the longest word, both included.
    pub word_lengths: (u8, u8),
    /// The transforms in force.
    pub word_transforms: Set<WordTransform>,
    /// The characters a separator is drawn from.
    pub separators: Seq<char>,
    /// How many digits stand before and after the words.
    pub padding_digits: (u8, u8),
    /// The characters a padding symbol is drawn from.
    pub padding_symbols: Seq<char>,
    /// How many symbols stand before and after the words.
    pub padding_symbol_lengths: (u8, u8),
    /// How the passphrase is brought to its length.
    pub padding_strategy: PaddingStrategy,
}

/// The smaller and the larger of two lengths, in this order.
pub open spec fn ordered(a: u8, b: u8) -> (u8, u8) {
    if a <= b {
        (a, b)
    } else {
        (b, a)
    }
}

impl SettingsView {
    /// The rules that every policy obeys.
    pub open spec fn valid(self) -> bool {
        &&& self.words_count >= 1
        &&& MIN_WORD_LENGTH <= self.word_lengths.0
        &&& self.word_lengths.0 <= self.word_lengths.1
        &&& self.word_lengths.1 <= MAX_WORD_LENGTH
        &&& usable_transforms(self.word_transforms)
        &&& self.padding_strategy != PaddingStrategy::Adaptive(0)
        &&& self.padding_strategy is Adaptive ==> self.padding_symbol_lengths == (0u8, 0u8)
    }

    /// The policy with another number of words.
    pub open spec fn with_words_count(self, words_count: u8) -> Result<Self, SettingsError> {
        if words_count == 0 {
            Err(SettingsError::InvalidWordsCount)
        } else {
            Ok(SettingsView { words_count, ..self })
        }
    }

    /// The policy with other word lengths. A length that is not given stays
    /// as it is, and the two are put in order before they are checked.
    pub open spec fn with_word_lengths(self, min_length: Option<u8>, max_length: Option<u8>) -> Result<
        Self,
        SettingsError,
    > {
        let asked = ordered(
            min_length.unwrap_or(self.word_lengths.0),
            max_length.unwrap_or(self.word_lengths.1),
        );
        if asked.0 < MIN_WORD_LENGTH {
            Err(SettingsError::WordLengthTooShort)
        } else if asked.1 > MAX_WORD_LENGTH {
            Err(SettingsError::WordLengthTooLong)
        } else {
            Ok(SettingsView { word_lengths: asked, ..self })
        }
    }

    /// The policy with other separators.
    pub open spec fn with_separators(self, separators: Seq<char>) -> Self {
        SettingsView { separators, ..self }
    }

    /// The policy with other numbers of padding digits. A number that is not
    /// given stays as it is.
    pub open spec fn with_padding_digits(self, prefix: Option<u8>, suffix: Option<u8>) -> Self {
        SettingsView {
            padding_digits: (
                prefix.unwrap_or(self.padding_digits.0),
                suffix.unwrap_or(self.padding_digits.1),
            ),
            ..self
        }
    }

    /// The policy with other padding symbols.
    pub open spec fn with_padding_symbols(self, symbols: Seq<char>) -> Self {
        SettingsView { padding_symbols: symbols, ..self }
    }

    /// The policy with other numbers of padding symbols. With neither number
    /// given nothing changes; else the padding becomes fixed.
    pub open spec fn with_padding_symbol_lengths(
        self,
        prefix: Option<u8>,
        suffix: Option<u8>,
    ) -> Self {
        if prefix is None && suffix is None {
            self
        } else {
            SettingsView {
                padding_symbol_lengths: (
                    prefix.unwrap_or(self.padding_symbol_lengths.0),
                    suffix.unwrap_or(self.padding_symbol_lengths.1),
                ),
                padding_strategy: PaddingStrategy::Fixed,
                ..self
            }
        }
    }

    /// The policy with another padding strategy, and with no padding symbols
    /// of a set length.
    pub open spec fn with_padding_strategy(self, strategy: PaddingStrategy) -> Result<
        Self,
        SettingsError,
    > {
        if strategy == PaddingStrategy::Adaptive(0) {
            Err(SettingsError::InvalidAdaptiveTarget)
        } else {
            Ok(SettingsView { padding_strategy: strategy, padding_symbol_lengths: (0, 0), ..self })
        }
    }

    /// The policy with other transforms.
    pub open spec fn with_word_transforms(self, requested: Set<WordTransform>) -> Result<
        Self,
        SettingsError,
    > {
        match effective_transforms(requested) {
            Some(word_transforms) => Ok(SettingsView { word_transforms, ..self }),
            None => Err(SettingsError::InvalidTransform),
        }
    }
}

/// The policy that a builder starts from.
pub open spec fn default_policy() -> SettingsView {
    SettingsView {
        words_count: DEFAULT_WORDS_COUNT,
        word_lengths: (MIN_WORD_LENGTH, MAX_WORD_LENGTH),
        word_transforms: set![WordTransform::Lowercase, WordTransform::Uppercase],
        separators: DEFAULT_SEPARATORS@,
        padding_digits: (0, DEFAULT_PADDING_LENGTH),
        padding_symbols: DEFAULT_SYMBOLS@,
        padding_symbol_lengths: (0, DEFAULT_PADDING_LENGTH),
        padding_strategy: PaddingStrategy::Fixed,
    }
}

/// The policy that each preset stands for.
pub open spec fn preset_policy(preset: Preset) -> SettingsView {
    match preset {
        Preset::AppleID => SettingsView {
            words_count: 3,
            word_lengths: (5, 7),
            word_transforms: set![WordTransform::Lowercase, WordTransform::Uppercase],
            separators: "-:.,"@,
            padding_digits: (2, 2),
            padding_symbols: "!?@&"@,
            padding_symbol_lengths: (1, 1),
            padding_strategy: PaddingStrategy::Fixed,
        },
        Preset::Default => default_policy(),
        Preset::WindowsNtlmV1 => SettingsView {
            words_count: 2,
            word_lengths: (5, 5),
            word_transforms: set![WordTransform::InversedTitlecase],
            separators: "-+=.*_|~,"@,
            padding_digits: (1, 0),
            padding_symbols: "!@$%^&*+=:|~?"@,
            padding_symbol_lengths: (0, 1),
            padding_strategy: PaddingStrategy::Fixed,
        },
        Preset::SecurityQuestions => SettingsView {
            words_count: 6,
            word_lengths: (4, 8),
            word_transforms: set![WordTransform::Lowercase],
            separators: " "@,
            padding_digits: (0, 0),
            padding_symbols: ".!?"@,
            padding_symbol_lengths: (0, 1),
            padding_strategy: PaddingStrategy::Fixed,
        },
        Preset::Web16 => SettingsView {
            words_count: 3,
            word_lengths: (4, 4),
            word_transforms: set![WordTransform::Lowercase, WordTransform::Uppercase],
            separators: "-+=.*_|~,"@,
            padding_digits: (0, 0),
            padding_symbols: "!@$%^&*+=:|~?"@,
            padding_symbol_lengths: (1, 1),
            padding_strategy: PaddingStrategy::Fixed,
        },
        Preset::Web32 => SettingsView {
            words_count: 4,
            word_lengths: (4, 5),
            word_transforms: set![WordTransform::AltercaseUpperFirst],
            separators: "-+=.*_|~,"@,
            padding_digits: (2, 2),
            padding_symbols: "!@$%^&*+=:|~?"@,
            padding_symbol_lengths: (1, 1),
            padding_strategy: PaddingStrategy::Fixed,
        },
        Preset::Wifi => SettingsView {
            words_count: 6,
            word_lengths: (4, 8),
            word_transforms: set![WordTransform::Lowercase, WordTransform::Uppercase],
            separators: "-+=.*_|~,"@,
            padding_digits: (4, 4),
            padding_symbols: "!@$%^&*+=:|~?"@,
            padding_symbol_lengths: (0, 0),
            padding_strategy: PaddingStrategy::Adaptive(63),
        },
        Preset::Xkcd => SettingsView {
            words_count: 4,
            word_lengths: (4, 8),
            word_transforms: set![WordTransform::Lowercase, WordTransform::Uppercase],
            separators: "-"@,
            padding_digits: (0, 0),
            padding_symbols: ""@,
            padding_symbol_lengths: (0, 0),
            padding_strategy: PaddingStrategy::Fixed,
        },
    }
}

/// The default policy and the policy of every preset obey the rules.
pub proof fn lemma_presets_valid(preset: Preset)
    ensures
        default_policy().valid(),
        preset_policy(preset).valid(),
{
    let lower_upper = set![WordTransform::Lowercase, WordTransform::Uppercase];
    assert(lower_upper.contains(WordTransform::Lowercase));
    assert(set![WordTransform::InversedTitlecase].contains(WordTransform::InversedTitlecase));
}

/// A valid policy stays valid under every change that is not refused.
pub proof fn lemma_changes_keep_valid(policy: SettingsView)
    requires
        policy.valid(),
    ensures
        forall|words_count: u8| #[trigger]
            policy.with_words_count(words_count) matches Ok(changed) ==> changed.valid(),
        forall|min_length: Option<u8>, max_length: Option<u8>| #[trigger]
            policy.with_word_lengths(min_length, max_length) matches Ok(changed)
                ==> changed.valid(),
        forall|separators: Seq<char>| (#[trigger] policy.with_separators(separators)).valid(),
        forall|prefix: Option<u8>, suffix: Option<u8>|
            (#[trigger] policy.with_padding_digits(prefix, suffix)).valid(),
        forall|symbols: Seq<char>| (#[trigger] policy.with_padding_symbols(symbols)).valid(),
        forall|prefix: Option<u8>, suffix: Option<u8>|
            (#[trigger] policy.with_padding_symbol_lengths(prefix, suffix)).valid(),
        forall|strategy: PaddingStrategy| #[trigger]
            policy.with_padding_strategy(strategy) matches Ok(changed) ==> changed.valid(),
        forall|requested: Set<WordTransform>| #[trigger]
            policy.with_word_transforms(requested) matches Ok(changed) ==> changed.valid(),
{
}

/// Word lengths may be given in either order.
pub proof fn lemma_word_lengths_in_either_order(policy: SettingsView, one: u8, other: u8)
    ensures
        policy.with_word_lengths(Some(one), Some(other)) == policy.with_word_lengths(
            Some(other),
            Some(one),
        ),
{
}

/// To ask for padding symbols of a set length, with at least one of the two
/// lengths given, makes the padding fixed, whatever it was.
pub proof fn lemma_symbol_lengths_fix_padding(
    policy: SettingsView,
    prefix: Option<u8>,
    suffix: Option<u8>,
)
    requires
        prefix is Some || suffix is Some,
    ensures
        policy.with_padding_symbol_lengths(prefix, suffix).padding_strategy
            == PaddingStrategy::Fixed,
{
}

/// To ask for a padding strategy is refused for an adaptive padding to no
/// characters and for nothing else, and clears the lengths of the padding
/// symbols.
pub proof fn lemma_strategy_clears_symbol_lengths(policy: SettingsView, strategy: PaddingStrategy)
    ensures
        policy.with_padding_strategy(strategy) is Err <==> strategy
            == PaddingStrategy::Adaptive(0),
        policy.with_padding_strategy(strategy) matches Ok(changed)
            ==> changed.padding_symbol_lengths == (0u8, 0u8) && changed.padding_strategy
            == strategy,
{
}

/// No two errors are reported with the same text.
pub proof fn lemma_error_texts_differ(one: SettingsError, other: SettingsError)
    requires
        one != other,
    ensures
        one.text() != other.text(),
{
    reveal_strlit("only positive integer is allowed for words count");
    reveal_strlit("min word length must be 4 or higher");
    reveal_strlit("max word length must be 10 or lower");
    reveal_strlit("invalid transform");
    reveal_strlit("invalid adaptive padding number");
    if one.text() == other.text() {
        assert(one.text().len() == other.text().len());
        assert(one.text()[1] == other.text()[1]);
    }
}

/// Makes a policy out of another one, change by change. No call alters the
/// policy it is made on; a call that refuses what it is given says why.
pub trait Builder: Sized {
    /// The policy with another number of words.
    fn with_words_count(&self, words_count: u8) -> Result<Self, &'static str>;

    /// The policy with other word lengths; a length that is not given stays.
    fn with_word_lengths(&self, min_length: Option<u8>, max_length: Option<u8>) -> Result<
        Self,
        &'static str,
    >;

    /// The policy with other separators.
    fn with_separators(&self, separators: &str) -> Self;

    /// The policy with other numbers of padding digits; a number that is
    /// not given stays.
    fn with_padding_digits(&self, prefix: Option<u8>, suffix: Option<u8>) -> Self;

    /// The policy with other padding symbols.
    fn with_padding_symbols(&self, symbols: &str) -> Self;

    /// The policy with other numbers of padding symbols; a number that is
    /// not given stays.
    fn with_padding_symbol_lengths(&self, prefix: Option<u8>, suffix: Option<u8>) -> Self;

    /// The policy with another padding strategy.
    fn with_padding_strategy(&self, strategy: PaddingStrategy) -> Result<Self, &'static str>;

    /// The policy with other transforms, given as flags.
    fn with_word_transforms(&self, transforms: u8) -> Result<Self, &'static str>;

    /// The policy of a preset.
    fn from_preset(preset: Preset) -> Self;
}

/// Draws the random parts of a passphrase as a policy asks for them.
pub trait Randomizer {
    /// The lengths of the words to draw from.
    fn word_lengths(&self) -> core::ops::Range<u8>;

    /// The words, chosen out of `pool` and cased.
    fn rand_words(&self, pool: &[&str]) -> Vec<String>;

    /// What stands between two words.
    fn rand_separator(&self) -> String;

    /// What stands before the words: symbols, then digits.
    fn rand_prefix(&self) -> (String, String);

    /// What stands behind the words: digits, then symbols.
    fn rand_suffix(&self) -> (String, String);

    /// What has to be done to a passphrase of `pass_length` characters to
    /// bring it to its length.
    fn adjust_padding(&self, pass_length: usize) -> PaddingResult;
}

} // verus!
