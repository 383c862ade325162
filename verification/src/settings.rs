//! The policy value and its builder.

use vstd::prelude::*;

use crate::policy::{
    default_policy, lemma_presets_valid, preset_policy, Builder, PaddingStrategy, Preset, SettingsError,
    SettingsView, DEFAULT_PADDING_LENGTH, DEFAULT_SEPARATORS, DEFAULT_SYMBOLS,
    DEFAULT_WORDS_COUNT, DEFAULT_WORD_TRANSFORMS, MAX_WORD_LENGTH, MIN_WORD_LENGTH,
};
use crate::transform::{
    flag_set, from_flag, has_flag, lemma_flag_set_of_one, lemma_flag_set_of_union, FieldSize,
    WordTransform,
};

verus! {

/// A passphrase policy. Every value of this type is valid: it can only be
/// made by [`Default`], from a preset, or by a builder call on another one.
#[derive(Debug, PartialEq, Eq)]
pub struct Settings {
    words_count: u8,
    word_lengths: (u8, u8),
    word_transforms: FieldSize,
    separators: String,
    padding_digits: (u8, u8),
    padding_symbols: String,
    padding_symbol_lengths: (u8, u8),
    padding_strategy: PaddingStrategy,
}

impl View for Settings {
    type V = SettingsView;

    closed spec fn view(&self) -> SettingsView {
        SettingsView {
            words_count: self.words_count,
            word_lengths: self.word_lengths,
            word_transforms: flag_set(self.word_transforms),
            separators: self.separators@,
            padding_digits: self.padding_digits,
            padding_symbols: self.padding_symbols@,
            padding_symbol_lengths: self.padding_symbol_lengths,
            padding_strategy: self.padding_strategy,
        }
    }
}

/// Whether a builder answered as the model of the change says: with the
/// changed policy, or with the text of the error.
pub open spec fn answers(
    answer: Result<Settings, &'static str>,
    expected: Result<SettingsView, SettingsError>,
) -> bool {
    match expected {
        Ok(policy) => answer matches Ok(settings) && settings@ == policy,
        Err(error) => answer matches Err(text) && text@ == error.text(),
    }
}

impl Settings {
    /// What holds of every policy.
    #[verifier::type_invariant]
    pub open spec fn inv(&self) -> bool {
        self@.valid()
    }

    /// How many words the passphrase holds.
    pub fn words_count(&self) -> (count: u8)
        ensures
            count == self@.words_count,
    {
        self.words_count
    }

    /// The length of the shortest word.
    pub fn min_word_length(&self) -> (length: u8)
        ensures
            length == self@.word_lengths.0,
    {
        self.word_lengths.0
    }

    /// The length of the longest word.
    pub fn max_word_length(&self) -> (length: u8)
        ensures
            length == self@.word_lengths.1,
    {
        self.word_lengths.1
    }

    /// The flags of the transforms in force.
    pub fn word_transforms(&self) -> (flags: FieldSize)
        ensures
            flag_set(flags) == self@.word_transforms,
    {
        self.word_transforms
    }

    /// The characters a separator is drawn from.
    pub fn separators(&self) -> (chars: &str)
        ensures
            chars@ == self@.separators,
    {
        self.separators.as_str()
    }

    /// How many digits stand before and after the words.
    pub fn padding_digits(&self) -> (counts: (u8, u8))
        ensures
            counts == self@.padding_digits,
    {
        self.padding_digits
    }

    /// The characters a padding symbol is drawn from.
    pub fn padding_symbols(&self) -> (chars: &str)
        ensures
            chars@ == self@.padding_symbols,
    {
        self.padding_symbols.as_str()
    }

    /// How many symbols stand before and after the words.
    pub fn padding_symbol_lengths(&self) -> (counts: (u8, u8))
        ensures
            counts == self@.padding_symbol_lengths,
    {
        self.padding_symbol_lengths
    }

    /// How the passphrase is brought to its length.
    pub fn padding_strategy(&self) -> (strategy: PaddingStrategy)
        ensures
            strategy == self@.padding_strategy,
    {
        self.padding_strategy
    }
}

impl Clone for Settings {
    fn clone(&self) -> (copy: Self)
        ensures
            copy@ == self@,
    {
        proof {
            use_type_invariant(self);
        }
        Settings {
            words_count: self.words_count,
            word_lengths: self.word_lengths,
            word_transforms: self.word_transforms,
            separators: self.separators.clone(),
            padding_digits: self.padding_digits,
            padding_symbols: self.padding_symbols.clone(),
            padding_symbol_lengths: self.padding_symbol_lengths,
            padding_strategy: self.padding_strategy,
        }
    }
}

/// The flags for lower case and upper case together.
fn lower_and_upper() -> (flags: FieldSize)
    ensures
        flags == DEFAULT_WORD_TRANSFORMS,
        flag_set(flags) == set![WordTransform::Lowercase, WordTransform::Uppercase],
{
    let flags: FieldSize = WordTransform::LOWERCASE | WordTransform::UPPERCASE;
    proof {
        assert(0b0000_0001u8 | 0b0000_0100u8 == 0b0000_0101u8) by (bit_vector);
        lemma_flag_set_of_union(WordTransform::LOWERCASE, WordTransform::UPPERCASE);
        lemma_flag_set_of_one(WordTransform::Lowercase);
        lemma_flag_set_of_one(WordTransform::Uppercase);
    }
    flags
}

impl Default for Settings {
    fn default() -> (settings: Self)
        ensures
            settings@ == default_policy(),
    {
        let word_transforms = lower_and_upper();
        proof {
            lemma_presets_valid(Preset::Default);
        }
        Settings {
            words_count: DEFAULT_WORDS_COUNT,
            word_lengths: (MIN_WORD_LENGTH, MAX_WORD_LENGTH),
            word_transforms,
            separators: String::from_str(DEFAULT_SEPARATORS),
            padding_digits: (0, DEFAULT_PADDING_LENGTH),
            padding_symbols: String::from_str(DEFAULT_SYMBOLS),
            padding_symbol_lengths: (0, DEFAULT_PADDING_LENGTH),
            padding_strategy: PaddingStrategy::Fixed,
        }
    }
}

impl Builder for Settings {
    /// Another number of words; refused where it is zero.
    fn with_words_count(&self, words_count: u8) -> (answer: Result<Self, &'static str>)
        ensures
            answers(answer, self@.with_words_count(words_count)),
    {
        if words_count == 0 {
            return Err(SettingsError::InvalidWordsCount.message());
        }
        let mut cloned = self.clone();
        proof {
            use_type_invariant(&cloned);
        }
        cloned.words_count = words_count;
        Ok(cloned)
    }

    /// Other word lengths, in either order; refused where the shorter is
    /// under the minimum, else where the longer is over the maximum.
    fn with_word_lengths(&self, min_length: Option<u8>, max_length: Option<u8>) -> (answer: Result<
        Settings,
        &'static str,
    >)
        ensures
            answers(answer, self@.with_word_lengths(min_length, max_length)),
    {
        let min_length = match min_length {
            Some(length) => length,
            None => self.word_lengths.0,
        };
        let max_length = match max_length {
            Some(length) => length,
            None => self.word_lengths.1,
        };
        let (min, max) = if min_length <= max_length {
            (min_length, max_length)
        } else {
            (max_length, min_length)
        };

        if min < MIN_WORD_LENGTH {
            return Err(SettingsError::WordLengthTooShort.message());
        }
        if max > MAX_WORD_LENGTH {
            return Err(SettingsError::WordLengthTooLong.message());
        }
        let mut cloned = self.clone();
        proof {
            use_type_invariant(&cloned);
        }
        cloned.word_lengths = (min, max);
        Ok(cloned)
    }

    /// Other separators, taken as they are.
    fn with_separators(&self, separators: &str) -> (settings: Self)
        ensures
            settings@ == self@.with_separators(separators@),
    {
        let mut cloned = self.clone();
        proof {
            use_type_invariant(&cloned);
        }
        cloned.separators = String::from_str(separators);
        cloned
    }

    /// Other numbers of padding digits; a number that is not given stays.
    fn with_padding_digits(&self, prefix: Option<u8>, suffix: Option<u8>) -> (settings: Self)
        ensures
            settings@ == self@.with_padding_digits(prefix, suffix),
    {
        if prefix.is_none() && suffix.is_none() {
            return self.clone();
        }
        let mut cloned = self.clone();
        proof {
            use_type_invariant(&cloned);
        }
        cloned.padding_digits = (
            match prefix {
                Some(count) => count,
                None => self.padding_digits.0,
            },
            match suffix {
                Some(count) => count,
                None => self.padding_digits.1,
            },
        );
        cloned
    }

    /// Other padding symbols, taken as they are.
    fn with_padding_symbols(&self, symbols: &str) -> (settings: Self)
        ensures
            settings@ == self@.with_padding_symbols(symbols@),
    {
        let mut cloned = self.clone();
        proof {
            use_type_invariant(&cloned);
        }
        cloned.padding_symbols = String::from_str(symbols);
        cloned
    }

    /// Other numbers of padding symbols, which makes the padding fixed. With
    /// neither number given the policy stays as it is.
    fn with_padding_symbol_lengths(&self, prefix: Option<u8>, suffix: Option<u8>) -> (settings:
        Self)
        ensures
            settings@ == self@.with_padding_symbol_lengths(prefix, suffix),
    {
        if prefix.is_none() && suffix.is_none() {
            return self.clone();
        }
        let lengths = (
            match prefix {
                Some(count) => count,
                None => self.padding_symbol_lengths.0,
            },
            match suffix {
                Some(count) => count,
                None => self.padding_symbol_lengths.1,
            },
        );
        proof {
            use_type_invariant(self);
        }
        Settings {
            words_count: self.words_count,
            word_lengths: self.word_lengths,
            word_transforms: self.word_transforms,
            separators: self.separators.clone(),
            padding_digits: self.padding_digits,
            padding_symbols: self.padding_symbols.clone(),
            padding_symbol_lengths: lengths,
            padding_strategy: PaddingStrategy::Fixed,
        }
    }

    /// Another padding strategy, which clears the numbers of padding
    /// symbols; refused where it is adaptive to no characters.
    fn with_padding_strategy(&self, strategy: PaddingStrategy) -> (answer: Result<
        Settings,
        &'static str,
    >)
        ensures
            answers(answer, self@.with_padding_strategy(strategy)),
    {
        match strategy {
            PaddingStrategy::Adaptive(0) => Err(SettingsError::InvalidAdaptiveTarget.message()),
            _ => {
                proof {
                    use_type_invariant(self);
                }
                Ok(
                    Settings {
                        words_count: self.words_count,
                        word_lengths: self.word_lengths,
                        word_transforms: self.word_transforms,
                        separators: self.separators.clone(),
                        padding_digits: self.padding_digits,
                        padding_symbols: self.padding_symbols.clone(),
                        padding_symbol_lengths: (0, 0),
                        padding_strategy: strategy,
                    },
                )
            },
        }
    }

    /// Other transforms. An altercase mode among them governs alone; else
    /// they govern as given; refused where no transform is among them.
    fn with_word_transforms(&self, transforms: FieldSize) -> (answer: Result<Self, &'static str>)
        ensures
            answers(answer, self@.with_word_transforms(flag_set(transforms))),
    {
        let mut cloned = self.clone();
        proof {
            use_type_invariant(&cloned);
        }

        if has_flag(transforms, WordTransform::AltercaseLowerFirst) {
            cloned.word_transforms = from_flag(WordTransform::AltercaseLowerFirst);
            return Ok(cloned);
        }
        if has_flag(transforms, WordTransform::AltercaseUpperFirst) {
            cloned.word_transforms = from_flag(WordTransform::AltercaseUpperFirst);
            return Ok(cloned);
        }
        if !has_flag(transforms, WordTransform::Lowercase) && !has_flag(
            transforms,
            WordTransform::Titlecase,
        ) && !has_flag(transforms, WordTransform::Uppercase) && !has_flag(
            transforms,
            WordTransform::InversedTitlecase,
        ) {
            proof {
                assert forall|transform: WordTransform|
                    !(#[trigger] flag_set(transforms).contains(transform)) by {
                    match transform {
                        WordTransform::Lowercase => {},
                        WordTransform::Titlecase => {},
                        WordTransform::Uppercase => {},
                        WordTransform::InversedTitlecase => {},
                        WordTransform::AltercaseLowerFirst => {},
                        WordTransform::AltercaseUpperFirst => {},
                    }
                }
            }
            return Err(SettingsError::InvalidTransform.message());
        }
        proof {
            let witness = if has_flag(transforms, WordTransform::Lowercase) {
                WordTransform::Lowercase
            } else if has_flag(transforms, WordTransform::Titlecase) {
                WordTransform::Titlecase
            } else if has_flag(transforms, WordTransform::Uppercase) {
                WordTransform::Uppercase
            } else {
                WordTransform::InversedTitlecase
            };
            assert(flag_set(transforms).contains(witness));
        }
        cloned.word_transforms = transforms;
        Ok(cloned)
    }

    /// The policy of a preset.
    fn from_preset(preset: Preset) -> (settings: Self)
        ensures
            settings@ == preset_policy(preset),
    {
        proof {
            lemma_presets_valid(preset);
        }
        match preset {
            Preset::AppleID => {
                let word_transforms = lower_and_upper();
                Settings {
                    words_count: 3,
                    word_lengths: (5, 7),
                    word_transforms,
                    separators: String::from_str("-:.,"),
                    padding_digits: (2, 2),
                    padding_symbols: String::from_str("!?@&"),
                    padding_symbol_lengths: (1, 1),
                    padding_strategy: PaddingStrategy::Fixed,
                }
            },
            Preset::WindowsNtlmV1 => {
                let word_transforms = from_flag(WordTransform::InversedTitlecase);
                Settings {
                    words_count: 2,
                    word_lengths: (5, 5),
                    word_transforms,
                    separators: String::from_str("-+=.*_|~,"),
                    padding_digits: (1, 0),
                    padding_symbols: String::from_str("!@$%^&*+=:|~?"),
                    padding_symbol_lengths: (0, 1),
                    padding_strategy: PaddingStrategy::Fixed,
                }
            },
            Preset::SecurityQuestions => {
                let word_transforms = from_flag(WordTransform::Lowercase);
                Settings {
                    words_count: 6,
                    word_lengths: (4, 8),
                    word_transforms,
                    separators: String::from_str(" "),
                    padding_digits: (0, 0),
                    padding_symbols: String::from_str(".!?"),
                    padding_symbol_lengths: (0, 1),
                    padding_strategy: PaddingStrategy::Fixed,
                }
            },
            Preset::Web16 => {
                let word_transforms = lower_and_upper();
                Settings {
                    words_count: 3,
                    word_lengths: (4, 4),
                    word_transforms,
                    separators: String::from_str("-+=.*_|~,"),
                    padding_digits: (0, 0),
                    padding_symbols: String::from_str("!@$%^&*+=:|~?"),
                    padding_symbol_lengths: (1, 1),
                    padding_strategy: PaddingStrategy::Fixed,
                }
            },
            Preset::Web32 => {
                let word_transforms = from_flag(WordTransform::AltercaseUpperFirst);
                Settings {
                    words_count: 4,
                    word_lengths: (4, 5),
                    word_transforms,
                    separators: String::from_str("-+=.*_|~,"),
                    padding_digits: (2, 2),
                    padding_symbols: String::from_str("!@$%^&*+=:|~?"),
                    padding_symbol_lengths: (1, 1),
                    padding_strategy: PaddingStrategy::Fixed,
                }
            },
            Preset::Wifi => {
                let word_transforms = lower_and_upper();
                Settings {
                    words_count: 6,
                    word_lengths: (4, 8),
                    word_transforms,
                    separators: String::from_str("-+=.*_|~,"),
                    padding_digits: (4, 4),
                    padding_symbols: String::from_str("!@$%^&*+=:|~?"),
                    padding_symbol_lengths: (0, 0),
                    padding_strategy: PaddingStrategy::Adaptive(63),
                }
            },
            Preset::Xkcd => {
                let word_transforms = lower_and_upper();
                Settings {
                    words_count: 4,
                    word_lengths: (4, 8),
                    word_transforms,
                    separators: String::from_str("-"),
                    padding_digits: (0, 0),
                    padding_symbols: String::from_str(""),
                    padding_symbol_lengths: (0, 0),
                    padding_strategy: PaddingStrategy::Fixed,
                }
            },
            Preset::Default => Self::default(),
        }
    }
}

/// The policy that [`custom_settings`] builds.
pub open spec fn custom_policy() -> SettingsView {
    SettingsView {
        words_count: 3,
        word_lengths: (4, 8),
        word_transforms: set![WordTransform::Lowercase, WordTransform::Uppercase],
        separators: "."@,
        padding_digits: (0, 2),
        padding_symbols: "!@#$%^&*-_=+:|~?/;"@,
        padding_symbol_lengths: (0, 0),
        padding_strategy: PaddingStrategy::Fixed,
    }
}

/// A policy built change by change from the default one: three words of
/// four to eight characters in lower or upper case, joined by a dot and
/// followed by two digits. The padding strategy is chosen last, and choosing
/// it clears the padding symbols that were asked for before.
pub fn custom_settings() -> (answer: Result<Settings, &'static str>)
    ensures
        answers(answer, Ok(custom_policy())),
{
    let transforms = lower_and_upper();
    proof {
        assert(flag_set(transforms).contains(WordTransform::Lowercase));
    }
    let settings = Settings::default()
        .with_words_count(3)?
        .with_word_lengths(Some(4), Some(8))?
        .with_separators(".")
        .with_padding_digits(Some(0), Some(2))
        .with_padding_symbols("!@#$%^&*-_=+:|~?/;")
        .with_padding_symbol_lengths(Some(0), Some(2))
        .with_padding_strategy(PaddingStrategy::Fixed)?
        .with_word_transforms(transforms)?;
    Ok(settings)
}

} // verus!
