use xkpasswd::policy::{MAX_WORD_LENGTH, MIN_WORD_LENGTH};
use xkpasswd::{
    custom_settings, from_flag, has_flag, Builder, PaddingStrategy, Preset, Settings,
    SettingsError, WordTransform,
};

fn lengths(settings: &Settings) -> (u8, u8) {
    (settings.min_word_length(), settings.max_word_length())
}

#[test]
fn test_error_messages() {
    assert_eq!(
        "only positive integer is allowed for words count",
        SettingsError::InvalidWordsCount.message()
    );
    assert_eq!(
        "min word length must be 4 or higher",
        SettingsError::WordLengthTooShort.message()
    );
    assert_eq!(
        "max word length must be 10 or lower",
        SettingsError::WordLengthTooLong.message()
    );
    assert_eq!("invalid transform", SettingsError::InvalidTransform.message());
    assert_eq!(
        "invalid adaptive padding number",
        SettingsError::InvalidAdaptiveTarget.message()
    );
}

#[test]
fn test_each_error_has_an_input() {
    let settings = Settings::default();
    assert_eq!(
        Err(SettingsError::InvalidWordsCount.message()),
        settings.with_words_count(0)
    );
    assert_eq!(
        Err(SettingsError::WordLengthTooShort.message()),
        settings.with_word_lengths(Some(3), None)
    );
    assert_eq!(
        Err(SettingsError::WordLengthTooLong.message()),
        settings.with_word_lengths(None, Some(11))
    );
    assert_eq!(
        Err(SettingsError::InvalidTransform.message()),
        settings.with_word_transforms(0)
    );
    assert_eq!(
        Err(SettingsError::InvalidAdaptiveTarget.message()),
        settings.with_padding_strategy(PaddingStrategy::Adaptive(0))
    );
}

#[test]
fn test_word_length_bounds() {
    let settings = Settings::default();
    // the short bound is reported first
    assert_eq!(
        Err("min word length must be 4 or higher"),
        settings.with_word_lengths(Some(3), Some(11))
    );
    assert_eq!(
        Err("max word length must be 10 or lower"),
        settings.with_word_lengths(Some(4), Some(11))
    );
    assert_eq!(
        (4, 6),
        lengths(&settings.with_word_lengths(Some(6), Some(4)).unwrap())
    );
    // the bounds themselves are in order
    assert_eq!(
        (MIN_WORD_LENGTH, MAX_WORD_LENGTH),
        lengths(
            &settings
                .with_word_lengths(Some(MAX_WORD_LENGTH), Some(MIN_WORD_LENGTH))
                .unwrap()
        )
    );
    // given in reverse, an invalid pair is still refused, by its smaller side first
    assert_eq!(
        Err("min word length must be 4 or higher"),
        settings.with_word_lengths(Some(11), Some(3))
    );
    assert_eq!(
        Err("max word length must be 10 or lower"),
        settings.with_word_lengths(Some(200), Some(5))
    );
}

#[test]
fn test_word_lengths_keep_the_side_not_given() {
    let settings = Settings::default()
        .with_word_lengths(Some(5), Some(7))
        .unwrap();
    assert_eq!(
        (6, 7),
        lengths(&settings.with_word_lengths(Some(6), None).unwrap())
    );
    assert_eq!(
        (5, 9),
        lengths(&settings.with_word_lengths(None, Some(9)).unwrap())
    );
    assert_eq!(
        (5, 7),
        lengths(&settings.with_word_lengths(None, None).unwrap())
    );
    // a new minimum above the old maximum swaps the two
    assert_eq!(
        (7, 9),
        lengths(&settings.with_word_lengths(Some(9), None).unwrap())
    );
    assert_eq!(
        (4, 5),
        lengths(&settings.with_word_lengths(None, Some(4)).unwrap())
    );
}

#[test]
fn test_padding_digits_merge() {
    let settings = Settings::default().with_padding_digits(Some(1), Some(3));
    assert_eq!(settings, settings.with_padding_digits(None, None));
    assert_eq!(
        (7, 3),
        settings.with_padding_digits(Some(7), None).padding_digits()
    );
    assert_eq!(
        (1, 9),
        settings.with_padding_digits(None, Some(9)).padding_digits()
    );
    assert_eq!(
        (255, 0),
        settings
            .with_padding_digits(Some(255), Some(0))
            .padding_digits()
    );
}

#[test]
fn test_symbol_lengths_make_padding_fixed() {
    let adaptive = Settings::default()
        .with_padding_strategy(PaddingStrategy::Adaptive(24))
        .unwrap();
    assert_eq!(PaddingStrategy::Adaptive(24), adaptive.padding_strategy());
    assert_eq!((0, 0), adaptive.padding_symbol_lengths());

    let fixed = adaptive.with_padding_symbol_lengths(Some(2), None);
    assert_eq!(PaddingStrategy::Fixed, fixed.padding_strategy());
    assert_eq!((2, 0), fixed.padding_symbol_lengths());

    let fixed = adaptive.with_padding_symbol_lengths(None, Some(0));
    assert_eq!(PaddingStrategy::Fixed, fixed.padding_strategy());
    assert_eq!((0, 0), fixed.padding_symbol_lengths());

    // with no length given nothing changes, the strategy neither
    let same = adaptive.with_padding_symbol_lengths(None, None);
    assert_eq!(adaptive, same);
    assert_eq!(PaddingStrategy::Adaptive(24), same.padding_strategy());
}

#[test]
fn test_padding_strategy_clears_symbol_lengths() {
    let settings = Settings::default().with_padding_symbol_lengths(Some(3), Some(4));
    assert_eq!((3, 4), settings.padding_symbol_lengths());

    let fixed = settings
        .with_padding_strategy(PaddingStrategy::Fixed)
        .unwrap();
    assert_eq!((0, 0), fixed.padding_symbol_lengths());
    assert_eq!(PaddingStrategy::Fixed, fixed.padding_strategy());

    let adaptive = settings
        .with_padding_strategy(PaddingStrategy::Adaptive(1))
        .unwrap();
    assert_eq!((0, 0), adaptive.padding_symbol_lengths());
    assert_eq!(PaddingStrategy::Adaptive(1), adaptive.padding_strategy());

    assert!(settings
        .with_padding_strategy(PaddingStrategy::Adaptive(0))
        .is_err());
    // the refused call left the policy alone
    assert_eq!((3, 4), settings.padding_symbol_lengths());
}

#[test]
fn test_altercase_governs_alone() {
    let settings = Settings::default();

    let lower_first = settings
        .with_word_transforms(
            WordTransform::ALTERCASE_LOWER_FIRST | WordTransform::TITLECASE,
        )
        .unwrap();
    assert_eq!(
        WordTransform::ALTERCASE_LOWER_FIRST,
        lower_first.word_transforms()
    );

    let upper_first = settings
        .with_word_transforms(
            WordTransform::ALTERCASE_UPPER_FIRST | WordTransform::LOWERCASE,
        )
        .unwrap();
    assert_eq!(
        WordTransform::ALTERCASE_UPPER_FIRST,
        upper_first.word_transforms()
    );

    // of the two modes the one that starts in lower case wins
    let both = settings
        .with_word_transforms(
            WordTransform::ALTERCASE_UPPER_FIRST | WordTransform::ALTERCASE_LOWER_FIRST,
        )
        .unwrap();
    assert_eq!(WordTransform::ALTERCASE_LOWER_FIRST, both.word_transforms());

    // single transforms are kept as they were given
    let singles = settings
        .with_word_transforms(WordTransform::TITLECASE | WordTransform::INVERSED_TITLECASE)
        .unwrap();
    assert_eq!(
        WordTransform::TITLECASE | WordTransform::INVERSED_TITLECASE,
        singles.word_transforms()
    );

    // bits that stand for no transform do not make a request usable
    assert_eq!(
        Err("invalid transform"),
        settings.with_word_transforms(0b1100_0000)
    );
}

#[test]
fn test_flags() {
    assert_eq!(0b0000_0001, WordTransform::Lowercase.flag());
    assert_eq!(0b0000_0010, WordTransform::Titlecase.flag());
    assert_eq!(0b0000_0100, WordTransform::Uppercase.flag());
    assert_eq!(0b0000_1000, WordTransform::InversedTitlecase.flag());
    assert_eq!(0b0001_0000, WordTransform::AltercaseLowerFirst.flag());
    assert_eq!(0b0010_0000, WordTransform::AltercaseUpperFirst.flag());
    assert_eq!(WordTransform::UPPERCASE, from_flag(WordTransform::Uppercase));

    assert!(has_flag(0b0000_0101, WordTransform::Lowercase));
    assert!(!has_flag(0b0000_0101, WordTransform::Titlecase));
    assert!(has_flag(0b0000_0101, WordTransform::Uppercase));
    assert!(!has_flag(0, WordTransform::Lowercase));
    assert!(has_flag(0xff, WordTransform::AltercaseUpperFirst));

    assert!(WordTransform::Lowercase.is_single());
    assert!(WordTransform::InversedTitlecase.is_single());
    assert!(!WordTransform::AltercaseLowerFirst.is_single());
    assert!(!WordTransform::AltercaseUpperFirst.is_single());
}

#[test]
fn test_presets() {
    let table = [
        (
            Preset::AppleID,
            3,
            (5, 7),
            WordTransform::LOWERCASE | WordTransform::UPPERCASE,
            "-:.,",
            (2, 2),
            "!?@&",
            (1, 1),
            PaddingStrategy::Fixed,
        ),
        (
            Preset::Default,
            3,
            (4, 10),
            WordTransform::LOWERCASE | WordTransform::UPPERCASE,
            ".-_~",
            (0, 2),
            "~@$%^&*-_+=:|~?/.;",
            (0, 2),
            PaddingStrategy::Fixed,
        ),
        (
            Preset::WindowsNtlmV1,
            2,
            (5, 5),
            WordTransform::INVERSED_TITLECASE,
            "-+=.*_|~,",
            (1, 0),
            "!@$%^&*+=:|~?",
            (0, 1),
            PaddingStrategy::Fixed,
        ),
        (
            Preset::SecurityQuestions,
            6,
            (4, 8),
            WordTransform::LOWERCASE,
            " ",
            (0, 0),
            ".!?",
            (0, 1),
            PaddingStrategy::Fixed,
        ),
        (
            Preset::Web16,
            3,
            (4, 4),
            WordTransform::LOWERCASE | WordTransform::UPPERCASE,
            "-+=.*_|~,",
            (0, 0),
            "!@$%^&*+=:|~?",
            (1, 1),
            PaddingStrategy::Fixed,
        ),
        (
            Preset::Web32,
            4,
            (4, 5),
            WordTransform::ALTERCASE_UPPER_FIRST,
            "-+=.*_|~,",
            (2, 2),
            "!@$%^&*+=:|~?",
            (1, 1),
            PaddingStrategy::Fixed,
        ),
        (
            Preset::Wifi,
            6,
            (4, 8),
            WordTransform::LOWERCASE | WordTransform::UPPERCASE,
            "-+=.*_|~,",
            (4, 4),
            "!@$%^&*+=:|~?",
            (0, 0),
            PaddingStrategy::Adaptive(63),
        ),
        (
            Preset::Xkcd,
            4,
            (4, 8),
            WordTransform::LOWERCASE | WordTransform::UPPERCASE,
            "-",
            (0, 0),
            "",
            (0, 0),
            PaddingStrategy::Fixed,
        ),
    ];

    for (preset, count, word_lengths, transforms, separators, digits, symbols, symbol_lengths, strategy) in
        table
    {
        let settings = Settings::from_preset(preset);
        assert_eq!(count, settings.words_count());
        assert_eq!(word_lengths, lengths(&settings));
        assert_eq!(transforms, settings.word_transforms());
        assert_eq!(separators, settings.separators());
        assert_eq!(digits, settings.padding_digits());
        assert_eq!(symbols, settings.padding_symbols());
        assert_eq!(symbol_lengths, settings.padding_symbol_lengths());
        assert_eq!(strategy, settings.padding_strategy());
    }

    assert_eq!(Settings::default(), Settings::from_preset(Preset::Default));
}

#[test]
fn test_builder_leaves_its_policy_alone() {
    let settings = Settings::default();
    let copy = settings.clone();

    let _ = settings.with_words_count(9).unwrap();
    let _ = settings.with_word_lengths(Some(5), Some(6)).unwrap();
    let _ = settings.with_separators("+");
    let _ = settings.with_padding_digits(Some(4), Some(4));
    let _ = settings.with_padding_symbols("=");
    let _ = settings.with_padding_symbol_lengths(Some(4), Some(4));
    let _ = settings
        .with_padding_strategy(PaddingStrategy::Adaptive(9))
        .unwrap();
    let _ = settings
        .with_word_transforms(WordTransform::TITLECASE)
        .unwrap();

    assert_eq!(copy, settings);
}

#[test]
fn test_custom_settings() {
    let settings = custom_settings().unwrap();
    assert_eq!(3, settings.words_count());
    assert_eq!((4, 8), lengths(&settings));
    assert_eq!(
        WordTransform::LOWERCASE | WordTransform::UPPERCASE,
        settings.word_transforms()
    );
    assert_eq!(".", settings.separators());
    assert_eq!((0, 2), settings.padding_digits());
    assert_eq!("!@#$%^&*-_=+:|~?/;", settings.padding_symbols());
    // the strategy was chosen after the symbol lengths, which clears them
    assert_eq!((0, 0), settings.padding_symbol_lengths());
    assert_eq!(PaddingStrategy::Fixed, settings.padding_strategy());
}
