use std::collections::HashMap;

use xkpasswd::dict::{parse_length, parse_line, split_text, strip_return, text_lines};
use xkpasswd::{
    collect_pool, gen_passwd, load_dict, Builder, Preset, Randomizer, Settings, WordTransform,
    Xkpasswd,
};

fn strings(words: &[&str]) -> Vec<String> {
    words.iter().map(|word| word.to_string()).collect()
}

#[test]
fn test_split_text() {
    assert_eq!(strings(&[""]), split_text("", ','));
    assert_eq!(strings(&["abc"]), split_text("abc", ','));
    assert_eq!(strings(&["a", "b", "c"]), split_text("a,b,c", ','));
    assert_eq!(strings(&["", "a", "", "b", ""]), split_text(",a,,b,", ','));
    assert_eq!(strings(&["", ""]), split_text(":", ':'));
    assert_eq!(strings(&["é", "à"]), split_text("é€à", '€'));
    for text in ["", ",", "a,,b", "no delimiter", ",,,"] {
        let expected: Vec<String> = text.split(',').map(|piece| piece.to_string()).collect();
        assert_eq!(expected, split_text(text, ','));
    }
}

#[test]
fn test_strip_return() {
    assert_eq!("", strip_return(""));
    assert_eq!("", strip_return("\r"));
    assert_eq!("abc", strip_return("abc"));
    assert_eq!("abc", strip_return("abc\r"));
    assert_eq!("abc\r", strip_return("abc\r\r"));
    assert_eq!("\rabc", strip_return("\rabc"));
}

#[test]
fn test_text_lines() {
    assert!(text_lines("").is_empty());
    assert_eq!(strings(&["one"]), text_lines("one"));
    assert_eq!(strings(&["one"]), text_lines("one\n"));
    assert_eq!(strings(&["one", "two"]), text_lines("one\ntwo"));
    assert_eq!(strings(&["one", "two"]), text_lines("one\r\ntwo\r\n"));
    assert_eq!(strings(&["one", "", "two"]), text_lines("one\n\ntwo\n"));
    assert_eq!(strings(&[""]), text_lines("\n"));
    assert_eq!(strings(&["", ""]), text_lines("\n\r\n"));
    // a carriage return that no line feed follows stays
    assert_eq!(strings(&["foo", "bar", "", "baz\r"]), text_lines("foo\nbar\n\r\nbaz\r"));
    assert_eq!(strings(&["a\rb"]), text_lines("a\rb\n"));

    for text in ["", "\n", "one", "one\ntwo\n", "4:abcd\r\n5:abcde\r\n", "\n\n\n", "a\n\r\nb"] {
        let expected: Vec<String> = text.lines().map(|line| line.to_string()).collect();
        assert_eq!(expected, text_lines(text));
    }
}

#[test]
fn test_parse_length() {
    assert_eq!(Some(0), parse_length("0"));
    assert_eq!(Some(4), parse_length("4"));
    assert_eq!(Some(12), parse_length("12"));
    assert_eq!(Some(255), parse_length("255"));
    assert_eq!(Some(7), parse_length("+7"));
    assert_eq!(Some(7), parse_length("007"));
    assert_eq!(Some(255), parse_length("+0000000000000000000000000255"));

    assert_eq!(None, parse_length(""));
    assert_eq!(None, parse_length("+"));
    assert_eq!(None, parse_length("256"));
    assert_eq!(None, parse_length("1000"));
    assert_eq!(None, parse_length("99999999999999999999999999"));
    assert_eq!(None, parse_length("-1"));
    assert_eq!(None, parse_length("++1"));
    assert_eq!(None, parse_length("1+"));
    assert_eq!(None, parse_length(" 4"));
    assert_eq!(None, parse_length("4 "));
    assert_eq!(None, parse_length("four"));
    assert_eq!(None, parse_length("٤"));
}

#[test]
fn test_parse_line() {
    assert_eq!(
        Some((4, strings(&["abcd", "efgh"]))),
        parse_line("4:abcd,efgh")
    );
    assert_eq!(Some((5, strings(&["abcde"]))), parse_line("5:abcde"));
    // without words there is one word, the empty one
    assert_eq!(Some((6, strings(&[""]))), parse_line("6:"));
    assert_eq!(Some((6, strings(&[""]))), parse_line("6"));
    // what follows a second colon is left out
    assert_eq!(Some((7, strings(&["a", "b"]))), parse_line("7:a,b:c,d"));
    assert_eq!(None, parse_line(""));
    assert_eq!(None, parse_line(":abcd"));
    assert_eq!(None, parse_line("abcd"));
    assert_eq!(None, parse_line("300:abcd"));
}

#[test]
fn test_load_dict() {
    let dict = load_dict(b"4:abcd,efgh\n5:abcde\n10:abcdefghij").unwrap();
    let mut expected: HashMap<u8, Vec<String>> = HashMap::new();
    expected.insert(4, strings(&["abcd", "efgh"]));
    expected.insert(5, strings(&["abcde"]));
    expected.insert(10, strings(&["abcdefghij"]));
    assert_eq!(expected, dict);

    // a later line replaces an earlier one
    let dict = load_dict(b"4:abcd\r\n4:wxyz\r\n").unwrap();
    let mut expected: HashMap<u8, Vec<String>> = HashMap::new();
    expected.insert(4, strings(&["wxyz"]));
    assert_eq!(expected, dict);

    assert!(load_dict(b"").unwrap().is_empty());
    // bytes that are no text
    assert!(load_dict(&[0x34, 0x3a, 0xff, 0xfe]).unwrap().is_empty());
    assert!(load_dict(&[0xc3]).unwrap().is_empty());

    // a line without a length
    assert_eq!(None, load_dict(b"4:abcd\n\n5:abcde\n"));
    assert_eq!(None, load_dict(b"4:abcd\nfive:abcde\n"));
    assert_eq!(None, load_dict(b"\n"));
    assert_eq!(None, load_dict(b"256:a"));
}

#[test]
fn test_collect_pool() {
    let dict = load_dict(b"6:abcdef\n4:abcd,efgh\n5:abcde\n8:abcdefgh\n").unwrap();
    assert_eq!(vec!["abcd", "efgh", "abcde", "abcdef"], collect_pool(&dict, 4..7));
    assert_eq!(vec!["abcd", "efgh", "abcde", "abcdef"], collect_pool(&dict, 0..8));
    assert_eq!(vec!["abcdef", "abcdefgh"], collect_pool(&dict, 6..255));
    assert_eq!(vec!["abcde"], collect_pool(&dict, 5..6));
    assert!(collect_pool(&dict, 7..8).is_empty());
    assert!(collect_pool(&dict, 5..5).is_empty());
    assert!(collect_pool(&dict, 9..4).is_empty());
    assert!(collect_pool(&HashMap::new(), 0..255).is_empty());
}

#[test]
fn test_passphrase_from_dictionary() {
    let dict = load_dict(b"3:abc\n4:abcd,efgh,ijkl\n5:abcde,fghij\n11:abcdefghijk\n").unwrap();
    let settings = Settings::from_preset(Preset::Xkcd);
    let pool = collect_pool(&dict, settings.word_lengths());
    assert_eq!(vec!["abcd", "efgh", "ijkl", "abcde", "fghij"], pool);

    for _ in 0..20 {
        let passwd = gen_passwd(&settings, &pool);
        let words: Vec<String> = passwd.split('-').map(|word| word.to_lowercase()).collect();
        assert_eq!(4, words.len());
        assert!(words.iter().all(|word| pool.contains(&word.as_str())));
    }
}

#[test]
fn test_generator() {
    assert!(Xkpasswd::new(b"four:abcd").is_none());
    assert!(Xkpasswd::new(b"4:abcd\n\n").is_none());

    let generator = Xkpasswd::new(b"3:abc\n4:abcd\n5:abcde\n6:abcdef\n").unwrap();
    let settings = Settings::default()
        .with_words_count(2)
        .unwrap()
        .with_word_lengths(Some(5), Some(6))
        .unwrap()
        .with_word_transforms(WordTransform::UPPERCASE)
        .unwrap()
        .with_separators("+")
        .with_padding_digits(Some(0), Some(0))
        .with_padding_symbol_lengths(Some(0), Some(0));
    for _ in 0..20 {
        let passwd = generator.gen_pass(&settings);
        assert!(passwd == "ABCDE+ABCDEF" || passwd == "ABCDEF+ABCDE");
    }

    // no word of the lengths asked for
    let settings = settings.with_word_lengths(Some(7), Some(10)).unwrap();
    assert_eq!("", generator.gen_pass(&settings));

    // bytes that are no text give a generator without words
    let generator = Xkpasswd::new(&[0xff]).unwrap();
    assert_eq!("", generator.gen_pass(&settings));
}
