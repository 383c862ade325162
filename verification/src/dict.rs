//! The dictionary: the words that passphrases are made of, by their length.
//!
//! A dictionary is written as text, one line for each length: the length, a
//! colon, and the words of that length with commas between them. A later
//! line for a length replaces an earlier one. A line ends with a line feed,
//! which a carriage return may precede; the last line need not end.

use std::collections::HashMap;
use vstd::prelude::*;
use vstd::utf8::{decode_utf8, valid_utf8};

use crate::randomizer::{string_texts, texts};

verus! {

broadcast use vstd::std_specs::hash::group_hash_axioms;

/// The pieces of a text between the occurrences of a delimiter. There is one
/// piece more than there are delimiters.
pub open spec fn split(text: Seq<char>, delimiter: char) -> Seq<Seq<char>>
    decreases text.len(),
{
    if text.len() == 0 {
        seq![Seq::empty()]
    } else {
        let before = split(text.drop_last(), delimiter);
        if text.last() == delimiter {
            before.push(Seq::empty())
        } else {
            before.drop_last().push(before.last().push(text.last()))
        }
    }
}

/// The pieces with the delimiter set between each two of them.
pub open spec fn unsplit(pieces: Seq<Seq<char>>, delimiter: char) -> Seq<char>
    decreases pieces.len(),
{
    if pieces.len() == 0 {
        Seq::empty()
    } else if pieces.len() == 1 {
        pieces[0]
    } else {
        unsplit(pieces.drop_last(), delimiter).push(delimiter) + pieces.last()
    }
}

/// A line without the carriage return at its end, if it has one.
pub open spec fn without_return(line: Seq<char>) -> Seq<char> {
    if line.len() > 0 && line.last() == '\r' {
        line.drop_last()
    } else {
        line
    }
}

/// The lines of a text. What follows the last line feed is a line unless it
/// is empty; only a line that a line feed ends loses its carriage return.
pub open spec fn lines(text: Seq<char>) -> Seq<Seq<char>> {
    let pieces = split(text, '\n');
    let ended = Seq::new((pieces.len() - 1) as nat, |at: int| without_return(pieces[at]));
    if pieces.last().len() == 0 {
        ended
    } else {
        ended.push(pieces.last())
    }
}

/// The value of a decimal digit, and zero for any other character.
pub open spec fn digit_value(c: char) -> nat {
    if c == '1' {
        1
    } else if c == '2' {
        2
    } else if c == '3' {
        3
    } else if c == '4' {
        4
    } else if c == '5' {
        5
    } else if c == '6' {
        6
    } else if c == '7' {
        7
    } else if c == '8' {
        8
    } else if c == '9' {
        9
    } else {
        0
    }
}

/// Whether a text holds decimal digits only.
pub open spec fn is_digits(text: Seq<char>) -> bool {
    forall|at: int| 0 <= at < text.len() ==> '0' <= #[trigger] text[at] <= '9'
}

/// The number that decimal digits stand for.
pub open spec fn number_of(digits: Seq<char>) -> nat
    decreases digits.len(),
{
    if digits.len() == 0 {
        0
    } else {
        number_of(digits.drop_last()) * 10 + digit_value(digits.last())
    }
}

/// A key without the plus sign at its start, if it has one.
pub open spec fn unsigned(key: Seq<char>) -> Seq<char> {
    if key.len() > 0 && key[0] == '+' {
        key.skip(1)
    } else {
        key
    }
}

/// The length that the key of a line stands for: decimal digits, at least
/// one, which a plus sign may precede, of a number that fits in a byte.
pub open spec fn parsed_length(key: Seq<char>) -> Option<u8> {
    let digits = unsigned(key);
    if digits.len() > 0 && is_digits(digits) && number_of(digits) <= u8::MAX {
        Some(number_of(digits) as u8)
    } else {
        None
    }
}

/// The length and the words that a line gives: the key before the first
/// colon; the words between the first colon and the second, if there is one.
pub open spec fn parsed_line(line: Seq<char>) -> Option<(u8, Seq<Seq<char>>)> {
    let parts = split(line, ':');
    let words = if parts.len() > 1 {
        parts[1]
    } else {
        Seq::empty()
    };
    match parsed_length(parts[0]) {
        Some(length) => Some((length, split(words, ','))),
        None => None,
    }
}

/// The dictionary that lines give, or `None` where the key of a line stands
/// for no length.
pub open spec fn parsed_lines(lines: Seq<Seq<char>>) -> Option<Map<u8, Seq<Seq<char>>>>
    decreases lines.len(),
{
    if lines.len() == 0 {
        Some(Map::empty())
    } else {
        match (parsed_lines(lines.drop_last()), parsed_line(lines.last())) {
            (Some(dict), Some((length, words))) => Some(dict.insert(length, words)),
            _ => None,
        }
    }
}

/// The dictionary that bytes give: that of the lines of their text, and an
/// empty one where they are no text.
pub open spec fn parsed_dict(bytes: Seq<u8>) -> Option<Map<u8, Seq<Seq<char>>>> {
    if valid_utf8(bytes) {
        parsed_lines(lines(decode_utf8(bytes)))
    } else {
        Some(Map::empty())
    }
}

/// A dictionary as a mathematical value: the texts of the words of each
/// length.
pub open spec fn dict_texts(dict: Map<u8, Vec<String>>) -> Map<u8, Seq<Seq<char>>> {
    Map::new(|length: u8| dict.contains_key(length), |length: u8| string_texts(dict[length]@))
}

/// The words of the lengths from `start` up to, and without, `end`, by
/// length.
pub open spec fn pooled(dict: Map<u8, Seq<Seq<char>>>, start: int, end: int) -> Seq<Seq<char>>
    decreases end - start,
{
    if start >= end {
        Seq::empty()
    } else {
        let shorter = pooled(dict, start, end - 1);
        if dict.contains_key((end - 1) as u8) {
            shorter + dict[(end - 1) as u8]
        } else {
            shorter
        }
    }
}

/// A text is split into at least one piece, no piece holds the delimiter,
/// and the pieces with the delimiter between them are the text again.
pub proof fn lemma_split(text: Seq<char>, delimiter: char)
    ensures
        split(text, delimiter).len() >= 1,
        forall|at: int|
            0 <= at < split(text, delimiter).len() ==> !(#[trigger] split(
                text,
                delimiter,
            )[at]).contains(delimiter),
        unsplit(split(text, delimiter), delimiter) == text,
    decreases text.len(),
{
    let pieces = split(text, delimiter);
    if text.len() > 0 {
        let before = split(text.drop_last(), delimiter);
        lemma_split(text.drop_last(), delimiter);
        if text.last() == delimiter {
            assert(pieces.drop_last() =~= before);
        } else {
            let grown = before.last().push(text.last());
            assert forall|at: int| 0 <= at < pieces.len() implies !(#[trigger] pieces[at]).contains(
                delimiter,
            ) by {
                if at == pieces.len() - 1 && grown.contains(delimiter) {
                    let found = choose|found: int|
                        0 <= found < grown.len() && grown[found] == delimiter;
                }
            }
            if before.len() > 1 {
                assert(pieces.drop_last() =~= before.drop_last());
                assert(unsplit(pieces, delimiter) =~= unsplit(before, delimiter).push(
                    text.last(),
                ));
            }
        }
    }
}

/// No line of a text holds a line feed.
pub proof fn lemma_lines(text: Seq<char>)
    ensures
        forall|at: int|
            0 <= at < lines(text).len() ==> !(#[trigger] lines(text)[at]).contains('\n'),
{
    let pieces = split(text, '\n');
    lemma_split(text, '\n');
    assert forall|at: int| 0 <= at < lines(text).len() implies !(#[trigger] lines(text)[at]).contains(
        '\n',
    ) by {
        let line = lines(text)[at];
        let piece = pieces[at];
        if line.contains('\n') {
            let found = choose|found: int| 0 <= found < line.len() && line[found] == '\n';
        }
    }
}

/// More digits do not make a number smaller.
proof fn lemma_number_grows(digits: Seq<char>, taken: int)
    requires
        0 <= taken <= digits.len(),
    ensures
        number_of(digits.take(taken)) <= number_of(digits),
    decreases digits.len(),
{
    if taken == digits.len() {
        assert(digits.take(taken) =~= digits);
    } else {
        lemma_number_grows(digits.drop_last(), taken);
        assert(digits.drop_last().take(taken) =~= digits.take(taken));
    }
}

/// `core::str::from_utf8`: the bytes as a text, where they are well-formed
/// UTF-8, and nothing where they are not. Nothing is proved of it.
#[verifier::external_body]
fn utf8_text(bytes: &[u8]) -> (text: Option<&str>)
    ensures
        match text {
            Some(text) => valid_utf8(bytes@) && text@ == decode_utf8(bytes@),
            None => !valid_utf8(bytes@),
        },
{
    core::str::from_utf8(bytes).ok()
}

/// `String::push`: one character more at the end of a string. Nothing is
/// proved of it.
#[verifier::external_body]
fn push_char(text: &mut String, c: char)
    ensures
        final(text)@ == old(text)@.push(c),
{
    text.push(c)
}

/// Splits a text at each occurrence of a delimiter.
pub fn split_text(text: &str, delimiter: char) -> (pieces: Vec<String>)
    ensures
        string_texts(pieces@) == split(text@, delimiter),
{
    let mut pieces: Vec<String> = Vec::new();
    let mut piece = String::new();
    for c in it: text.chars()
        invariant
            it.seq() == text@,
            string_texts(pieces@).push(piece@) == split(
                text@.take(it.index() as int),
                delimiter,
            ),
    {
        proof {
            assert(text@.take(it.index() + 1).drop_last() =~= text@.take(it.index() as int));
        }
        if c == delimiter {
            pieces.push(piece);
            piece = String::new();
        } else {
            push_char(&mut piece, c);
        }
    }
    proof {
        assert(text@.take(text@.len() as int) =~= text@);
    }
    pieces.push(piece);
    pieces
}

/// Takes the carriage return from the end of a line, if it has one.
pub fn strip_return(line: &str) -> (stripped: String)
    ensures
        stripped@ == without_return(line@),
{
    let length = line.unicode_len();
    if length > 0 && line.get_char(length - 1) == '\r' {
        let kept = line.substring_char(0, length - 1);
        String::from_str(kept)
    } else {
        String::from_str(line)
    }
}

/// Splits a text into its lines.
pub fn text_lines(text: &str) -> (list: Vec<String>)
    ensures
        string_texts(list@) == lines(text@),
{
    let pieces = split_text(text, '\n');
    proof {
        lemma_split(text@, '\n');
    }
    let ended = pieces.len() - 1;
    let mut list: Vec<String> = Vec::new();
    let mut at: usize = 0;
    while at < ended
        invariant
            at <= ended,
            ended == pieces.len() - 1,
            string_texts(pieces@) == split(text@, '\n'),
            string_texts(list@) == Seq::new(
                at as nat,
                |at: int| without_return(split(text@, '\n')[at]),
            ),
        decreases ended - at,
    {
        let ghost before = string_texts(list@);
        list.push(strip_return(pieces[at].as_str()));
        proof {
            assert(string_texts(list@) =~= before.push(without_return(split(text@, '\n')[at as int])));
        }
        at = at + 1;
    }
    if !pieces[ended].as_str().is_empty() {
        list.push(pieces[ended].clone());
    }
    list
}

/// The value of a decimal digit, or nothing for any other character.
fn digit_of(c: char) -> (digit: Option<u8>)
    ensures
        match digit {
            Some(value) => '0' <= c <= '9' && value == digit_value(c),
            None => !('0' <= c <= '9'),
        },
{
    match c {
        '0' => Some(0),
        '1' => Some(1),
        '2' => Some(2),
        '3' => Some(3),
        '4' => Some(4),
        '5' => Some(5),
        '6' => Some(6),
        '7' => Some(7),
        '8' => Some(8),
        '9' => Some(9),
        _ => None,
    }
}

/// Reads the length that the key of a line stands for.
pub fn parse_length(key: &str) -> (length: Option<u8>)
    ensures
        length == parsed_length(key@),
{
    let mut value: u16 = 0;
    let mut first = true;
    let mut any = false;
    let ghost digits = unsigned(key@);
    let ghost mut count: int = 0;
    for c in it: key.chars()
        invariant
            it.seq() == key@,
            digits == unsigned(key@),
            first == (it.index() == 0),
            any == (count > 0),
            count == if it.index() > 0 && key@[0] == '+' {
                it.index() - 1
            } else {
                it.index() as int
            },
            is_digits(digits.take(count)),
            value == number_of(digits.take(count)),
            value <= u8::MAX,
    {
        let sign = first && c == '+';
        first = false;
        if !sign {
            proof {
                assert(digits.take(count + 1).drop_last() =~= digits.take(count));
                assert(digits.take(count + 1).last() == c);
            }
            match digit_of(c) {
                Some(digit) => {
                    value = value * 10 + digit as u16;
                    any = true;
                    proof {
                        count = count + 1;
                    }
                    if value > u8::MAX as u16 {
                        proof {
                            lemma_number_grows(digits, count);
                        }
                        return None;
                    }
                },
                None => {
                    return None;
                },
            }
        }
    }
    proof {
        assert(digits.take(count) =~= digits);
    }
    if any {
        Some(value as u8)
    } else {
        None
    }
}

/// Reads one line of a dictionary.
pub fn parse_line(line: &str) -> (entry: Option<(u8, Vec<String>)>)
    ensures
        match entry {
            Some((length, words)) => parsed_line(line@) == Some((length, string_texts(words@))),
            None => parsed_line(line@) is None,
        },
{
    let parts = split_text(line, ':');
    proof {
        lemma_split(line@, ':');
    }
    let length = match parse_length(parts[0].as_str()) {
        Some(length) => length,
        None => {
            return None;
        },
    };
    let words = if parts.len() > 1 {
        split_text(parts[1].as_str(), ',')
    } else {
        let none = String::new();
        split_text(none.as_str(), ',')
    };
    Some((length, words))
}

/// Reads a dictionary. Bytes that are no text give an empty dictionary, and
/// a line whose key stands for no length gives none at all.
pub fn load_dict(dict_bytes: &[u8]) -> (loaded: Option<HashMap<u8, Vec<String>>>)
    ensures
        match loaded {
            Some(dict) => parsed_dict(dict_bytes@) == Some(dict_texts(dict@)),
            None => parsed_dict(dict_bytes@) is None,
        },
{
    let mut dict: HashMap<u8, Vec<String>> = HashMap::new();
    let text = match utf8_text(dict_bytes) {
        Some(text) => text,
        None => {
            return Some(dict);
        },
    };
    let list = text_lines(text);
    let mut at: usize = 0;
    while at < list.len()
        invariant
            at <= list.len(),
            valid_utf8(dict_bytes@),
            string_texts(list@) == lines(decode_utf8(dict_bytes@)),
            parsed_lines(string_texts(list@).take(at as int)) == Some(dict_texts(dict@)),
        decreases list.len() - at,
    {
        proof {
            assert(string_texts(list@).take(at + 1).drop_last() =~= string_texts(list@).take(
                at as int,
            ));
        }
        match parse_line(list[at].as_str()) {
            Some((length, words)) => {
                dict.insert(length, words);
            },
            None => {
                proof {
                    lemma_unreadable_line(string_texts(list@), at as int);
                }
                return None;
            },
        }
        at = at + 1;
    }
    proof {
        assert(string_texts(list@).take(at as int) =~= string_texts(list@));
    }
    Some(dict)
}

/// Lines with a line among them that cannot be read give no dictionary.
proof fn lemma_unreadable_line(lines: Seq<Seq<char>>, at: int)
    requires
        0 <= at < lines.len(),
        parsed_line(lines[at]) is None,
    ensures
        parsed_lines(lines) is None,
    decreases lines.len(),
{
    if at < lines.len() - 1 {
        lemma_unreadable_line(lines.drop_last(), at);
    }
}

/// The words of a dictionary whose lengths lie in `lengths`, by length.
pub fn collect_pool<'a>(dict: &'a HashMap<u8, Vec<String>>, lengths: core::ops::Range<u8>) -> (pool:
    Vec<&'a str>)
    ensures
        texts(pool@) == pooled(dict_texts(dict@), lengths.start as int, lengths.end as int),
{
    let mut pool: Vec<&'a str> = Vec::new();
    let mut length = lengths.start;
    while length < lengths.end
        invariant
            lengths.start <= length,
            lengths.start < lengths.end ==> length <= lengths.end,
            lengths.start >= lengths.end ==> length == lengths.start,
            texts(pool@) == pooled(dict_texts(dict@), lengths.start as int, length as int),
        decreases lengths.end - length,
    {
        let ghost shorter = texts(pool@);
        match dict.get(&length) {
            Some(words) => {
                let mut at: usize = 0;
                while at < words.len()
                    invariant
                        at <= words.len(),
                        texts(pool@) == shorter + string_texts(words@).take(at as int),
                    decreases words.len() - at,
                {
                    let ghost before = texts(pool@);
                    pool.push(words[at].as_str());
                    proof {
                        assert(texts(pool@) =~= before.push(words[at as int]@));
                    }
                    at = at + 1;
                }
            },
            None => {},
        }
        length = length + 1;
    }
    pool
}

} // verus!
