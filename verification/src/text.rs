//! Work on strings as sequences of characters: splitting a line into words,
//! joining words, and reading and writing numbers in decimal.
use vstd::prelude::*;
use vstd::slice::slice_index_get;
use vstd::string::{StrSliceExecFns, StringExecFns};

verus! {

/// The texts that a list of strings holds.
pub open spec fn texts(strings: Seq<String>) -> Seq<Seq<char>> {
    strings.map_values(|s: String| s@)
}

/// Whether two strings hold the same characters.
pub fn same_text(a: &str, b: &str) -> (same: bool)
    ensures
        same == (a@ == b@),
{
    a.to_owned() == b.to_owned()
}

/// The characters of a string, in order.
pub fn characters(text: &str) -> (chars: Vec<char>)
    ensures
        chars@ == text@,
{
    let mut chars: Vec<char> = Vec::new();
    for c in it: text.chars()
        invariant
            chars@ == it.seq().take(it.index() as int),
            it.seq() == text@,
    {
        chars.push(c);
    }
    chars
}

/// White space: the characters that Unicode marks as White_Space.
pub open spec fn spec_is_space(c: char) -> bool {
    let code = c as u32;
    ||| 0x09 <= code <= 0x0D
    ||| code == 0x20
    ||| code == 0x85
    ||| code == 0xA0
    ||| code == 0x1680
    ||| 0x2000 <= code <= 0x200A
    ||| code == 0x2028
    ||| code == 0x2029
    ||| code == 0x202F
    ||| code == 0x205F
    ||| code == 0x3000
}

/// Whether a character is white space.
#[verifier::when_used_as_spec(spec_is_space)]
pub fn is_space(c: char) -> (space: bool)
    ensures
        space == spec_is_space(c),
{
    let code: u32 = c as u32;
    (0x09 <= code && code <= 0x0D)
        || code == 0x20
        || code == 0x85
        || code == 0xA0
        || code == 0x1680
        || (0x2000 <= code && code <= 0x200A)
        || code == 0x2028
        || code == 0x2029
        || code == 0x202F
        || code == 0x205F
        || code == 0x3000
}

/// Where the run of characters that are not white space, begun at `from`, ends:
/// the position of the next white space, or the end of the text.
pub open spec fn word_end(text: Seq<char>, from: int) -> int
    decreases text.len() - from,
{
    if from < 0 || from >= text.len() || is_space(text[from]) {
        from
    } else {
        word_end(text, from + 1)
    }
}

/// A word ends at or behind the place where it begins, within the text, and at
/// white space or at the end of the text; it holds no white space.
pub proof fn lemma_word_end(text: Seq<char>, from: int)
    requires
        0 <= from <= text.len(),
    ensures
        from <= word_end(text, from) <= text.len(),
        from < text.len() && !is_space(text[from]) ==> from < word_end(text, from),
        word_end(text, from) < text.len() ==> is_space(text[word_end(text, from)]),
        forall|k: int| from <= k < word_end(text, from) ==> !is_space(#[trigger] text[k]),
    decreases text.len() - from,
{
    if from < text.len() && !is_space(text[from]) {
        lemma_word_end(text, from + 1);
    }
}

/// The words of a text from position `from` on: the runs of characters that
/// are not white space, in order.
pub open spec fn words_from(text: Seq<char>, from: int) -> Seq<Seq<char>>
    decreases text.len() - from,
{
    if from < 0 || from >= text.len() {
        Seq::empty()
    } else if is_space(text[from]) {
        words_from(text, from + 1)
    } else {
        proof {
            lemma_word_end(text, from);
        }
        seq![text.subrange(from, word_end(text, from))] + words_from(text, word_end(text, from))
    }
}

/// The words of a text: its longest runs of characters that are not white
/// space, in order. White space only separates them.
pub open spec fn words_of(text: Seq<char>) -> Seq<Seq<char>> {
    words_from(text, 0)
}

/// A word: one character or more, none of them white space.
pub open spec fn is_word(word: Seq<char>) -> bool {
    &&& word.len() > 0
    &&& forall|k: int| 0 <= k < word.len() ==> !is_space(#[trigger] word[k])
}

/// What `words_from` gives are words.
pub proof fn lemma_words_from(text: Seq<char>, from: int)
    requires
        0 <= from <= text.len(),
    ensures
        forall|i: int|
            0 <= i < words_from(text, from).len() ==> is_word(#[trigger] words_from(text, from)[i]),
    decreases text.len() - from,
{
    if from < text.len() {
        if is_space(text[from]) {
            lemma_words_from(text, from + 1);
            assert(words_from(text, from) == words_from(text, from + 1));
        } else {
            let end = word_end(text, from);
            lemma_word_end(text, from);
            lemma_words_from(text, end);
            assert forall|i: int| 0 <= i < words_from(text, from).len() implies is_word(
                #[trigger] words_from(text, from)[i],
            ) by {
                if i > 0 {
                    assert(words_from(text, from)[i] == words_from(text, end)[i - 1]);
                }
            }
        }
    }
}

/// The words of a text are words: none is empty, none holds white space.
pub proof fn lemma_words_of(text: Seq<char>)
    ensures
        forall|i: int| 0 <= i < words_of(text).len() ==> is_word(#[trigger] words_of(text)[i]),
{
    lemma_words_from(text, 0);
}

/// Splits a line into its words.
pub fn split_words(line: &str) -> (words: Vec<String>)
    ensures
        texts(words@) == words_of(line@),
{
    let chars = characters(line);
    let count: usize = chars.len();
    let mut words: Vec<String> = Vec::new();
    let mut at: usize = 0;
    while at < count
        invariant
            chars@ == line@,
            count == chars.len(),
            at <= count,
            texts(words@) + words_from(line@, at as int) == words_of(line@),
        decreases count - at,
    {
        if is_space(chars[at]) {
            at = at + 1;
        } else {
            let mut end: usize = at + 1;
            while end < count && !is_space(chars[end])
                invariant
                    chars@ == line@,
                    count == chars.len(),
                    at < end <= count,
                    word_end(line@, at as int) == word_end(line@, end as int),
                decreases count - end,
            {
                end = end + 1;
            }
            words.push(String::from_str(line.substring_char(at, end)));
            at = end;
        }
    }
    words
}

/// The words written one after the other with one blank between neighbours.
pub open spec fn joined(words: Seq<Seq<char>>) -> Seq<char>
    decreases words.len(),
{
    if words.len() == 0 {
        Seq::empty()
    } else if words.len() == 1 {
        words[0]
    } else {
        joined(words.drop_last()) + seq![' '] + words.last()
    }
}

/// Joins words with single blanks.
pub fn join_words(words: &[String]) -> (text: String)
    ensures
        text@ == joined(texts(words@)),
{
    let mut text = String::new();
    let mut index: usize = 0;
    proof {
        reveal_strlit(" ");
    }
    while index < words.len()
        invariant
            index <= words.len(),
            " "@ == seq![' '],
            text@ == joined(texts(words@).take(index as int)),
        decreases words.len() - index,
    {
        let ghost before = texts(words@).take(index as int);
        let ghost after = texts(words@).take(index + 1);
        proof {
            assert(after.drop_last() =~= before);
        }
        if index > 0 {
            text.append(" ");
        }
        text.append(slice_index_get(words, index).as_str());
        index = index + 1;
    }
    proof {
        assert(texts(words@).take(words.len() as int) =~= texts(words@));
    }
    text
}

/// The decimal digits.
pub open spec fn is_digit(c: char) -> bool {
    0x30 <= c as u32 <= 0x39
}

/// The number for which a decimal digit stands.
pub open spec fn digit_value(c: char) -> nat {
    (c as u32 - 0x30) as nat
}

/// The number that a row of decimal digits stands for.
pub open spec fn digits_value(digits: Seq<char>) -> nat
    decreases digits.len(),
{
    if digits.len() == 0 {
        0
    } else {
        10 * digits_value(digits.drop_last()) + digit_value(digits.last())
    }
}

/// Every character is a decimal digit.
pub open spec fn all_digits(digits: Seq<char>) -> bool {
    forall|i: int| 0 <= i < digits.len() ==> is_digit(#[trigger] digits[i])
}

/// The digits of a word that is read as a number: the word without the plus
/// sign that may stand in front.
pub open spec fn digits_of(word: Seq<char>) -> Seq<char> {
    if word.len() > 0 && word[0] == '+' {
        word.drop_first()
    } else {
        word
    }
}

/// The number that a word stands for: one decimal digit or more, with or
/// without a plus sign in front. Any other word stands for no number.
pub open spec fn number_of(word: Seq<char>) -> Option<nat> {
    if digits_of(word).len() > 0 && all_digits(digits_of(word)) {
        Some(digits_value(digits_of(word)))
    } else {
        None
    }
}

/// The number that a word stands for, where the machine can hold it.
pub open spec fn index_of(word: Seq<char>) -> Option<usize> {
    match number_of(word) {
        Some(number) => if number <= usize::MAX {
            Some(number as usize)
        } else {
            None
        },
        None => None,
    }
}

/// The first digits of a row stand for no more than the whole row.
pub proof fn lemma_digits_value_grows(digits: Seq<char>, count: int)
    requires
        0 <= count <= digits.len(),
    ensures
        digits_value(digits.take(count)) <= digits_value(digits),
    decreases digits.len(),
{
    if count < digits.len() {
        lemma_digits_value_grows(digits.drop_last(), count);
        assert(digits.drop_last().take(count) =~= digits.take(count));
    } else {
        assert(digits.take(count) =~= digits);
    }
}

/// Reads a word as a number.
pub fn parse_number(word: &str) -> (number: Option<usize>)
    ensures
        number == index_of(word@),
{
    let chars = characters(word);
    let count: usize = chars.len();
    let start: usize = if count > 0 && chars[0] == '+' {
        1
    } else {
        0
    };
    if start == count {
        return None;
    }
    let ghost digits = digits_of(word@);
    let mut value: usize = 0;
    let mut index: usize = start;
    while index < count
        invariant
            chars@ == word@,
            count == chars.len(),
            start <= index <= count,
            digits == digits_of(word@),
            digits == word@.skip(start as int),
            all_digits(digits.take(index - start)),
            value == digits_value(digits.take(index - start)),
        decreases count - index,
    {
        let code: u32 = chars[index] as u32;
        assert(digits[index - start] == chars@[index as int]);
        if code < 0x30 || code > 0x39 {
            return None;
        }
        let digit: usize = (code - 0x30) as usize;
        proof {
            let longer = digits.take(index - start + 1);
            assert(longer.drop_last() =~= digits.take(index - start));
            lemma_digits_value_grows(digits, index - start + 1);
        }
        if value > (usize::MAX - digit) / 10 {
            return None;
        }
        value = value * 10 + digit;
        index = index + 1;
    }
    assert(digits.take(count - start) =~= digits);
    Some(value)
}

/// The decimal digit for a number below ten.
pub open spec fn digit_char(digit: nat) -> char {
    if digit == 0 {
        '0'
    } else if digit == 1 {
        '1'
    } else if digit == 2 {
        '2'
    } else if digit == 3 {
        '3'
    } else if digit == 4 {
        '4'
    } else if digit == 5 {
        '5'
    } else if digit == 6 {
        '6'
    } else if digit == 7 {
        '7'
    } else if digit == 8 {
        '8'
    } else {
        '9'
    }
}

/// A number written in decimal, without leading zeros.
pub open spec fn decimal(number: nat) -> Seq<char>
    decreases number,
{
    if number < 10 {
        seq![digit_char(number)]
    } else {
        decimal(number / 10).push(digit_char(number % 10))
    }
}

/// A number written in decimal is one digit or more, all of them digits, and
/// they stand for the number.
pub proof fn lemma_decimal_digits(number: nat)
    ensures
        decimal(number).len() > 0,
        all_digits(decimal(number)),
        digits_value(decimal(number)) == number,
    decreases number,
{
    if number < 10 {
        assert(digits_value(decimal(number).drop_last()) == 0);
    } else {
        lemma_decimal_digits(number / 10);
        assert(decimal(number).drop_last() =~= decimal(number / 10));
    }
}

/// A number written in decimal reads back as the same number: the number that
/// the screen shows beside an assignment is the one that addresses it.
pub proof fn lemma_decimal_reads_back(number: nat)
    ensures
        number_of(decimal(number)) == Some(number),
{
    lemma_decimal_digits(number);
}

/// The decimal digit for a number below ten, as a string.
fn digit_text(digit: usize) -> (text: &'static str)
    requires
        digit < 10,
    ensures
        text@ == seq![digit_char(digit as nat)],
{
    proof {
        reveal_strlit("0");
        reveal_strlit("1");
        reveal_strlit("2");
        reveal_strlit("3");
        reveal_strlit("4");
        reveal_strlit("5");
        reveal_strlit("6");
        reveal_strlit("7");
        reveal_strlit("8");
        reveal_strlit("9");
    }
    if digit == 0 {
        "0"
    } else if digit == 1 {
        "1"
    } else if digit == 2 {
        "2"
    } else if digit == 3 {
        "3"
    } else if digit == 4 {
        "4"
    } else if digit == 5 {
        "5"
    } else if digit == 6 {
        "6"
    } else if digit == 7 {
        "7"
    } else if digit == 8 {
        "8"
    } else {
        "9"
    }
}

/// Writes a number in decimal.
pub fn to_decimal(number: usize) -> (text: String)
    ensures
        text@ == decimal(number as nat),
    decreases number,
{
    let last = digit_text(number % 10);
    if number < 10 {
        String::from_str(last)
    } else {
        to_decimal(number / 10).concat(last)
    }
}

} // verus!
