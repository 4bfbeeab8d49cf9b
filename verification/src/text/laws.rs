//! What holds of texts: how they are trimmed, split, searched and read as numbers.

use vstd::prelude::*;

use crate::text::{
    after_last, after_prefix, all_digits, ascii_lower, before_suffix, byte_length, decimal,
    decimal_digit, digit_value, distinct, found_at, is_control_char, is_space, lemma_position_of,
    lines_of, number_of, position_of, same_but_case, trimmed, trimmed_end, trimmed_start,
    unsigned_digits, unsigned_of, utf8_length, without_return, word_length, words_of,
};

verus! {

proof fn lemma_start_kept(spaces: Seq<char>, text: Seq<char>)
    requires
        forall|i: int| 0 <= i < spaces.len() ==> is_space(#[trigger] spaces[i]),
        text.len() == 0 || !is_space(text[0]),
    ensures
        trimmed_start(spaces + text) == text,
    decreases spaces.len(),
{
    let all = spaces + text;
    if spaces.len() > 0 {
        assert(is_space(spaces[0]));
        assert(all[0] == spaces[0]);
        assert(all.drop_first() =~= spaces.drop_first() + text);
        let rest = spaces.drop_first();
        assert forall|i: int| 0 <= i < rest.len() implies is_space(#[trigger] rest[i]) by {
            assert(rest[i] == spaces[i + 1]);
        }
        lemma_start_kept(rest, text);
    } else {
        assert(all =~= text);
    }
}

proof fn lemma_end_kept(text: Seq<char>, spaces: Seq<char>)
    requires
        forall|i: int| 0 <= i < spaces.len() ==> is_space(#[trigger] spaces[i]),
        text.len() == 0 || !is_space(text.last()),
    ensures
        trimmed_end(text + spaces) == text,
    decreases spaces.len(),
{
    let all = text + spaces;
    if spaces.len() > 0 {
        assert(is_space(spaces[spaces.len() - 1]));
        assert(all.last() == spaces[spaces.len() - 1]);
        assert(all.drop_last() =~= text + spaces.drop_last());
        lemma_end_kept(text, spaces.drop_last());
    } else {
        assert(all =~= text);
    }
}

/// Trimming takes away the white space around a text and nothing else.
pub proof fn law_trimming_takes_the_space_around(
    before: Seq<char>,
    text: Seq<char>,
    after: Seq<char>,
)
    requires
        forall|i: int| 0 <= i < before.len() ==> is_space(#[trigger] before[i]),
        forall|i: int| 0 <= i < after.len() ==> is_space(#[trigger] after[i]),
        text.len() > 0,
        !is_space(text[0]),
        !is_space(text.last()),
    ensures
        trimmed(before + text + after) == text,
{
    assert(before + text + after =~= before + (text + after));
    assert((text + after)[0] == text[0]);
    lemma_start_kept(before, text + after);
    lemma_end_kept(text, after);
}

/// Blanks, tabs and line breaks are white space; letters, digits and the zero-width space
/// are not.
pub proof fn law_white_space(character: char)
    ensures
        is_space(' ') && is_space('\t') && is_space('\n') && is_space('\r'),
        is_space('\u{a0}') && is_space('\u{2003}') && is_space('\u{3000}'),
        !is_space('\u{200b}'),
        digit_value(character) < 36 ==> !is_space(character),
        is_control_char(character) <==> (character as int) <= 0x1f || 0x7f <= (character as int)
            <= 0x9f,
{
}

/// A line ends with a line break, which does not belong to it, nor does a return before it;
/// the last line needs none.
pub proof fn law_lines_end_with_breaks(line: Seq<char>, rest: Seq<char>)
    requires
        !line.contains('\n'),
    ensures
        line.len() == 0 || line.last() != '\r' ==> lines_of(line + seq!['\n'] + rest) == seq![line]
            + lines_of(rest),
        lines_of(line + seq!['\r', '\n'] + rest) == seq![line] + lines_of(rest),
        line.len() > 0 ==> lines_of(line) == seq![line],
        lines_of(Seq::empty()).len() == 0,
{
    let plain = line + seq!['\n'] + rest;
    let returned = line + seq!['\r', '\n'] + rest;
    lemma_first(line, '\n', rest);
    assert(position_of(plain, '\n') == line.len());
    assert(plain.take(line.len() as int) =~= line);
    assert(plain.skip(line.len() as int + 1) =~= rest);
    let longer = line.push('\r');
    assert(!longer.contains('\n')) by {
        if longer.contains('\n') {
            let i = choose|i: int| 0 <= i < longer.len() && longer[i] == '\n';
            assert(line[i] == '\n');
        }
    }
    assert(returned =~= longer + seq!['\n'] + rest);
    lemma_first(longer, '\n', rest);
    assert(returned.take(longer.len() as int) =~= longer);
    assert(returned.skip(longer.len() as int + 1) =~= rest);
    assert(without_return(longer) =~= line);
    lemma_position_of(line, '\n');
}

proof fn lemma_first(before: Seq<char>, wanted: char, rest: Seq<char>)
    requires
        !before.contains(wanted),
    ensures
        position_of(before + seq![wanted] + rest, wanted) == before.len(),
{
    let text = before + seq![wanted] + rest;
    lemma_position_of(text, wanted);
    let place = position_of(text, wanted);
    assert(text[before.len() as int] == wanted);
    assert(text.contains(wanted));
    if place < before.len() {
        assert(before[place] == wanted);
    }
}

proof fn lemma_word(word: Seq<char>, rest: Seq<char>)
    requires
        forall|i: int| 0 <= i < word.len() ==> !is_space(#[trigger] word[i]),
        rest.len() == 0 || is_space(rest[0]),
    ensures
        word_length(word + rest) == word.len(),
    decreases word.len(),
{
    let all = word + rest;
    if word.len() > 0 {
        assert(all[0] == word[0]);
        let fewer = word.drop_first();
        assert forall|i: int| 0 <= i < fewer.len() implies !is_space(#[trigger] fewer[i]) by {
            assert(fewer[i] == word[i + 1]);
        }
        assert(all.drop_first() =~= fewer + rest);
        lemma_word(fewer, rest);
    } else {
        assert(all =~= rest);
    }
}

/// Words are what stands between white space, in their order.
pub proof fn law_words_stand_between_space(spaces: Seq<char>, word: Seq<char>, rest: Seq<char>)
    requires
        forall|i: int| 0 <= i < spaces.len() ==> is_space(#[trigger] spaces[i]),
        forall|i: int| 0 <= i < word.len() ==> !is_space(#[trigger] word[i]),
        word.len() > 0,
        rest.len() == 0 || is_space(rest[0]),
    ensures
        words_of(spaces + word + rest) == seq![word] + words_of(rest),
        words_of(spaces).len() == 0,
{
    let all = spaces + word + rest;
    assert(all =~= spaces + (word + rest));
    assert((word + rest)[0] == word[0]);
    lemma_start_kept(spaces, word + rest);
    lemma_word(word, rest);
    assert((word + rest).take(word.len() as int) =~= word);
    assert((word + rest).skip(word.len() as int) =~= rest);
    lemma_start_kept(spaces, Seq::empty());
    assert(spaces + Seq::<char>::empty() =~= spaces);
}

/// A number that is written out can be read again.
pub proof fn law_written_numbers_are_read_back(value: nat)
    ensures
        unsigned_of(decimal(value), 10, value as int) == Some(value as int),
        number_of(decimal(value), 10) == value,
        decimal(value).len() > 0,
        value > 0 ==> decimal(value)[0] != '0',
{
    lemma_decimal(value);
    let digits = decimal(value);
    assert(digit_value(digits[0]) < 10);
    assert(digit_value('+') == 36);
    assert(unsigned_digits(digits) == digits);
}

proof fn lemma_decimal(value: nat)
    ensures
        all_digits(decimal(value), 10),
        number_of(decimal(value), 10) == value,
        decimal(value).len() > 0,
        value > 0 ==> digit_value(decimal(value)[0]) > 0,
    decreases value,
{
    let last = decimal_digit((value % 10) as int);
    assert(digit_value(last) == value % 10);
    if value < 10 {
        let text = decimal(value);
        assert(text.drop_last() =~= Seq::<char>::empty());
        reveal_with_fuel(number_of, 2);
    } else {
        lemma_decimal(value / 10);
        let before = decimal(value / 10);
        let text = decimal(value);
        assert(text.drop_last() =~= before);
        assert forall|i: int| 0 <= i < text.len() implies digit_value(#[trigger] text[i]) < 10 by {
            if i < before.len() {
                assert(text[i] == before[i]);
            }
        }
        assert(text[0] == before[0]);
    }
}

/// A number is read by its digits in the given base, within its limit, with or without a
/// plus sign; anything else is no number.
pub proof fn law_numbers_are_read_digit_by_digit(
    digits: Seq<char>,
    digit: char,
    radix: int,
    limit: int,
)
    requires
        2 <= radix <= 36,
        all_digits(digits.push(digit), radix),
    ensures
        number_of(digits.push(digit), radix) == number_of(digits, radix) * radix + digit_value(
            digit,
        ),
        number_of(digits.push(digit), radix) <= limit ==> unsigned_of(
            digits.push(digit),
            radix,
            limit,
        ) == Some(number_of(digits.push(digit), radix)),
        number_of(digits.push(digit), radix) > limit ==> unsigned_of(
            digits.push(digit),
            radix,
            limit,
        ) is None,
        unsigned_of(seq!['+'] + digits.push(digit), radix, limit) == unsigned_of(
            digits.push(digit),
            radix,
            limit,
        ),
        unsigned_of(Seq::empty(), radix, limit) is None,
        unsigned_of(seq!['-'] + digits.push(digit), radix, limit) is None,
        digit_value('7') == 7 && digit_value('f') == 15 && digit_value('F') == 15,
{
    let text = digits.push(digit);
    assert(text.drop_last() =~= digits);
    let plus = seq!['+'] + text;
    assert(plus.drop_first() =~= text);
    assert(digit_value(text[0]) < radix);
    assert(unsigned_digits(text) == text);
    assert(unsigned_digits(plus) == text);
    let minus = seq!['-'] + text;
    assert(minus[0] == '-' && digit_value(minus[0]) == 36);
    assert(unsigned_digits(minus) == minus);
}

/// What follows a prefix, and what stands before a suffix, is the rest of the text.
pub proof fn law_prefixes_and_suffixes_are_taken_off(part: Seq<char>, rest: Seq<char>)
    ensures
        after_prefix(part + rest, part) == Some(rest),
        before_suffix(rest + part, part) == Some(rest),
        part.len() > rest.len() ==> after_prefix(rest, part) is None && before_suffix(rest, part)
            is None,
{
    assert((part + rest).take(part.len() as int) =~= part);
    assert((part + rest).skip(part.len() as int) =~= rest);
    assert((rest + part).skip(rest.len() as int) =~= part);
    assert((rest + part).take(rest.len() as int) =~= rest);
}

/// A pattern is found at the first place where it stands.
pub proof fn law_patterns_are_found_first(text: Seq<char>, pattern: Seq<char>, start: int, place: int)
    requires
        0 <= start,
    ensures
        found_at(text, pattern, start) matches Some(found) ==> start <= found && found
            + pattern.len() <= text.len() && text.subrange(found, found + pattern.len())
            == pattern,
        start <= place && place + pattern.len() <= text.len() && text.subrange(
            place,
            place + pattern.len(),
        ) == pattern ==> found_at(text, pattern, start) is Some && found_at(text, pattern, start)->0
            <= place,
    decreases text.len() - start + 1,
{
    if start + pattern.len() <= text.len() && text.subrange(start, start + pattern.len())
        != pattern {
        law_patterns_are_found_first(text, pattern, start + 1, place);
    }
}

/// What stands after the last of some characters has none of them.
pub proof fn law_last_characters_are_found(text: Seq<char>, wanted: char)
    ensures
        0 <= after_last(text, wanted) <= text.len(),
        !text.skip(after_last(text, wanted)).contains(wanted),
        after_last(text, wanted) > 0 ==> text[after_last(text, wanted) - 1] == wanted,
    decreases text.len(),
{
    if text.len() > 0 && text.last() != wanted {
        let shorter = text.drop_last();
        law_last_characters_are_found(shorter, wanted);
        let place = after_last(text, wanted);
        let rest = text.skip(place);
        if rest.contains(wanted) {
            let i = choose|i: int| 0 <= i < rest.len() && rest[i] == wanted;
            assert(shorter.skip(place)[i] == wanted);
        }
    }
}

/// Of equal texts the first one stays.
pub proof fn law_repeated_texts_are_dropped(texts: Seq<Seq<char>>, text: Seq<char>)
    ensures
        distinct(texts).contains(text) ==> distinct(texts.push(text)) == distinct(texts),
        !distinct(texts).contains(text) ==> distinct(texts.push(text)) == distinct(texts).push(text),
        distinct(Seq::empty()).len() == 0,
{
    assert(texts.push(text).drop_last() =~= texts);
}

/// Texts that differ only in the case of their Latin letters are the same but for case.
pub proof fn law_case_of_latin_letters(left: Seq<char>, right: Seq<char>)
    ensures
        same_but_case(left, left),
        same_but_case(left, right) ==> same_but_case(right, left),
        ascii_lower('A') == 'a' && ascii_lower('Z') == 'z' && ascii_lower('a') == 'a',
        ascii_lower('1') == '1' && ascii_lower('Ä') == 'Ä',
        left.len() != right.len() ==> !same_but_case(left, right),
{
    if same_but_case(left, right) {
        assert forall|i: int| 0 <= i < right.len() implies ascii_lower(#[trigger] right[i])
            == ascii_lower(left[i]) by {
            assert(ascii_lower(left[i]) == ascii_lower(right[i]));
        }
    }
}

/// Characters take one to four bytes, and a text as many as its characters together.
pub proof fn law_lengths_in_bytes(text: Seq<char>, character: char)
    ensures
        1 <= utf8_length(character) <= 4,
        utf8_length('a') == 1 && utf8_length('ä') == 2 && utf8_length('一') == 3 && utf8_length(
            '\u{1f600}',
        ) == 4,
        byte_length(text.push(character)) == byte_length(text) + utf8_length(character),
        byte_length(Seq::empty()) == 0,
{
    assert(text.push(character).drop_last() =~= text);
}

} // verus!
