//! Text as sequences of characters: the few string operations that the rest
//! of the crate is written with, each with its meaning as a function on `Seq<char>`.

pub mod laws;

use vstd::prelude::*;
use vstd::slice::slice_subrange;
use vstd::std_specs::iter::IteratorSpec;

verus! {

/// `String::push` appends one character to the end.
pub assume_specification[ String::push ](text: &mut String, character: char)
    ensures
        final(text)@ == old(text)@.push(character),
;

/// The characters of a string.
pub fn chars_of(text: &str) -> (result: Vec<char>)
    ensures
        result@ == text@,
{
    let mut result: Vec<char> = Vec::new();
    for character in iter: text.chars()
        invariant
            result@ == iter.seq().take(iter.index() as int),
            iter.seq() == text@,
    {
        result.push(character);
    }
    result
}

/// The string made of some characters.
pub fn string_of(characters: &[char]) -> (result: String)
    ensures
        result@ == characters@,
{
    let mut result = String::new();
    let mut i: usize = 0;
    while i < characters.len()
        invariant
            i <= characters@.len(),
            result@ == characters@.take(i as int),
        decreases characters@.len() - i,
    {
        result.push(characters[i]);
        i += 1;
    }
    assert(characters@.take(i as int) == characters@);
    result
}

/// Whether two sequences of characters are the same.
pub fn same(left: &[char], right: &[char]) -> (result: bool)
    ensures
        result == (left@ == right@),
{
    if left.len() != right.len() {
        return false;
    }
    let mut i: usize = 0;
    while i < left.len()
        invariant
            i <= left@.len(),
            left@.len() == right@.len(),
            left@.take(i as int) == right@.take(i as int),
        decreases left@.len() - i,
    {
        if left[i] != right[i] {
            assert(left@[i as int] != right@[i as int]);
            return false;
        }
        assert(left@.take(i + 1) == left@.take(i as int).push(left@[i as int]));
        assert(right@.take(i + 1) == right@.take(i as int).push(right@[i as int]));
        i += 1;
    }
    assert(left@.take(i as int) == left@);
    assert(right@.take(i as int) == right@);
    true
}

/// Whether two strings are the same.
pub fn same_text(left: &str, right: &str) -> (result: bool)
    ensures
        result == (left@ == right@),
{
    let a = chars_of(left);
    let b = chars_of(right);
    same(a.as_slice(), b.as_slice())
}

/// The view of an optional string.
pub open spec fn option_view(text: Option<String>) -> Option<Seq<char>> {
    match text {
        Some(text) => Some(text@),
        None => None,
    }
}

/// Whether two optional strings are the same.
pub fn same_option(left: &Option<String>, right: &Option<String>) -> (result: bool)
    ensures
        result == (option_view(*left) == option_view(*right)),
{
    match (left, right) {
        (Some(a), Some(b)) => same_text(a.as_str(), b.as_str()),
        (None, None) => true,
        _ => false,
    }
}

/// A copy of an optional string.
pub fn copy_option(text: &Option<String>) -> (result: Option<String>)
    ensures
        result == *text,
{
    match text {
        Some(text) => Some(text.clone()),
        None => None,
    }
}

/// Unicode's `White_Space` property.
pub open spec fn is_space(character: char) -> bool {
    let code = character as u32;
    ||| 0x9 <= code <= 0xd
    ||| code == 0x20
    ||| code == 0x85
    ||| code == 0xa0
    ||| code == 0x1680
    ||| 0x2000 <= code <= 0x200a
    ||| code == 0x2028
    ||| code == 0x2029
    ||| code == 0x202f
    ||| code == 0x205f
    ||| code == 0x3000
}

pub fn is_whitespace(character: char) -> (result: bool)
    ensures
        result == is_space(character),
{
    let code: u32 = character as u32;
    (0x9 <= code && code <= 0xd) || code == 0x20 || code == 0x85 || code == 0xa0 || code == 0x1680
        || (0x2000 <= code && code <= 0x200a) || code == 0x2028 || code == 0x2029 || code == 0x202f
        || code == 0x205f || code == 0x3000
}

/// The text without its leading white space.
pub open spec fn trimmed_start(text: Seq<char>) -> Seq<char>
    decreases text.len(),
{
    if text.len() > 0 && is_space(text[0]) {
        trimmed_start(text.drop_first())
    } else {
        text
    }
}

/// The text without its trailing white space.
pub open spec fn trimmed_end(text: Seq<char>) -> Seq<char>
    decreases text.len(),
{
    if text.len() > 0 && is_space(text.last()) {
        trimmed_end(text.drop_last())
    } else {
        text
    }
}

/// The text without white space at either end.
pub open spec fn trimmed(text: Seq<char>) -> Seq<char> {
    trimmed_end(trimmed_start(text))
}

/// The part of `characters` that is left without white space at either end.
pub fn trim<'a>(characters: &'a [char]) -> (result: &'a [char])
    ensures
        result@ == trimmed(characters@),
        result@.len() <= characters@.len(),
{
    let mut start: usize = 0;
    assert(characters@.skip(0) == characters@);
    while start < characters.len() && is_whitespace(characters[start])
        invariant
            start <= characters@.len(),
            trimmed_start(characters@.skip(start as int)) == trimmed_start(characters@),
        decreases characters@.len() - start,
    {
        assert(characters@.skip(start as int).drop_first() == characters@.skip(start + 1));
        start += 1;
    }
    let ghost rest = characters@.skip(start as int);
    assert(trimmed_start(characters@) == rest);
    let mut end: usize = characters.len();
    assert(characters@.subrange(start as int, end as int) == rest);
    while end > start && is_whitespace(characters[end - 1])
        invariant
            start <= end <= characters@.len(),
            trimmed_end(characters@.subrange(start as int, end as int)) == trimmed_end(rest),
        decreases end,
    {
        assert(characters@.subrange(start as int, end as int).drop_last() == characters@.subrange(
            start as int,
            end - 1,
        ));
        end -= 1;
    }
    slice_subrange(characters, start, end)
}

/// The position of the first `wanted` at or after the start of `text`, or its length.
pub open spec fn position_of(text: Seq<char>, wanted: char) -> int
    decreases text.len(),
{
    if text.len() == 0 || text[0] == wanted {
        0
    } else {
        1 + position_of(text.drop_first(), wanted)
    }
}

/// The position is inside the text or its end, and it is the first match.
pub proof fn lemma_position_of(text: Seq<char>, wanted: char)
    ensures
        0 <= position_of(text, wanted) <= text.len(),
        position_of(text, wanted) < text.len() ==> text[position_of(text, wanted)] == wanted,
        forall|i: int| 0 <= i < position_of(text, wanted) ==> text[i] != wanted,
        position_of(text, wanted) == text.len() <==> !text.contains(wanted),
    decreases text.len(),
{
    if text.len() > 0 && text[0] != wanted {
        lemma_position_of(text.drop_first(), wanted);
        let rest = text.drop_first();
        assert forall|i: int| 0 <= i < position_of(text, wanted) implies text[i] != wanted by {
            if i > 0 {
                assert(text[i] == rest[i - 1]);
            }
        }
        if text.contains(wanted) {
            let k = choose|k: int| 0 <= k < text.len() && text[k] == wanted;
            assert(rest[k - 1] == wanted);
            assert(rest.contains(wanted));
        }
        if rest.contains(wanted) {
            let k = choose|k: int| 0 <= k < rest.len() && rest[k] == wanted;
            assert(text[k + 1] == wanted);
        }
    } else if text.len() > 0 {
        assert(text[0] == wanted);
    }
}

pub fn find_char(characters: &[char], wanted: char) -> (result: usize)
    ensures
        result == position_of(characters@, wanted),
        result <= characters@.len(),
        result < characters@.len() ==> characters@[result as int] == wanted,
        result == characters@.len() <==> !characters@.contains(wanted),
{
    let mut i: usize = 0;
    assert(characters@.skip(0) == characters@);
    while i < characters.len() && characters[i] != wanted
        invariant
            i <= characters@.len(),
            position_of(characters@, wanted) == i + position_of(characters@.skip(i as int), wanted),
        decreases characters@.len() - i,
    {
        assert(characters@.skip(i as int).drop_first() == characters@.skip(i + 1));
        i += 1;
    }
    proof {
        lemma_position_of(characters@, wanted);
    }
    i
}

/// The lines of a text: each ends at a line feed, which is left out together
/// with a carriage return right before it.
pub open spec fn lines_of(text: Seq<char>) -> Seq<Seq<char>>
    decreases text.len(),
{
    if text.len() == 0 {
        Seq::empty()
    } else {
        let end = position_of(text, '\n');
        if 0 <= end < text.len() {
            seq![without_return(text.take(end))] + lines_of(text.skip(end + 1))
        } else {
            seq![text]
        }
    }
}

/// A line without the carriage return at its end.
pub open spec fn without_return(line: Seq<char>) -> Seq<char> {
    if line.len() > 0 && line.last() == '\r' {
        line.drop_last()
    } else {
        line
    }
}

/// The views of some slices.
pub open spec fn views(slices: Seq<&[char]>) -> Seq<Seq<char>> {
    Seq::new(slices.len(), |i: int| slices[i]@)
}

pub proof fn lemma_views_push(slices: Seq<&[char]>, next: &[char])
    ensures
        views(slices.push(next)) == views(slices).push(next@),
{
    assert(views(slices.push(next)) =~= views(slices).push(next@));
}

/// Splits a text into its lines.
pub fn split_lines<'a>(characters: &'a [char]) -> (result: Vec<&'a [char]>)
    ensures
        views(result@) == lines_of(characters@),
{
    let mut result: Vec<&'a [char]> = Vec::new();
    let mut start: usize = 0;
    assert(characters@.skip(0) == characters@);
    assert(views(result@) + lines_of(characters@) =~= lines_of(characters@));
    while start < characters.len()
        invariant
            start <= characters@.len(),
            views(result@) + lines_of(characters@.skip(start as int)) == lines_of(characters@),
        decreases characters@.len() - start,
    {
        let rest = slice_subrange(characters, start, characters.len());
        assert(rest@ == characters@.skip(start as int));
        let length = find_char(rest, '\n');
        let ghost before = result@;
        if length < rest.len() {
            let mut end: usize = length;
            if length > 0 && rest[length - 1] == '\r' {
                end = length - 1;
            }
            let line = slice_subrange(rest, 0, end);
            assert(line@ == without_return(rest@.take(length as int)));
            proof {
                lemma_views_push(before, line);
            }
            result.push(line);
            assert(rest@.skip(length + 1) == characters@.skip(start + length + 1));
            assert(views(before) + (seq![line@] + lines_of(rest@.skip(length + 1))) =~= views(
                before,
            ).push(line@) + lines_of(rest@.skip(length + 1)));
            start = start + length + 1;
        } else {
            proof {
                lemma_views_push(before, rest);
            }
            result.push(rest);
            start = characters.len();
            assert(characters@.skip(start as int).len() == 0);
            assert(views(before) + seq![rest@] =~= views(before).push(rest@) + lines_of(
                characters@.skip(start as int),
            ));
        }
    }
    assert(views(result@) + lines_of(characters@.skip(start as int)) =~= views(result@));
    result
}

/// The length of the longest prefix without white space.
pub open spec fn word_length(text: Seq<char>) -> int
    decreases text.len(),
{
    if text.len() == 0 || is_space(text[0]) {
        0
    } else {
        1 + word_length(text.drop_first())
    }
}

pub proof fn lemma_word_length(text: Seq<char>)
    ensures
        0 <= word_length(text) <= text.len(),
    decreases text.len(),
{
    if text.len() > 0 && !is_space(text[0]) {
        lemma_word_length(text.drop_first());
    }
}

pub proof fn lemma_trimmed_start(text: Seq<char>)
    ensures
        trimmed_start(text).len() <= text.len(),
        trimmed_start(text).len() > 0 ==> !is_space(trimmed_start(text)[0]),
    decreases text.len(),
{
    if text.len() > 0 && is_space(text[0]) {
        lemma_trimmed_start(text.drop_first());
    }
}

proof fn lemma_trimmed_end(text: Seq<char>)
    ensures
        trimmed_end(text).is_prefix_of(text),
        trimmed_end(text).len() > 0 ==> !is_space(trimmed_end(text).last()),
        trimmed_end(trimmed_end(text)) == trimmed_end(text),
    decreases text.len(),
{
    if text.len() > 0 && is_space(text.last()) {
        lemma_trimmed_end(text.drop_last());
    }
}

/// Trimming a second time changes nothing.
pub proof fn lemma_trimmed_twice(text: Seq<char>)
    ensures
        trimmed(trimmed(text)) == trimmed(text),
{
    lemma_trimmed_start(text);
    lemma_trimmed_end(trimmed_start(text));
    if trimmed(text).len() > 0 {
        assert(trimmed(text)[0] == trimmed_start(text)[0]);
        assert(trimmed_start(trimmed(text)) == trimmed(text));
    }
}

/// White space at the end of a text is trimmed.
pub proof fn lemma_trimmed_push(text: Seq<char>, space: char)
    requires
        is_space(space),
    ensures
        trimmed(text.push(space)) == trimmed(text),
    decreases text.len(),
{
    let longer = text.push(space);
    if text.len() == 0 {
        assert(longer.drop_first() =~= Seq::<char>::empty());
        reveal_with_fuel(trimmed_start, 2);
    } else if is_space(text[0]) {
        lemma_trimmed_push(text.drop_first(), space);
        assert(longer.drop_first() =~= text.drop_first().push(space));
    } else {
        assert(longer.drop_last() =~= text);
    }
}

/// Lines, each without the white space around it.
pub open spec fn trimmed_lines(lines: Seq<Seq<char>>) -> Seq<Seq<char>> {
    Seq::new(lines.len(), |i: int| trimmed(lines[i]))
}

/// A line feed separates the lines before it from those after it.
pub proof fn lemma_lines_join(first: Seq<char>, second: Seq<char>)
    ensures
        lines_of(first.push('\n') + second) == lines_of(first.push('\n')) + lines_of(second),
    decreases first.len(),
{
    let ended = first.push('\n');
    let whole = ended + second;
    lemma_position_of(ended, '\n');
    lemma_position_of(whole, '\n');
    let end = position_of(ended, '\n');
    assert(ended[first.len() as int] == '\n');
    assert(ended.contains('\n'));
    assert(whole[end] == '\n');
    assert(whole.contains('\n'));
    assert(position_of(whole, '\n') == end) by {
        if position_of(whole, '\n') < end {
            assert(whole[position_of(whole, '\n')] == ended[position_of(whole, '\n')]);
        }
    }
    assert(whole.take(end) =~= ended.take(end));
    if end == first.len() {
        assert(ended.skip(end + 1) =~= Seq::<char>::empty());
        assert(whole.skip(end + 1) =~= second);
        assert(lines_of(ended.skip(end + 1)) =~= Seq::<Seq<char>>::empty());
        assert(lines_of(whole) =~= lines_of(ended) + lines_of(second));
    } else {
        let rest = first.skip(end + 1);
        lemma_lines_join(rest, second);
        assert(ended.skip(end + 1) =~= rest.push('\n'));
        assert(whole.skip(end + 1) =~= rest.push('\n') + second);
        assert(lines_of(whole) =~= lines_of(ended) + lines_of(second));
    }
}

/// A line feed at the end of a text adds at most a blank line.
pub proof fn lemma_lines_ended(text: Seq<char>)
    ensures
        ({
            let lines = trimmed_lines(lines_of(text));
            let ended = trimmed_lines(lines_of(text.push('\n')));
            ended == lines || ended == lines.push(Seq::empty())
        }),
    decreases text.len(),
{
    let ended = text.push('\n');
    lemma_position_of(ended, '\n');
    lemma_position_of(text, '\n');
    let end = position_of(ended, '\n');
    assert(ended[text.len() as int] == '\n');
    assert(ended.contains('\n'));
    if end < text.len() {
        assert(text[end] == '\n');
        assert(text.contains('\n'));
        assert(position_of(text, '\n') == end) by {
            if position_of(text, '\n') < end {
                assert(ended[position_of(text, '\n')] == '\n');
            }
        }
        let rest = text.skip(end + 1);
        lemma_lines_ended(rest);
        assert(ended.skip(end + 1) =~= rest.push('\n'));
        assert(ended.take(end) =~= text.take(end));
        let head = without_return(text.take(end));
        let lines = trimmed_lines(lines_of(text));
        assert(lines =~= seq![trimmed(head)] + trimmed_lines(lines_of(rest)));
        assert(trimmed_lines(lines_of(ended)) =~= seq![trimmed(head)] + trimmed_lines(
            lines_of(rest.push('\n')),
        ));
        if trimmed_lines(lines_of(rest.push('\n'))) == trimmed_lines(lines_of(rest)).push(
            Seq::empty(),
        ) {
            assert(trimmed_lines(lines_of(ended)) =~= lines.push(Seq::empty()));
        }
    } else {
        assert(ended.take(end) =~= text);
        assert(ended.skip(end + 1) =~= Seq::<char>::empty());
        assert(lines_of(ended.skip(end + 1)) =~= Seq::<Seq<char>>::empty());
        assert(lines_of(ended) =~= seq![without_return(text)]);
        assert(!text.contains('\n')) by {
            if text.contains('\n') {
                let k = choose|k: int| 0 <= k < text.len() && text[k] == '\n';
                assert(ended[k] == '\n');
            }
        }
        if text.len() == 0 {
            assert(without_return(text) =~= Seq::<char>::empty());
            assert(trimmed(without_return(text)) =~= Seq::<char>::empty());
            assert(trimmed_lines(lines_of(ended)) =~= trimmed_lines(lines_of(text)).push(
                Seq::empty(),
            ));
        } else {
            assert(lines_of(text) =~= seq![text]);
            if text.last() == '\r' {
                assert(text =~= text.drop_last().push('\r'));
                lemma_trimmed_push(text.drop_last(), '\r');
            }
            assert(trimmed_lines(lines_of(ended)) =~= trimmed_lines(lines_of(text)));
        }
    }
}

/// The words of a text: its maximal parts without white space.
pub open spec fn words_of(text: Seq<char>) -> Seq<Seq<char>>
    decreases text.len(),
{
    let rest = trimmed_start(text);
    let length = word_length(rest);
    if rest.len() == 0 || length <= 0 || length > rest.len() || rest.len() > text.len() {
        Seq::empty()
    } else {
        seq![rest.take(length)] + words_of(rest.skip(length))
    }
}

/// Splits a text into its words.
pub fn split_words<'a>(characters: &'a [char]) -> (result: Vec<&'a [char]>)
    ensures
        views(result@) == words_of(characters@),
{
    let mut result: Vec<&'a [char]> = Vec::new();
    let mut start: usize = 0;
    assert(characters@.skip(0) == characters@);
    assert(views(result@) + words_of(characters@) =~= words_of(characters@));
    loop
        invariant
            start <= characters@.len(),
            views(result@) + words_of(characters@.skip(start as int)) == words_of(characters@),
        ensures
            views(result@) == words_of(characters@),
        decreases characters@.len() - start,
    {
        let ghost tail = characters@.skip(start as int);
        let ghost before = result@;
        while start < characters.len() && is_whitespace(characters[start])
            invariant
                start <= characters@.len(),
                trimmed_start(characters@.skip(start as int)) == trimmed_start(tail),
            decreases characters@.len() - start,
        {
            assert(characters@.skip(start as int).drop_first() == characters@.skip(start + 1));
            start += 1;
        }
        let ghost rest = characters@.skip(start as int);
        assert(trimmed_start(tail) == rest);
        proof {
            lemma_word_length(rest);
            lemma_trimmed_start(tail);
        }
        if start == characters.len() {
            assert(words_of(tail) =~= Seq::<Seq<char>>::empty());
            assert(views(before) + words_of(tail) =~= views(before));
            break;
        }
        let mut end: usize = start;
        while end < characters.len() && !is_whitespace(characters[end])
            invariant
                start <= end <= characters@.len(),
                rest == characters@.skip(start as int),
                word_length(rest) == end - start + word_length(characters@.skip(end as int)),
            decreases characters@.len() - end,
        {
            assert(characters@.skip(end as int).drop_first() == characters@.skip(end + 1));
            end += 1;
        }
        let word = slice_subrange(characters, start, end);
        assert(word@ == rest.take(end - start));
        assert(rest.skip(end - start) == characters@.skip(end as int));
        proof {
            lemma_views_push(before, word);
        }
        result.push(word);
        assert(words_of(tail) == seq![word@] + words_of(characters@.skip(end as int)));
        assert(views(before) + (seq![word@] + words_of(characters@.skip(end as int))) =~= views(
            before,
        ).push(word@) + words_of(characters@.skip(end as int)));
        start = end;
    }
    result
}

/// The value of a digit, letters counting on from ten; 36 for anything else.
pub open spec fn digit_value(character: char) -> int {
    let code = character as int;
    if '0' as int <= code <= '9' as int {
        code - '0' as int
    } else if 'a' as int <= code <= 'z' as int {
        code - 'a' as int + 10
    } else if 'A' as int <= code <= 'Z' as int {
        code - 'A' as int + 10
    } else {
        36
    }
}

pub fn digit(character: char) -> (result: u32)
    ensures
        result == digit_value(character),
        result <= 36,
{
    let code: u32 = character as u32;
    if '0' as u32 <= code && code <= '9' as u32 {
        code - '0' as u32
    } else if 'a' as u32 <= code && code <= 'z' as u32 {
        code - 'a' as u32 + 10
    } else if 'A' as u32 <= code && code <= 'Z' as u32 {
        code - 'A' as u32 + 10
    } else {
        36
    }
}

/// Whether every character is a digit of the given radix.
pub open spec fn all_digits(text: Seq<char>, radix: int) -> bool {
    forall|i: int| 0 <= i < text.len() ==> digit_value(#[trigger] text[i]) < radix
}

/// The number that a sequence of digits stands for.
pub open spec fn number_of(text: Seq<char>, radix: int) -> int
    decreases text.len(),
{
    if text.len() == 0 {
        0
    } else {
        number_of(text.drop_last(), radix) * radix + digit_value(text.last())
    }
}

/// The digits of an unsigned number, which may follow a plus sign.
pub open spec fn unsigned_digits(text: Seq<char>) -> Seq<char> {
    if text.len() > 1 && text[0] == '+' {
        text.drop_first()
    } else {
        text
    }
}

/// The unsigned number that a text stands for, if it is one and at most `limit`.
pub open spec fn unsigned_of(text: Seq<char>, radix: int, limit: int) -> Option<int> {
    let digits = unsigned_digits(text);
    if digits.len() > 0 && all_digits(digits, radix) && number_of(digits, radix) <= limit {
        Some(number_of(digits, radix))
    } else {
        None
    }
}

/// A prefix of the digits never stands for more than all of them.
pub proof fn lemma_number_of_prefix(text: Seq<char>, radix: int, length: int)
    requires
        all_digits(text, radix),
        0 <= length <= text.len(),
        1 <= radix,
    ensures
        0 <= number_of(text.take(length), radix) <= number_of(text, radix),
    decreases text.len(),
{
    if text.len() == 0 {
        assert(text.take(length) == text);
    } else {
        let shorter = text.drop_last();
        assert(all_digits(shorter, radix)) by {
            assert forall|i: int| 0 <= i < shorter.len() implies digit_value(#[trigger] shorter[i])
                < radix by {
                assert(shorter[i] == text[i]);
            }
        }
        let value = number_of(shorter, radix);
        lemma_number_of_prefix(shorter, radix, shorter.len() as int);
        assert(shorter.take(shorter.len() as int) == shorter);
        assert(value * radix >= value) by (nonlinear_arith)
            requires
                0 <= value,
                1 <= radix,
        ;
        if length == text.len() {
            assert(text.take(length) == text);
        } else {
            lemma_number_of_prefix(shorter, radix, length);
            assert(shorter.take(length) == text.take(length));
        }
    }
}

/// Reads an unsigned number in a radix from 2 to 36.
pub fn parse_unsigned(characters: &[char], radix: u32, limit: u64) -> (result: Option<u64>)
    requires
        2 <= radix <= 36,
    ensures
        match result {
            Some(value) => unsigned_of(characters@, radix as int, limit as int) == Some(
                value as int,
            ),
            None => unsigned_of(characters@, radix as int, limit as int) is None,
        },
{
    let digits = if characters.len() > 1 && characters[0] == '+' {
        slice_subrange(characters, 1, characters.len())
    } else {
        characters
    };
    assert(digits@ == unsigned_digits(characters@));
    if digits.len() == 0 {
        return None;
    }
    let mut value: u64 = 0;
    let mut i: usize = 0;
    while i < digits.len()
        invariant
            2 <= radix <= 36,
            i <= digits@.len(),
            digits@ == unsigned_digits(characters@),
            forall|k: int| 0 <= k < i ==> digit_value(#[trigger] digits@[k]) < radix,
            value == number_of(digits@.take(i as int), radix as int),
            value <= limit,
        decreases digits@.len() - i,
    {
        let next: u32 = digit(digits[i]);
        if next >= radix {
            return None;
        }
        let ghost longer = digits@.take(i + 1);
        assert(longer.drop_last() == digits@.take(i as int));
        assert(number_of(longer, radix as int) == value * radix + next);
        assert(value * radix + next <= 0xffff_ffff_ffff_ffff * 36 + 36) by (nonlinear_arith)
            requires
                value <= 0xffff_ffff_ffff_ffff,
                radix <= 36,
                next <= 36,
        ;
        assert(0 <= value * radix) by (nonlinear_arith)
            requires
                0 <= value,
                0 <= radix,
        ;
        let wide: u128 = value as u128 * radix as u128 + next as u128;
        if wide > limit as u128 {
            proof {
                if all_digits(digits@, radix as int) {
                    lemma_number_of_prefix(digits@, radix as int, i + 1);
                }
            }
            return None;
        }
        value = wide as u64;
        i += 1;
    }
    assert(digits@.take(i as int) == digits@);
    Some(value)
}

/// The decimal digit of a number below ten.
pub open spec fn decimal_digit(value: int) -> char {
    (('0' as int) + value) as char
}

/// A number written in decimal.
pub open spec fn decimal(value: nat) -> Seq<char>
    decreases value,
{
    if value < 10 {
        seq![decimal_digit(value as int)]
    } else {
        decimal(value / 10).push(decimal_digit((value % 10) as int))
    }
}

/// Appends a number in decimal.
pub fn push_decimal(text: &mut String, value: u64)
    ensures
        final(text)@ == old(text)@ + decimal(value as nat),
    decreases value,
{
    if value < 10 {
        text.push((48u8 + value as u8) as char);
        assert(text@ =~= old(text)@ + decimal(value as nat));
    } else {
        push_decimal(text, value / 10);
        text.push((48u8 + (value % 10) as u8) as char);
        assert(text@ =~= old(text)@ + decimal(value as nat));
    }
}

/// Whether `text` begins with `prefix`.
pub open spec fn starts(text: Seq<char>, prefix: Seq<char>) -> bool {
    text.len() >= prefix.len() && text.take(prefix.len() as int) == prefix
}

/// What follows a prefix, if the text begins with it.
pub open spec fn after_prefix(text: Seq<char>, prefix: Seq<char>) -> Option<Seq<char>> {
    if starts(text, prefix) {
        Some(text.skip(prefix.len() as int))
    } else {
        None
    }
}

/// The view of an optional slice.
pub open spec fn slice_view(slice: Option<&[char]>) -> Option<Seq<char>> {
    match slice {
        Some(slice) => Some(slice@),
        None => None,
    }
}

pub fn strip_prefix<'a>(characters: &'a [char], prefix: &str) -> (result: Option<&'a [char]>)
    ensures
        slice_view(result) == after_prefix(characters@, prefix@),
{
    let wanted = chars_of(prefix);
    if characters.len() < wanted.len() {
        return None;
    }
    let head = slice_subrange(characters, 0, wanted.len());
    if same(head, wanted.as_slice()) {
        let rest = slice_subrange(characters, wanted.len(), characters.len());
        assert(rest@ == characters@.skip(prefix@.len() as int));
        Some(rest)
    } else {
        None
    }
}

/// The number of bytes that a character takes in UTF-8.
pub open spec fn utf8_length(character: char) -> int {
    let code = character as int;
    if code < 0x80 {
        1
    } else if code < 0x800 {
        2
    } else if code < 0x10000 {
        3
    } else {
        4
    }
}

/// The number of bytes that a text takes in UTF-8.
pub open spec fn byte_length(text: Seq<char>) -> int
    decreases text.len(),
{
    if text.len() == 0 {
        0
    } else {
        byte_length(text.drop_last()) + utf8_length(text.last())
    }
}

pub proof fn lemma_byte_length(text: Seq<char>)
    ensures
        text.len() <= byte_length(text) <= 4 * text.len(),
        byte_length(text) == text.len() <==> is_ascii_text(text),
    decreases text.len(),
{
    if text.len() > 0 {
        let shorter = text.drop_last();
        lemma_byte_length(shorter);
        if is_ascii_text(text) {
            assert forall|i: int| 0 <= i < shorter.len() implies (#[trigger] shorter[i] as int)
                < 0x80 by {
                assert(shorter[i] == text[i]);
            }
            assert((text[text.len() - 1] as int) < 0x80);
        } else if byte_length(text) == text.len() {
            assert(is_ascii_text(shorter));
            assert forall|i: int| 0 <= i < text.len() implies (#[trigger] text[i] as int)
                < 0x80 by {
                if i < shorter.len() {
                    assert(text[i] == shorter[i]);
                }
            }
        }
    }
}

/// Whether all characters are ASCII.
pub open spec fn is_ascii_text(text: Seq<char>) -> bool {
    forall|i: int| 0 <= i < text.len() ==> (#[trigger] text[i] as int) < 0x80
}

pub fn encoded_length(character: char) -> (result: usize)
    ensures
        result == utf8_length(character),
{
    let code: u32 = character as u32;
    if code < 0x80 {
        1
    } else if code < 0x800 {
        2
    } else if code < 0x10000 {
        3
    } else {
        4
    }
}

/// Whether a text takes at most `limit` bytes in UTF-8.
pub fn fits_bytes(characters: &[char], limit: usize) -> (result: bool)
    requires
        limit <= usize::MAX - 4,
    ensures
        result == (byte_length(characters@) <= limit),
{
    let mut total: usize = 0;
    let mut i: usize = 0;
    while i < characters.len()
        invariant
            i <= characters@.len(),
            total == byte_length(characters@.take(i as int)),
            total <= limit,
            limit <= usize::MAX - 4,
        decreases characters@.len() - i,
    {
        let length: usize = encoded_length(characters[i]);
        assert(characters@.take(i + 1).drop_last() == characters@.take(i as int));
        total += length;
        i += 1;
        if total > limit {
            proof {
                lemma_byte_length_prefix(characters@, i as int);
            }
            return false;
        }
    }
    assert(characters@.take(i as int) == characters@);
    true
}

pub proof fn lemma_byte_length_prefix(text: Seq<char>, length: int)
    requires
        0 <= length <= text.len(),
    ensures
        byte_length(text.take(length)) <= byte_length(text),
    decreases text.len(),
{
    if length == text.len() {
        assert(text.take(length) == text);
    } else {
        lemma_byte_length_prefix(text.drop_last(), length);
        assert(text.drop_last().take(length) == text.take(length));
    }
}

/// Unicode's control characters.
pub open spec fn is_control_char(character: char) -> bool {
    (character as int) < 0x20 || 0x7f <= (character as int) < 0xa0
}

pub fn is_control(character: char) -> (result: bool)
    ensures
        result == is_control_char(character),
{
    let code: u32 = character as u32;
    code < 0x20 || (0x7f <= code && code < 0xa0)
}

/// An ASCII letter or digit.
pub open spec fn is_ascii_word(character: char) -> bool {
    digit_value(character) < 36
}

/// The lowercase form that std gives to a text.
pub uninterp spec fn lowercase(text: Seq<char>) -> Seq<char>;

/// `str::to_lowercase`. The result depends on the text alone; which characters
/// it maps to which is left to std's Unicode tables.
#[verifier::external_body]
pub(crate) fn to_lowercase(text: &str) -> (result: String)
    ensures
        result@ == lowercase(text@),
{
    text.to_lowercase()
}

/// The uppercase form that std gives to a text.
pub uninterp spec fn uppercase(text: Seq<char>) -> Seq<char>;

/// `str::to_uppercase`. The result depends on the text alone; which characters
/// it maps to which is left to std's Unicode tables.
#[verifier::external_body]
pub(crate) fn to_uppercase(text: &str) -> (result: String)
    ensures
        result@ == uppercase(text@),
{
    text.to_uppercase()
}

/// Whether std counts a character as a letter or a number.
pub uninterp spec fn alphanumeric(character: char) -> bool;

/// `char::is_alphanumeric`. The result depends on the character alone; which
/// characters are letters or numbers is left to std's Unicode tables.
#[verifier::external_body]
pub(crate) fn is_alphanumeric(character: char) -> (result: bool)
    ensures
        result == alphanumeric(character),
{
    character.is_alphanumeric()
}

/// The views of some strings.
pub open spec fn string_views(strings: Seq<String>) -> Seq<Seq<char>> {
    Seq::new(strings.len(), |i: int| strings[i]@)
}

pub proof fn lemma_string_views_push(strings: Seq<String>, next: String)
    ensures
        string_views(strings.push(next)) == string_views(strings).push(next@),
{
    assert(string_views(strings.push(next)) =~= string_views(strings).push(next@));
}

/// Whether a text is among some strings.
pub fn contains_text(strings: &Vec<String>, text: &str) -> (result: bool)
    ensures
        result == string_views(strings@).contains(text@),
{
    let mut i: usize = 0;
    while i < strings.len()
        invariant
            i <= strings@.len(),
            forall|k: int| 0 <= k < i ==> (#[trigger] strings@[k])@ != text@,
        decreases strings@.len() - i,
    {
        if same_text(strings[i].as_str(), text) {
            assert(string_views(strings@)[i as int] == text@);
            return true;
        }
        i += 1;
    }
    assert forall|k: int| 0 <= k < strings@.len() implies string_views(strings@)[k] != text@ by {
        assert(strings@[k]@ != text@);
    }
    false
}

/// The first occurrence of each text, in order.
pub open spec fn distinct(texts: Seq<Seq<char>>) -> Seq<Seq<char>>
    decreases texts.len(),
{
    if texts.len() == 0 {
        Seq::empty()
    } else {
        let before = distinct(texts.drop_last());
        if before.contains(texts.last()) {
            before
        } else {
            before.push(texts.last())
        }
    }
}

/// `distinct` keeps every text and repeats none.
pub proof fn lemma_distinct(texts: Seq<Seq<char>>)
    ensures
        distinct(texts).no_duplicates(),
        forall|text: Seq<char>| #[trigger]
            distinct(texts).contains(text) <==> texts.contains(text),
    decreases texts.len(),
{
    if texts.len() > 0 {
        let shorter = texts.drop_last();
        lemma_distinct(shorter);
        let before = distinct(shorter);
        assert forall|text: Seq<char>| #[trigger]
            distinct(texts).contains(text) <==> texts.contains(text) by {
            assert(before.contains(text) <==> shorter.contains(text));
            if distinct(texts).contains(text) {
                let k = choose|k: int| 0 <= k < distinct(texts).len() && distinct(texts)[k] == text;
                if k < before.len() {
                    assert(before[k] == text);
                    assert(before.contains(text));
                    let j = choose|j: int| 0 <= j < shorter.len() && shorter[j] == text;
                    assert(texts[j] == text);
                } else {
                    assert(texts[texts.len() - 1] == text);
                }
            }
            if texts.contains(text) {
                let j = choose|j: int| 0 <= j < texts.len() && texts[j] == text;
                if j < shorter.len() {
                    assert(shorter[j] == text);
                    assert(shorter.contains(text));
                    assert(before.contains(text));
                    let k = choose|k: int| 0 <= k < before.len() && before[k] == text;
                    assert(distinct(texts)[k] == text);
                } else if before.contains(text) {
                    let k = choose|k: int| 0 <= k < before.len() && before[k] == text;
                    assert(distinct(texts)[k] == text);
                } else {
                    assert(distinct(texts)[before.len() as int] == text);
                }
            }
        }
    }
}

/// The first occurrence of each string, in order.
pub fn distinct_strings(strings: &Vec<String>) -> (result: Vec<String>)
    ensures
        string_views(result@) == distinct(string_views(strings@)),
{
    let ghost all = string_views(strings@);
    let mut result: Vec<String> = Vec::new();
    let mut i: usize = 0;
    assert(all.take(0) =~= Seq::<Seq<char>>::empty());
    assert(string_views(result@) =~= distinct(all.take(0)));
    while i < strings.len()
        invariant
            i <= strings@.len(),
            all == string_views(strings@),
            string_views(result@) == distinct(all.take(i as int)),
        decreases strings@.len() - i,
    {
        assert(all.take(i + 1).drop_last() =~= all.take(i as int));
        assert(all.take(i + 1).last() == strings@[i as int]@);
        if !contains_text(&result, strings[i].as_str()) {
            let next = strings[i].clone();
            proof {
                lemma_string_views_push(result@, next);
            }
            result.push(next);
        }
        i += 1;
    }
    assert(all.take(i as int) =~= all);
    result
}

/// The position after the last `wanted`, or 0 where there is none.
pub open spec fn after_last(text: Seq<char>, wanted: char) -> int
    decreases text.len(),
{
    if text.len() == 0 {
        0
    } else if text.last() == wanted {
        text.len() as int
    } else {
        after_last(text.drop_last(), wanted)
    }
}

pub fn find_after_last(characters: &[char], wanted: char) -> (result: usize)
    ensures
        result == after_last(characters@, wanted),
        result <= characters@.len(),
        result > 0 ==> characters@[result - 1] == wanted,
        forall|k: int| result <= k < characters@.len() ==> characters@[k] != wanted,
{
    let mut end: usize = characters.len();
    assert(characters@.take(end as int) == characters@);
    while end > 0 && characters[end - 1] != wanted
        invariant
            end <= characters@.len(),
            after_last(characters@.take(end as int), wanted) == after_last(characters@, wanted),
            forall|k: int| end <= k < characters@.len() ==> characters@[k] != wanted,
        decreases end,
    {
        assert(characters@.take(end as int).drop_last() == characters@.take(end - 1));
        end -= 1;
    }
    end
}

/// Whether `text` ends with `suffix`.
pub open spec fn ends(text: Seq<char>, suffix: Seq<char>) -> bool {
    text.len() >= suffix.len() && text.skip(text.len() - suffix.len()) == suffix
}

/// What comes before a suffix, if the text ends with it.
pub open spec fn before_suffix(text: Seq<char>, suffix: Seq<char>) -> Option<Seq<char>> {
    if ends(text, suffix) {
        Some(text.take(text.len() - suffix.len()))
    } else {
        None
    }
}

pub fn strip_suffix<'a>(characters: &'a [char], suffix: &str) -> (result: Option<&'a [char]>)
    ensures
        slice_view(result) == before_suffix(characters@, suffix@),
{
    let wanted = chars_of(suffix);
    if characters.len() < wanted.len() {
        return None;
    }
    let split: usize = characters.len() - wanted.len();
    let tail = slice_subrange(characters, split, characters.len());
    assert(tail@ == characters@.skip(split as int));
    if same(tail, wanted.as_slice()) {
        let head = slice_subrange(characters, 0, split);
        assert(head@ == characters@.take(split as int));
        Some(head)
    } else {
        None
    }
}

/// Appends characters.
pub fn push_chars(text: &mut String, characters: &[char])
    ensures
        final(text)@ == old(text)@ + characters@,
{
    let mut i: usize = 0;
    while i < characters.len()
        invariant
            i <= characters@.len(),
            text@ == old(text)@ + characters@.take(i as int),
        decreases characters@.len() - i,
    {
        text.push(characters[i]);
        assert(old(text)@ + characters@.take(i + 1) =~= (old(text)@ + characters@.take(
            i as int,
        )).push(characters@[i as int]));
        i += 1;
    }
    assert(characters@.take(i as int) =~= characters@);
}

/// The lowercase form of an ASCII letter; any other character as it is.
pub open spec fn ascii_lower(character: char) -> char {
    if 'A' as int <= character as int <= 'Z' as int {
        (character as int + 32) as char
    } else {
        character
    }
}

pub fn to_ascii_lower(character: char) -> (result: char)
    ensures
        result == ascii_lower(character),
{
    let code: u32 = character as u32;
    if 'A' as u32 <= code && code <= 'Z' as u32 {
        (code as u8 + 32) as char
    } else {
        character
    }
}

/// Whether two texts differ at most in the case of ASCII letters.
pub open spec fn same_but_case(left: Seq<char>, right: Seq<char>) -> bool {
    left.len() == right.len() && forall|i: int|
        0 <= i < left.len() ==> ascii_lower(#[trigger] left[i]) == ascii_lower(right[i])
}

pub fn same_ignoring_case(left: &str, right: &str) -> (result: bool)
    ensures
        result == same_but_case(left@, right@),
{
    let a = chars_of(left);
    let b = chars_of(right);
    if a.len() != b.len() {
        return false;
    }
    let mut i: usize = 0;
    while i < a.len()
        invariant
            i <= a@.len(),
            a@ == left@,
            b@ == right@,
            a@.len() == b@.len(),
            forall|k: int| 0 <= k < i ==> ascii_lower(#[trigger] a@[k]) == ascii_lower(b@[k]),
        decreases a@.len() - i,
    {
        if to_ascii_lower(a[i]) != to_ascii_lower(b[i]) {
            assert(ascii_lower(a@[i as int]) != ascii_lower(b@[i as int]));
            return false;
        }
        i += 1;
    }
    true
}

/// The position of the first `pattern` in a text, if it is there.
pub open spec fn found_at(text: Seq<char>, pattern: Seq<char>, start: int) -> Option<int>
    decreases text.len() - start + 1,
{
    if start < 0 || start + pattern.len() > text.len() {
        None
    } else if text.subrange(start, start + pattern.len()) == pattern {
        Some(start)
    } else {
        found_at(text, pattern, start + 1)
    }
}

pub fn find_text(characters: &[char], pattern: &str) -> (result: Option<usize>)
    ensures
        match result {
            Some(place) => found_at(characters@, pattern@, 0) == Some(place as int) && place
                + pattern@.len() <= characters@.len(),
            None => found_at(characters@, pattern@, 0) is None,
        },
{
    let wanted = chars_of(pattern);
    if wanted.len() > characters.len() {
        return None;
    }
    let last: usize = characters.len() - wanted.len();
    let mut i: usize = 0;
    while i <= last
        invariant
            wanted@ == pattern@,
            wanted@.len() <= characters@.len(),
            last == characters@.len() - wanted@.len(),
            i <= last + 1,
            last < usize::MAX || wanted@.len() == 0,
            last <= usize::MAX - wanted@.len(),
            found_at(characters@, pattern@, 0) == found_at(characters@, pattern@, i as int),
        decreases last + 1 - i,
    {
        let part = slice_subrange(characters, i, i + wanted.len());
        if same(part, wanted.as_slice()) {
            return Some(i);
        }
        if i == last {
            assert(found_at(characters@, pattern@, i + 1) is None);
            return None;
        }
        i += 1;
    }
    None
}

} // verus!
