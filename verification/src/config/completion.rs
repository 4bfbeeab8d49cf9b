//! Completion of a settings file with the settings that it does not name.

use vstd::prelude::*;
use vstd::slice::slice_subrange;

use crate::text::{
    all_digits, chars_of, contains_text, digit, digit_value, find_char, lemma_position_of,
    lemma_string_views_push, lines_of, position_of, push_chars, same, string_of, string_views, trim,
    trimmed, trimmed_start,
};

verus! {

/// The settings file that is written where there is none.
pub const DEFAULT_CONFIG: &'static str = "# Height of the bar in logical pixels, 16 to 256.
height = 28

# Font of all texts, and its size in logical pixels, 6 to 96.
font_family = 'Fira Code Medium'
font_size = 8.0

# Colors are written as #RRGGBB or #RRGGBBAA.
background = '#282828'
foreground = '#DCDCCC'

# Distance of the status group from the screen edge.
padding = 8

tray_icon_size = 18
tray_spacing = 6
# Hide the tray icons behind a chevron that expands on hover.
tray_drawer = false
# Length of the drawer's animation; 0 switches at once.
tray_drawer_duration_ms = 600

workspace_width = 28
workspace_focused_background = '#3C3836'
workspace_active_background = '#6F6F6F'
workspace_active_foreground = '#F0DFAF'
workspace_occupied_foreground = '#DCDCCC'
workspace_empty_foreground = '#6F6F6F'
workspace_urgent_foreground = '#CC9393'

# Show what MPRIS players play.
media_enabled = true

# Show the windows of the active workspace; needs a centered clock.
show_tasks = false
task_icon_size = 18
task_spacing = 2
task_padding = 6
task_background = '#282828'
task_focused_background = '#3C3836'
task_urgent_background = '#282828'
task_foreground = '#DCDCCC'
task_focused_foreground = '#F0DFAF'

# Show a weather icon beside the clock.
weather_enabled = false
# Name of a city; empty for the location of the public IP address.
weather_location = ''
# Exact coordinates take priority over the city:
# weather_latitude = 60.1695
# weather_longitude = 24.9354

# 'metric' or 'imperial'
weather_units = 'metric'
# 5 to 1440
weather_refresh_minutes = 15
weather_background = '#282828F2'
weather_foreground = '#DCDCCC'
weather_muted = '#6F6F6F'
weather_accent = '#F0DFAF'
weather_border = '#6F6F6F'

# Show a network icon beside the keyboard layout.
network_enabled = false
# Name of an interface; empty for the one of the default route.
network_interface = ''
# Numeric IP address.
network_ping_target = '1.1.1.1'
network_background = '#282828F2'
network_foreground = '#DCDCCC'
network_muted = '#6F6F6F'
network_accent = '#F0DFAF'
network_border = '#6F6F6F'

# Date and time in strftime syntax.
clock_format = '%a %b %d, %H:%M'
# 'right' or 'center'
clock_position = 'right'

# Open a calendar on a click on the clock.
calendar_enabled = true
calendar_background = '#282828F2'
calendar_foreground = '#DCDCCC'
calendar_header = '#F0DFAF'
calendar_weekday = '#DCDCCC'
calendar_weekend = '#CC9393'
calendar_muted = '#6F6F6F'
calendar_today_background = '#3C3836'
calendar_today_foreground = '#F0DFAF'
calendar_border = '#6F6F6F'

# Name of an icon theme; without it the theme of GTK is used:
# icon_theme = 'Papirus'
";

/// Why no completed settings file can be given.
#[derive(Clone, Copy, Debug, PartialEq, Eq, Structural)]
pub enum CompletionError {
    /// The settings file is not TOML.
    Syntax,
    /// A line of the template is neither blank, a comment nor a setting, or a
    /// setting is there twice.
    Template,
}

/// Whether a character is no control character.
pub open spec fn is_printable(character: char) -> bool {
    character as u32 >= 0x20 && character as u32 != 0x7f
}

/// Whether every character is printable.
pub open spec fn all_printable(text: Seq<char>) -> bool {
    forall|i: int| 0 <= i < text.len() ==> is_printable(#[trigger] text[i])
}

fn printable(text: &[char]) -> (result: bool)
    ensures
        result == all_printable(text@),
{
    let mut i: usize = 0;
    while i < text.len()
        invariant
            i <= text@.len(),
            forall|k: int| 0 <= k < i ==> is_printable(#[trigger] text@[k]),
        decreases text@.len() - i,
    {
        let code: u32 = text[i] as u32;
        if code < 0x20 || code == 0x7f {
            assert(!is_printable(text@[i as int]));
            return false;
        }
        i += 1;
    }
    true
}

/// Whether a line, with its line feed, is a comment.
pub open spec fn is_comment(line: Seq<char>) -> bool {
    line.len() >= 2 && line[0] == '#' && line.last() == '\n' && all_printable(line.drop_last())
}

fn comment_line(line: &[char]) -> (result: bool)
    ensures
        result == is_comment(line@),
{
    if line.len() < 2 || line[0] != '#' || line[line.len() - 1] != '\n' {
        return false;
    }
    let text = slice_subrange(line, 0, line.len() - 1);
    assert(text@ =~= line@.drop_last());
    printable(text)
}

/// Whether a text is a key: letters, digits, underscores and hyphens.
pub open spec fn is_key(text: Seq<char>) -> bool {
    text.len() > 0 && forall|i: int|
        0 <= i < text.len() ==> digit_value(#[trigger] text[i]) < 36 || text[i] == '_' || text[i]
            == '-'
}

fn key_text(text: &[char]) -> (result: bool)
    ensures
        result == is_key(text@),
{
    let mut i: usize = 0;
    while i < text.len()
        invariant
            i <= text@.len(),
            forall|k: int|
                0 <= k < i ==> digit_value(#[trigger] text@[k]) < 36 || text@[k] == '_' || text@[k]
                    == '-',
        decreases text@.len() - i,
    {
        if digit(text[i]) >= 36 && text[i] != '_' && text[i] != '-' {
            assert(digit_value(text@[i as int]) >= 36);
            return false;
        }
        i += 1;
    }
    text.len() > 0
}

/// Whether a text is printable and in apostrophes.
pub open spec fn is_quoted(text: Seq<char>) -> bool {
    text.len() >= 2 && text[0] == '\'' && text.last() == '\'' && all_printable(text) && forall|i: int|
        0 < i < text.len() - 1 ==> #[trigger] text[i] != '\''
}

fn quoted(text: &[char]) -> (result: bool)
    ensures
        result == is_quoted(text@),
{
    if text.len() < 2 || text[0] != '\'' || text[text.len() - 1] != '\'' || !printable(text) {
        return false;
    }
    let mut i: usize = 1;
    while i < text.len() - 1
        invariant
            1 <= i <= text@.len() - 1,
            forall|k: int| 0 < k < i ==> #[trigger] text@[k] != '\'',
        decreases text@.len() - i,
    {
        if text[i] == '\'' {
            return false;
        }
        i += 1;
    }
    true
}

fn decimal_digits(text: &[char]) -> (result: bool)
    ensures
        result == all_digits(text@, 10),
{
    let mut i: usize = 0;
    while i < text.len()
        invariant
            i <= text@.len(),
            forall|k: int| 0 <= k < i ==> digit_value(#[trigger] text@[k]) < 10,
        decreases text@.len() - i,
    {
        if digit(text[i]) >= 10 {
            assert(digit_value(text@[i as int]) >= 10);
            return false;
        }
        i += 1;
    }
    true
}

/// Whether a text is a positive number of at most eighteen characters, with or
/// without a fraction.
pub open spec fn is_number(text: Seq<char>) -> bool {
    let point = position_of(text, '.');
    &&& text.len() <= 18
    &&& 0 < point <= text.len()
    &&& text[0] != '0'
    &&& all_digits(text.take(point), 10)
    &&& point < text.len() ==> point + 1 < text.len() && all_digits(text.skip(point + 1), 10)
}

fn number(text: &[char]) -> (result: bool)
    ensures
        result == is_number(text@),
{
    let point = find_char(text, '.');
    if text.len() > 18 || point == 0 || text[0] == '0' {
        return false;
    }
    let whole = slice_subrange(text, 0, point);
    assert(whole@ =~= text@.take(point as int));
    if !decimal_digits(whole) {
        return false;
    }
    if point == text.len() {
        return true;
    }
    let fraction = slice_subrange(text, point + 1, text.len());
    assert(fraction@ =~= text@.skip(point + 1));
    fraction.len() > 0 && decimal_digits(fraction)
}

/// Whether a text is a plain value: a truth value, a text or a number.
pub open spec fn is_value(text: Seq<char>) -> bool {
    text == "true"@ || text == "false"@ || is_quoted(text) || is_number(text)
}

fn value(text: &[char]) -> (result: bool)
    ensures
        result == is_value(text@),
{
    let yes = chars_of("true");
    let no = chars_of("false");
    same(text, yes.as_slice()) || same(text, no.as_slice()) || quoted(text) || number(text)
}

/// The key of a line, with its line feed, that gives a setting a plain value.
pub open spec fn setting_key(line: Seq<char>) -> Option<Seq<char>> {
    let equals = position_of(line, '=');
    if 2 <= equals && equals + 2 < line.len() && line.last() == '\n' && line[equals - 1] == ' '
        && line[equals + 1] == ' ' && is_key(line.take(equals - 1)) && is_value(
        line.subrange(equals + 2, line.len() - 1),
    ) {
        Some(line.take(equals - 1))
    } else {
        None
    }
}

fn read_key<'a>(line: &'a [char]) -> (result: Option<&'a [char]>)
    ensures
        match result {
            Some(key) => setting_key(line@) == Some(key@),
            None => setting_key(line@) is None,
        },
{
    let equals = find_char(line, '=');
    if equals < 2 || line.len() < 3 || equals >= line.len() - 2 || line[line.len() - 1] != '\n'
        || line[equals - 1] != ' ' || line[equals + 1] != ' ' {
        return None;
    }
    let key = slice_subrange(line, 0, equals - 1);
    assert(key@ =~= line@.take(equals - 1));
    let text = slice_subrange(line, equals + 2, line.len() - 1);
    assert(text@ =~= line@.subrange(equals + 2, line@.len() - 1));
    if key_text(key) && value(text) {
        Some(key)
    } else {
        None
    }
}

/// The first line of a text with its line feed.
pub open spec fn first_line(text: Seq<char>) -> Seq<char> {
    let end = position_of(text, '\n');
    if 0 <= end < text.len() {
        text.take(end + 1)
    } else {
        text
    }
}

/// The keys that a text sets, if each of its lines is empty, a comment or gives a
/// setting a plain value.
pub open spec fn plain_settings(text: Seq<char>) -> Option<Seq<Seq<char>>>
    decreases text.len(),
{
    let line = first_line(text);
    if text.len() == 0 || line.len() == 0 || line.len() > text.len() {
        Some(Seq::empty())
    } else {
        match plain_settings(text.skip(line.len() as int)) {
            Some(keys) => if line == seq!['\n'] || is_comment(line) {
                Some(keys)
            } else {
                match setting_key(line) {
                    Some(key) => Some(seq![key] + keys),
                    None => None,
                }
            },
            None => None,
        }
    }
}

/// The settings at the top level of a document, each a key and the text that toml
/// writes for its value, or `None` if the document is not TOML.
pub uninterp spec fn toml_settings(source: Seq<char>) -> Option<Seq<(Seq<char>, Seq<char>)>>;

/// The keys of some settings.
pub open spec fn keys_of(settings: Seq<(Seq<char>, Seq<char>)>) -> Seq<Seq<char>> {
    Seq::new(settings.len(), |i: int| settings[i].0)
}

/// The views of some settings.
pub open spec fn setting_views(settings: Seq<(String, String)>) -> Seq<(Seq<char>, Seq<char>)> {
    Seq::new(settings.len(), |i: int| (settings[i].0@, settings[i].1@))
}

/// The view of optional settings.
pub open spec fn optional_views(settings: Option<Vec<(String, String)>>) -> Option<
    Seq<(Seq<char>, Seq<char>)>,
> {
    match settings {
        Some(settings) => Some(setting_views(settings@)),
        None => None,
    }
}

/// A text without the byte order mark that it may begin with.
pub open spec fn unmarked(text: Seq<char>) -> Seq<char> {
    if text.len() > 0 && text[0] == '\u{feff}' {
        text.drop_first()
    } else {
        text
    }
}

/// Whether no line of a text begins with a bracket, as the header of a table does.
pub open spec fn has_no_tables(text: Seq<char>) -> bool {
    let lines = lines_of(unmarked(text));
    forall|i: int|
        0 <= i < lines.len() ==> {
            let line = trimmed_start(#[trigger] lines[i]);
            line.len() == 0 || line[0] != '['
        }
}

/// Whether no text is there twice.
pub open spec fn all_distinct(texts: Seq<Seq<char>>) -> bool {
    forall|i: int, j: int| 0 <= i < j < texts.len() ==> #[trigger] texts[i] != #[trigger] texts[j]
}

/// A document that names what two lists of settings and keys name: the settings
/// with their values, the keys with some value, and nothing else.
pub open spec fn has_both(
    text: Seq<char>,
    settings: Seq<(Seq<char>, Seq<char>)>,
    keys: Seq<Seq<char>>,
) -> bool {
    match toml_settings(text) {
        Some(all) => {
            &&& forall|i: int| 0 <= i < settings.len() ==> all.contains(#[trigger] settings[i])
            &&& forall|i: int| 0 <= i < keys.len() ==> keys_of(all).contains(#[trigger] keys[i])
            &&& forall|i: int|
                0 <= i < all.len() ==> settings.contains(#[trigger] all[i]) || keys.contains(
                    all[i].0,
                )
        },
        None => false,
    }
}

/// A document without tables can be followed by lines that give plain values to
/// other settings, each once: the whole has the settings of both.
pub open spec fn can_be_continued(
    source: Seq<char>,
    settings: Seq<(Seq<char>, Seq<char>)>,
    addition: Seq<char>,
) -> bool {
    match plain_settings(addition) {
        Some(keys) => has_no_tables(source) && all_distinct(keys) && (
        forall|i: int| 0 <= i < keys.len() ==> !keys_of(settings).contains(#[trigger] keys[i]))
            ==> has_both(source.push('\n') + addition, settings, keys),
        None => true,
    }
}

/// `toml::from_str` into a `toml::Table`, whose keys and values are handed out, the
/// values as `toml::Value` displays them.
///
/// The result depends on the document alone: the settings of its top level, or
/// `None` where toml reports an error. A document is a list of lines with settings,
/// comments and headers, and a setting belongs to the header before it, if there is
/// one. So lines that give plain values to other settings can follow a document
/// without headers: its own settings keep their values, and the others are added.
#[verifier::external_body]
fn table_settings(source: &str) -> (result: Option<Vec<(String, String)>>)
    ensures
        optional_views(result) == toml_settings(source@),
        result matches Some(settings) ==> forall|addition: Seq<char>| #[trigger]
            can_be_continued(source@, setting_views(settings@), addition),
{
    let table = toml::from_str::<toml::Table>(source).ok()?;
    Some(table.iter().map(|(key, value)| (key.clone(), value.to_string())).collect())
}

/// The keys of some settings.
fn setting_keys(settings: &Vec<(String, String)>) -> (result: Vec<String>)
    ensures
        string_views(result@) == keys_of(setting_views(settings@)),
{
    let mut keys: Vec<String> = Vec::new();
    let mut i: usize = 0;
    let ghost all = keys_of(setting_views(settings@));
    assert(string_views(keys@) =~= all.take(0));
    while i < settings.len()
        invariant
            i <= settings@.len(),
            all == keys_of(setting_views(settings@)),
            string_views(keys@) == all.take(i as int),
        decreases settings@.len() - i,
    {
        let key = settings[i].0.clone();
        proof {
            lemma_string_views_push(keys@, key);
            assert(all.take(i + 1) =~= all.take(i as int).push(key@));
        }
        keys.push(key);
        i += 1;
    }
    assert(all.take(i as int) =~= all);
    keys
}

/// One setting of a template with the comments right before it.
pub ghost struct Block {
    pub key: Seq<char>,
    pub text: Seq<char>,
}

/// The settings of a template. A comment belongs to the setting after it,
/// unless a blank line comes between; `pending` are the comments so far.
/// `None` if some line is none of the three.
pub open spec fn blocks_of(template: Seq<char>, pending: Seq<char>) -> Option<Seq<Block>>
    decreases template.len(),
{
    let line = first_line(template);
    let rest = template.skip(line.len() as int);
    if template.len() == 0 || line.len() == 0 || line.len() > template.len() {
        Some(Seq::empty())
    } else if trimmed(line).len() == 0 {
        blocks_of(rest, Seq::empty())
    } else if is_comment(line) {
        blocks_of(rest, pending + line)
    } else {
        match (setting_key(line), blocks_of(rest, Seq::empty())) {
            (Some(key), Some(blocks)) => Some(seq![Block { key, text: pending + line }] + blocks),
            _ => None,
        }
    }
}

/// The keys of some blocks.
pub open spec fn block_keys(blocks: Seq<Block>) -> Seq<Seq<char>> {
    Seq::new(blocks.len(), |i: int| blocks[i].key)
}

/// The settings of a template in which none is there twice.
pub open spec fn template_of(template: Seq<char>) -> Option<Seq<Block>> {
    match blocks_of(template, Seq::empty()) {
        Some(blocks) => if all_distinct(block_keys(blocks)) {
            Some(blocks)
        } else {
            None
        },
        None => None,
    }
}

/// The text of the settings whose keys are not among `keys`.
pub open spec fn missing_text(blocks: Seq<Block>, keys: Seq<Seq<char>>) -> Seq<char>
    decreases blocks.len(),
{
    if blocks.len() == 0 {
        Seq::empty()
    } else if keys.contains(blocks[0].key) {
        missing_text(blocks.drop_first(), keys)
    } else {
        blocks[0].text + missing_text(blocks.drop_first(), keys)
    }
}

/// The keys of the settings that are not among `keys`.
pub open spec fn missing_keys(blocks: Seq<Block>, keys: Seq<Seq<char>>) -> Seq<Seq<char>>
    decreases blocks.len(),
{
    if blocks.len() == 0 {
        Seq::empty()
    } else if keys.contains(blocks[0].key) {
        missing_keys(blocks.drop_first(), keys)
    } else {
        seq![blocks[0].key] + missing_keys(blocks.drop_first(), keys)
    }
}

/// Whether every setting of the template is among `keys`.
pub open spec fn complete(blocks: Seq<Block>, keys: Seq<Seq<char>>) -> bool {
    forall|i: int| 0 <= i < blocks.len() ==> keys.contains((#[trigger] blocks[i]).key)
}

/// A settings file up to where missing settings are added: after a blank line.
pub open spec fn opened(source: Seq<char>) -> Seq<char> {
    if source.len() > 0 && source.last() == '\n' {
        source.push('\n')
    } else {
        source.push('\n').push('\n')
    }
}

/// The settings file with what is missing, or `None` if nothing is.
pub open spec fn completion(source: Seq<char>, blocks: Seq<Block>, keys: Seq<Seq<char>>) -> Option<
    Seq<char>,
> {
    if complete(blocks, keys) {
        None
    } else {
        Some(opened(source) + missing_text(blocks, keys))
    }
}

/// The view of the outcome of a completion.
pub open spec fn outcome(result: Result<Option<String>, CompletionError>) -> Result<
    Option<Seq<char>>,
    CompletionError,
> {
    match result {
        Ok(Some(text)) => Ok(Some(text@)),
        Ok(None) => Ok(None),
        Err(error) => Err(error),
    }
}

/// Completes a settings file that names the settings `keys` from a template.
pub fn completed_with(source: &str, keys: &Vec<String>, template: &str) -> (result: Result<
    Option<String>,
    CompletionError,
>)
    ensures
        outcome(result) == match template_of(template@) {
            Some(blocks) => Ok(completion(source@, blocks, string_views(keys@))),
            None => Err(CompletionError::Template),
        },
{
    let lines = chars_of(template);
    let mut seen: Vec<String> = Vec::new();
    let ghost names = string_views(keys@);
    let ghost all = blocks_of(template@, Seq::empty());
    let ghost mut done: Seq<Block> = Seq::empty();
    let mut updated: Option<String> = None;
    let mut block_start: usize = 0;
    let mut offset: usize = 0;
    assert(string_views(seen@) =~= block_keys(done));
    assert(template@.skip(0) =~= template@);
    assert(template@.subrange(0, 0) =~= Seq::empty());
    proof {
        match all {
            Some(blocks) => {
                assert(done + blocks =~= blocks);
            },
            None => {},
        }
    }
    while offset < lines.len()
        invariant
            lines@ == template@,
            names == string_views(keys@),
            block_start <= offset <= lines@.len(),
            all == blocks_of(template@, Seq::empty()),
            match blocks_of(
                template@.skip(offset as int),
                template@.subrange(block_start as int, offset as int),
            ) {
                Some(blocks) => all == Some(done + blocks),
                None => all is None,
            },
            string_views(seen@) == block_keys(done),
            all_distinct(block_keys(done)),
            match updated {
                Some(text) => !complete(done, names) && text@ == opened(source@) + missing_text(
                    done,
                    names,
                ),
                None => complete(done, names) && missing_text(done, names).len() == 0,
            },
        decreases lines@.len() - offset,
    {
        let rest = slice_subrange(lines.as_slice(), offset, lines.len());
        assert(rest@ =~= template@.skip(offset as int));
        let end = find_char(rest, '\n');
        proof {
            lemma_position_of(rest@, '\n');
        }
        let length: usize = if end < rest.len() {
            end + 1
        } else {
            end
        };
        let line = slice_subrange(rest, 0, length);
        assert(line@ =~= first_line(rest@));
        let ghost pending = template@.subrange(block_start as int, offset as int);
        let ghost old_offset = offset;
        offset += length;
        assert(rest@.skip(length as int) =~= template@.skip(offset as int));
        if trim(line).len() == 0 {
            block_start = offset;
            assert(template@.subrange(block_start as int, offset as int) =~= Seq::empty());
        } else if comment_line(line) {
            assert(template@.subrange(block_start as int, offset as int) =~= pending + line@);
        } else {
            let key = match read_key(line) {
                Some(key) => key,
                None => return Err(CompletionError::Template),
            };
            let name = string_of(key);
            if contains_text(&seen, name.as_str()) {
                proof {
                    lemma_seen_twice(done, key@, pending + line@, all);
                }
                return Err(CompletionError::Template);
            }
            let ghost block = Block { key: key@, text: pending + line@ };
            let ghost before = done;
            proof {
                done = done.push(block);
                lemma_missing_push(before, block, names);
                lemma_string_views_push(seen@, name);
                assert(block_keys(done) =~= block_keys(before).push(key@));
                assert(all_distinct(block_keys(done))) by {
                    assert forall|i: int, j: int|
                        0 <= i < j < block_keys(done).len() implies #[trigger] block_keys(done)[i]
                        != #[trigger] block_keys(done)[j] by {
                        assert(block_keys(done)[i] == block_keys(before)[i]);
                        assert(block_keys(before).contains(block_keys(before)[i]));
                        if j < before.len() {
                            assert(block_keys(done)[j] == block_keys(before)[j]);
                        }
                    }
                }
            }
            let known = contains_text(keys, name.as_str());
            seen.push(name);
            if !known {
                let mut output = match updated {
                    Some(output) => output,
                    None => {
                        let mut output = source.to_owned();
                        let characters = chars_of(source);
                        if characters.len() == 0 || characters[characters.len() - 1] != '\n' {
                            output.push('\n');
                        }
                        output.push('\n');
                        assert(missing_text(before, names) =~= Seq::<char>::empty());
                        assert(output@ =~= opened(source@) + missing_text(before, names));
                        output
                    },
                };
                let text = slice_subrange(lines.as_slice(), block_start, offset);
                assert(text@ =~= pending + line@);
                let ghost written = output@;
                push_chars(&mut output, text);
                assert(output@ =~= opened(source@) + missing_text(done, names));
                updated = Some(output);
                assert(!complete(done, names)) by {
                    assert(done[done.len() - 1] == block);
                }
            } else {
                assert(complete(before, names) ==> complete(done, names)) by {
                    if complete(before, names) {
                        assert forall|i: int| 0 <= i < done.len() implies names.contains(
                            (#[trigger] done[i]).key,
                        ) by {
                            if i < before.len() {
                                assert(done[i] == before[i]);
                            }
                        }
                    }
                }
                assert(!complete(before, names) ==> !complete(done, names)) by {
                    if complete(done, names) {
                        assert forall|i: int| 0 <= i < before.len() implies names.contains(
                            (#[trigger] before[i]).key,
                        ) by {
                            assert(done[i] == before[i]);
                        }
                    }
                }
            }
            block_start = offset;
            assert(template@.subrange(block_start as int, offset as int) =~= Seq::empty());
            proof {
                match blocks_of(template@.skip(offset as int), Seq::empty()) {
                    Some(blocks) => {
                        assert(before + (seq![block] + blocks) =~= done + blocks);
                    },
                    None => {},
                }
            }
        }
    }
    assert(done + Seq::<Block>::empty() =~= done);
    Ok(updated)
}

proof fn lemma_missing_push(blocks: Seq<Block>, block: Block, keys: Seq<Seq<char>>)
    ensures
        missing_text(blocks.push(block), keys) == missing_text(blocks, keys) + (if keys.contains(
            block.key,
        ) {
            Seq::empty()
        } else {
            block.text
        }),
    decreases blocks.len(),
{
    let longer = blocks.push(block);
    if blocks.len() == 0 {
        assert(longer.drop_first() =~= Seq::<Block>::empty());
        assert(missing_text(longer.drop_first(), keys) =~= Seq::<char>::empty());
        assert(missing_text(longer, keys) =~= missing_text(blocks, keys) + (if keys.contains(
            block.key,
        ) {
            Seq::empty()
        } else {
            block.text
        }));
    } else {
        lemma_missing_push(blocks.drop_first(), block, keys);
        assert(longer.drop_first() =~= blocks.drop_first().push(block));
        assert(missing_text(longer, keys) =~= missing_text(blocks, keys) + (if keys.contains(
            block.key,
        ) {
            Seq::empty()
        } else {
            block.text
        }));
    }
}

/// A template with a key that is there already has it twice.
proof fn lemma_seen_twice(
    done: Seq<Block>,
    key: Seq<char>,
    text: Seq<char>,
    all: Option<Seq<Block>>,
)
    requires
        block_keys(done).contains(key),
        match all {
            Some(blocks) => exists|rest: Seq<Block>|
                blocks == done + #[trigger] (seq![Block { key, text }] + rest),
            None => true,
        },
    ensures
        all matches Some(blocks) ==> !all_distinct(block_keys(blocks)),
{
    if let Some(blocks) = all {
        let i = choose|i: int| 0 <= i < block_keys(done).len() && block_keys(done)[i] == key;
        assert(block_keys(blocks)[i] == key);
        assert(block_keys(blocks)[done.len() as int] == key);
    }
}

proof fn lemma_first_line(text: Seq<char>)
    requires
        text.len() > 0,
    ensures
        0 < first_line(text).len() <= text.len(),
        first_line(text) == text.take(first_line(text).len() as int),
        text.contains('\n') ==> first_line(text).last() == '\n',
        first_line(text).last() != '\n' ==> first_line(text) == text,
{
    lemma_position_of(text, '\n');
}

/// The line of a setting or a comment ends with a line feed.
proof fn lemma_line_of_start(text: Seq<char>, rest: Seq<char>)
    requires
        text.len() > 0,
        first_line(text).last() == '\n',
    ensures
        first_line(text + rest) == first_line(text),
        (text + rest).skip(first_line(text).len() as int) == text.skip(
            first_line(text).len() as int,
        ) + rest,
{
    lemma_position_of(text, '\n');
    lemma_position_of(text + rest, '\n');
    let end = position_of(text, '\n');
    lemma_first_line(text);
    assert(end < text.len()) by {
        if end >= text.len() {
            assert(text.last() == '\n');
            assert(text.contains('\n'));
        }
    }
    assert((text + rest)[end] == '\n');
    assert((text + rest).contains('\n'));
    assert(position_of(text + rest, '\n') == end) by {
        let other = position_of(text + rest, '\n');
        if other < end {
            assert((text + rest)[other] == text[other]);
        }
    }
    assert((text + rest).take(end + 1) =~= text.take(end + 1));
    assert((text + rest).skip(end + 1) =~= text.skip(end + 1) + rest);
}

/// Plain lines can follow each other.
proof fn lemma_plain_join(text: Seq<char>, rest: Seq<char>)
    requires
        plain_settings(text) is Some,
        plain_settings(rest) is Some,
    ensures
        plain_settings(text + rest) == Some(plain_settings(text)->0 + plain_settings(rest)->0),
    decreases text.len(),
{
    if text.len() == 0 {
        assert(text + rest =~= rest);
        assert(plain_settings(text)->0 + plain_settings(rest)->0 =~= plain_settings(rest)->0);
    } else {
        lemma_first_line(text);
        let line = first_line(text);
        let tail = text.skip(line.len() as int);
        assert(line.last() == '\n');
        lemma_line_of_start(text, rest);
        lemma_plain_join(tail, rest);
        let keys = plain_settings(tail)->0;
        let others = plain_settings(rest)->0;
        if !(line == seq!['\n'] || is_comment(line)) {
            let key = setting_key(line)->0;
            assert(seq![key] + (keys + others) =~= (seq![key] + keys) + others);
        }
    }
}

/// A line alone.
proof fn lemma_plain_line(line: Seq<char>)
    requires
        line.len() > 0,
        first_line(line) == line,
        line == seq!['\n'] || is_comment(line) || setting_key(line) is Some,
    ensures
        plain_settings(line) == Some(
            if line == seq!['\n'] || is_comment(line) {
                Seq::empty()
            } else {
                seq![setting_key(line)->0]
            },
        ),
{
    assert(line.skip(line.len() as int) =~= Seq::<char>::empty());
    reveal_with_fuel(plain_settings, 2);
    assert(seq![setting_key(line)->0] + Seq::<Seq<char>>::empty() =~= seq![
        setting_key(line)->0,
    ]);
}

/// The first line of a text is its own first line.
proof fn lemma_line_alone(text: Seq<char>)
    requires
        text.len() > 0,
    ensures
        first_line(first_line(text)) == first_line(text),
{
    lemma_first_line(text);
    let line = first_line(text);
    lemma_position_of(text, '\n');
    lemma_position_of(line, '\n');
    let end = position_of(text, '\n');
    if end < text.len() {
        assert(line[end] == '\n');
        assert(line.contains('\n'));
        assert(position_of(line, '\n') == end) by {
            if position_of(line, '\n') < end {
                assert(line[position_of(line, '\n')] == text[position_of(line, '\n')]);
            }
        }
        assert(line.take(end + 1) =~= line);
    }
}

/// Whether the text of a block sets its key and nothing else.
pub open spec fn is_plain(block: Block) -> bool {
    plain_settings(block.text) == Some(seq![block.key])
}

/// The blocks of a template are plain.
proof fn lemma_plain_blocks(template: Seq<char>, pending: Seq<char>)
    requires
        plain_settings(pending) == Some(Seq::<Seq<char>>::empty()),
    ensures
        blocks_of(template, pending) matches Some(blocks) ==> forall|i: int|
            0 <= i < blocks.len() ==> is_plain(#[trigger] blocks[i]),
    decreases template.len(),
{
    if template.len() > 0 {
        lemma_first_line(template);
        lemma_line_alone(template);
        let line = first_line(template);
        let rest = template.skip(line.len() as int);
        assert(plain_settings(Seq::<char>::empty()) == Some(Seq::<Seq<char>>::empty()));
        lemma_plain_blocks(rest, Seq::empty());
        if is_comment(line) {
            lemma_plain_line(line);
            lemma_plain_join(pending, line);
            assert(Seq::<Seq<char>>::empty() + Seq::<Seq<char>>::empty() =~= Seq::<
                Seq<char>,
            >::empty());
            lemma_plain_blocks(rest, pending + line);
        } else if setting_key(line) is Some {
            let key = setting_key(line)->0;
            assert(line != seq!['\n']) by {
                if line == seq!['\n'] {
                    assert(line.len() == 1);
                }
            }
            lemma_plain_line(line);
            lemma_plain_join(pending, line);
            assert(Seq::<Seq<char>>::empty() + seq![key] =~= seq![key]);
            assert(is_plain(Block { key, text: pending + line }));
        }
    }
}

/// What is missing sets the missing keys.
proof fn lemma_plain_missing(blocks: Seq<Block>, keys: Seq<Seq<char>>)
    requires
        forall|i: int| 0 <= i < blocks.len() ==> is_plain(#[trigger] blocks[i]),
    ensures
        plain_settings(missing_text(blocks, keys)) == Some(missing_keys(blocks, keys)),
    decreases blocks.len(),
{
    if blocks.len() > 0 {
        let rest = blocks.drop_first();
        assert forall|i: int| 0 <= i < rest.len() implies is_plain(#[trigger] rest[i]) by {
            assert(rest[i] == blocks[i + 1]);
        }
        lemma_plain_missing(rest, keys);
        assert(is_plain(blocks[0]));
        if !keys.contains(blocks[0].key) {
            lemma_plain_join(blocks[0].text, missing_text(rest, keys));
        }
    }
}

/// The missing keys are those of the template that are not among `keys`.
proof fn lemma_missing_keys(blocks: Seq<Block>, keys: Seq<Seq<char>>)
    requires
        all_distinct(block_keys(blocks)),
    ensures
        all_distinct(missing_keys(blocks, keys)),
        forall|i: int|
            0 <= i < missing_keys(blocks, keys).len() ==> {
                let key = #[trigger] missing_keys(blocks, keys)[i];
                !keys.contains(key) && block_keys(blocks).contains(key)
            },
        forall|i: int|
            0 <= i < blocks.len() && !keys.contains((#[trigger] blocks[i]).key) ==> missing_keys(
                blocks,
                keys,
            ).contains(blocks[i].key),
    decreases blocks.len(),
{
    if blocks.len() > 0 {
        let rest = blocks.drop_first();
        let first = blocks[0].key;
        let all = block_keys(blocks);
        let others = block_keys(rest);
        assert forall|i: int| 0 <= i < others.len() implies #[trigger] others[i] == all[i + 1] by {
        }
        assert(all_distinct(others));
        lemma_missing_keys(rest, keys);
        let tail = missing_keys(rest, keys);
        let found = missing_keys(blocks, keys);
        assert forall|i: int| 0 <= i < tail.len() implies all.contains(#[trigger] tail[i]) && tail[i]
            != first by {
            assert(others.contains(tail[i]));
            let k = choose|k: int| 0 <= k < others.len() && others[k] == tail[i];
            assert(all[k + 1] == tail[i]);
            assert(all[0] == first);
        }
        if !keys.contains(first) {
            assert(found =~= seq![first] + tail);
            assert forall|i: int| 0 <= i < found.len() implies !keys.contains(#[trigger] found[i])
                && all.contains(found[i]) by {
                if i == 0 {
                    assert(all[0] == first);
                } else {
                    assert(found[i] == tail[i - 1]);
                }
            }
            assert forall|i: int, j: int| 0 <= i < j < found.len() implies #[trigger] found[i]
                != #[trigger] found[j] by {
                assert(found[j] == tail[j - 1]);
                if i > 0 {
                    assert(found[i] == tail[i - 1]);
                }
            }
        }
        assert forall|i: int|
            0 <= i < blocks.len() && !keys.contains((#[trigger] blocks[i]).key) implies found.contains(
            blocks[i].key,
        ) by {
            if i == 0 {
                assert(found[0] == first);
            } else {
                assert(rest[i - 1] == blocks[i]);
                assert(tail.contains(blocks[i].key));
                let k = choose|k: int| 0 <= k < tail.len() && tail[k] == blocks[i].key;
                if !keys.contains(first) {
                    assert(found[k + 1] == tail[k]);
                }
            }
        }
    }
}

/// Whether a document has some settings with their values, and names all settings
/// of a template.
pub open spec fn names_all(
    text: Seq<char>,
    blocks: Seq<Block>,
    settings: Seq<(Seq<char>, Seq<char>)>,
) -> bool {
    match toml_settings(text) {
        Some(all) => {
            &&& complete(blocks, keys_of(all))
            &&& forall|i: int| 0 <= i < settings.len() ==> all.contains(#[trigger] settings[i])
        },
        None => false,
    }
}

/// What comes after the first line feed behind a settings file that is completed.
pub open spec fn addition_to(source: Seq<char>, blocks: Seq<Block>, keys: Seq<Seq<char>>) -> Seq<
    char,
> {
    if source.len() > 0 && source.last() == '\n' {
        missing_text(blocks, keys)
    } else {
        seq!['\n'] + missing_text(blocks, keys)
    }
}

proof fn lemma_names_all(
    source: Seq<char>,
    template: Seq<char>,
    settings: Seq<(Seq<char>, Seq<char>)>,
)
    requires
        template_of(template) is Some,
        has_no_tables(source),
        can_be_continued(
            source,
            settings,
            addition_to(source, template_of(template)->0, keys_of(settings)),
        ),
    ensures
        names_all(
            opened(source) + missing_text(template_of(template)->0, keys_of(settings)),
            template_of(template)->0,
            settings,
        ),
{
    let blocks = template_of(template)->0;
    let keys = keys_of(settings);
    let addition = addition_to(source, blocks, keys);
    let text = opened(source) + missing_text(blocks, keys);
    assert(text =~= source.push('\n') + addition);
    assert(plain_settings(Seq::<char>::empty()) == Some(Seq::<Seq<char>>::empty()));
    lemma_plain_blocks(template, Seq::empty());
    lemma_plain_missing(blocks, keys);
    let blank = seq!['\n'];
    lemma_line_alone(blank);
    assert(first_line(blank) == blank) by {
        lemma_first_line(blank);
        assert(first_line(blank) =~= blank);
    }
    lemma_plain_line(blank);
    lemma_plain_join(blank, missing_text(blocks, keys));
    let added = missing_keys(blocks, keys);
    assert(Seq::<Seq<char>>::empty() + added =~= added);
    assert(plain_settings(addition) == Some(added));
    lemma_missing_keys(blocks, keys);
    assert(has_both(text, settings, added));
    let all = toml_settings(text)->0;
    assert forall|i: int| 0 <= i < blocks.len() implies keys_of(all).contains(
        (#[trigger] blocks[i]).key,
    ) by {
        let key = blocks[i].key;
        if keys.contains(key) {
            let k = choose|k: int| 0 <= k < keys.len() && keys[k] == key;
            assert(all.contains(settings[k]));
            let j = choose|j: int| 0 <= j < all.len() && all[j] == settings[k];
            assert(keys_of(all)[j] == key);
        } else {
            assert(added.contains(key));
            let k = choose|k: int| 0 <= k < added.len() && added[k] == key;
            assert(keys_of(all).contains(added[k]));
        }
    }
}

/// Completes a settings file with the defaults of all settings that it lacks. A file
/// without tables then names every setting, and those that it had keep their values.
pub fn completed_config(source: &str) -> (result: Result<Option<String>, CompletionError>)
    ensures
        outcome(result) == match toml_settings(source@) {
            None => Err(CompletionError::Syntax),
            Some(settings) => match template_of(DEFAULT_CONFIG@) {
                Some(blocks) => Ok(completion(source@, blocks, keys_of(settings))),
                None => Err(CompletionError::Template),
            },
        },
        outcome(result) matches Ok(Some(text)) ==> has_no_tables(source@) ==> names_all(
            text,
            template_of(DEFAULT_CONFIG@)->0,
            toml_settings(source@)->0,
        ),
{
    match table_settings(source) {
        Some(settings) => {
            let keys = setting_keys(&settings);
            let result = completed_with(source, &keys, DEFAULT_CONFIG);
            proof {
                let known = setting_views(settings@);
                if let Some(blocks) = template_of(DEFAULT_CONFIG@) {
                    assert(can_be_continued(
                        source@,
                        known,
                        addition_to(source@, blocks, keys_of(known)),
                    ));
                    if has_no_tables(source@) {
                        lemma_names_all(source@, DEFAULT_CONFIG@, known);
                    }
                }
            }
            result
        },
        None => Err(CompletionError::Syntax),
    }
}

/// What the user wrote stays in place: it is the beginning of the completed file.
pub proof fn law_completion_keeps_user_text(
    source: Seq<char>,
    blocks: Seq<Block>,
    keys: Seq<Seq<char>>,
)
    ensures
        match completion(source, blocks, keys) {
            Some(text) => source.is_prefix_of(text),
            None => true,
        },
{
    assert(source.is_prefix_of(opened(source) + missing_text(blocks, keys)));
}

/// A settings file that names every setting is left alone, and no other is.
pub proof fn law_only_complete_files_are_left_alone(
    source: Seq<char>,
    blocks: Seq<Block>,
    keys: Seq<Seq<char>>,
)
    ensures
        completion(source, blocks, keys) is None <==> complete(blocks, keys),
{
}

/// Every missing setting is added with its default and its comments, and each
/// setting that is there is not added again.
pub proof fn law_exactly_the_missing_settings_are_added(
    blocks: Seq<Block>,
    keys: Seq<Seq<char>>,
    place: int,
)
    requires
        0 <= place < blocks.len(),
    ensures
        missing_text(blocks, keys) == missing_text(blocks.take(place), keys) + (if keys.contains(
            blocks[place].key,
        ) {
            Seq::empty()
        } else {
            blocks[place].text
        }) + missing_text(blocks.skip(place + 1), keys),
    decreases place,
{
    let tail = blocks.drop_first();
    if place == 0 {
        assert(blocks.take(0) =~= Seq::<Block>::empty());
        assert(blocks.skip(1) =~= tail);
        assert(missing_text(blocks.take(0), keys) =~= Seq::<char>::empty());
        assert(missing_text(blocks, keys) =~= missing_text(blocks.take(place), keys) + (
        if keys.contains(blocks[place].key) {
            Seq::empty()
        } else {
            blocks[place].text
        }) + missing_text(blocks.skip(place + 1), keys));
    } else {
        law_exactly_the_missing_settings_are_added(tail, keys, place - 1);
        assert(tail.take(place - 1) =~= blocks.take(place).drop_first());
        assert(tail.skip(place) =~= blocks.skip(place + 1));
        assert(missing_text(blocks, keys) =~= missing_text(blocks.take(place), keys) + (
        if keys.contains(blocks[place].key) {
            Seq::empty()
        } else {
            blocks[place].text
        }) + missing_text(blocks.skip(place + 1), keys));
    }
}

/// A completed file is left alone: one that names all settings has no completion.
pub proof fn law_completed_files_are_left_alone(
    text: Seq<char>,
    blocks: Seq<Block>,
    settings: Seq<(Seq<char>, Seq<char>)>,
)
    requires
        names_all(text, blocks, settings),
    ensures
        completion(text, blocks, keys_of(toml_settings(text)->0)) is None,
{
}

/// Completing a file a second time, with the keys of the whole template now
/// among its own, changes nothing.
pub proof fn law_completion_is_stable(
    source: Seq<char>,
    blocks: Seq<Block>,
    keys: Seq<Seq<char>>,
    updated_keys: Seq<Seq<char>>,
)
    requires
        forall|i: int|
            0 <= i < blocks.len() && !keys.contains((#[trigger] blocks[i]).key)
                ==> updated_keys.contains(blocks[i].key),
        forall|i: int| 0 <= i < keys.len() ==> updated_keys.contains(#[trigger] keys[i]),
    ensures
        completion(source, blocks, updated_keys) is None,
{
    assert forall|i: int| 0 <= i < blocks.len() implies updated_keys.contains(
        (#[trigger] blocks[i]).key,
    ) by {
        if keys.contains(blocks[i].key) {
            let k = choose|k: int| 0 <= k < keys.len() && keys[k] == blocks[i].key;
            assert(updated_keys.contains(keys[k]));
        }
    }
}

} // verus!
