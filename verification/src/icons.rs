//! Names and places of application icons, and the placeholder for a missing one.

pub mod laws;

use vstd::prelude::*;
use vstd::slice::slice_subrange;
use vstd::string::StringSliceAdditionalSpecFns;

use crate::render::pixels::{lemma_byte_position, Bitmap};
use crate::text::{
    after_last, after_prefix, before_suffix, chars_of, copy_option, distinct, distinct_strings,
    ends, find_after_last, find_char, lemma_distinct, lemma_lines_ended, lemma_lines_join,
    lemma_string_views_push, lemma_trimmed_twice, lines_of, lowercase, option_view, position_of,
    same, same_but_case, same_ignoring_case, same_text, split_lines, string_of, string_views,
    strip_prefix, strip_suffix, to_lowercase, trim, trimmed, trimmed_lines, views,
};

verus! {

/// Where icons are looked for.
#[derive(Debug)]
pub struct IconLoader {
    pub theme: String,
    pub desktop_directories: Vec<String>,
}

/// A place to take an icon from.
#[derive(Clone, Copy, Debug, PartialEq, Eq, Structural)]
pub enum IconSource {
    /// The file that the name itself is the path of.
    File,
    /// The first file of that name below the extra directory.
    ExtraDirectory,
    /// The icon theme.
    Theme,
}

/// The places that are tried for an icon name, in order.
pub open spec fn sources_of(name: Seq<char>, has_extra_path: bool) -> Seq<IconSource> {
    if name.len() > 0 && name[0] == '/' {
        seq![IconSource::File]
    } else if has_extra_path {
        seq![IconSource::ExtraDirectory, IconSource::Theme]
    } else {
        seq![IconSource::Theme]
    }
}

impl IconLoader {
    /// A loader for the configured theme, else the one of GTK, else `hicolor`.
    pub fn new(
        configured: &Option<String>,
        gtk_theme: Option<String>,
        desktop_directories: Vec<String>,
    ) -> (result: Self)
        ensures
            result.theme@ == match (option_view(*configured), option_view(gtk_theme)) {
                (Some(theme), _) => theme,
                (None, Some(theme)) => theme,
                (None, None) => "hicolor"@,
            },
            result.desktop_directories@ == desktop_directories@,
    {
        let theme = match copy_option(configured) {
            Some(theme) => theme,
            None => match gtk_theme {
                Some(theme) => theme,
                None => "hicolor".to_owned(),
            },
        };
        IconLoader { theme, desktop_directories }
    }

    /// The places to try for an icon name; the first that holds an icon wins.
    pub fn sources(&self, name: &str, has_extra_path: bool) -> (result: Vec<IconSource>)
        ensures
            result@ == sources_of(name@, has_extra_path),
    {
        let characters = chars_of(name);
        let mut result: Vec<IconSource> = Vec::new();
        if characters.len() > 0 && characters[0] == '/' {
            result.push(IconSource::File);
        } else {
            if has_extra_path {
                result.push(IconSource::ExtraDirectory);
            }
            result.push(IconSource::Theme);
        }
        assert(result@ =~= sources_of(name@, has_extra_path));
        result
    }
}

/// An application id without a file ending, unless it is nothing but that.
pub open spec fn application_base(app_id: Seq<char>) -> Seq<char> {
    match before_suffix(app_id, ".desktop"@) {
        Some(base) => if base.len() > 0 {
            base
        } else {
            app_id
        },
        None => app_id,
    }
}

/// The icon names to try for an application: its id, the last part of the id,
/// and each of the two in lower case.
pub open spec fn icon_names(app_id: Seq<char>) -> Seq<Seq<char>> {
    let base = application_base(app_id);
    let leaf = base.skip(after_last(base, '.'));
    let first = seq![base, lowercase(base)];
    let second = if leaf != base {
        first.push(leaf)
    } else {
        first
    };
    let third = if lowercase(leaf) != leaf {
        second.push(lowercase(leaf))
    } else {
        second
    };
    distinct(third)
}

pub fn application_icon_names(app_id: &str) -> (result: Vec<String>)
    ensures
        string_views(result@) == icon_names(app_id@),
{
    let characters = chars_of(app_id);
    let base = match strip_suffix(characters.as_slice(), ".desktop") {
        Some(base) => if base.len() > 0 {
            base
        } else {
            characters.as_slice()
        },
        None => characters.as_slice(),
    };
    assert(base@ == application_base(app_id@));
    let leaf = slice_subrange(base, find_after_last(base, '.'), base.len());
    assert(leaf@ =~= base@.skip(after_last(base@, '.')));
    let name = string_of(base);
    let leaf_name = string_of(leaf);
    let lower = to_lowercase(name.as_str());
    let lower_leaf = to_lowercase(leaf_name.as_str());
    let leaf_differs = !same(leaf, base);
    let lower_differs = !same_text(lower_leaf.as_str(), leaf_name.as_str());
    let mut names: Vec<String> = Vec::new();
    names.push(name);
    names.push(lower);
    if leaf_differs {
        names.push(leaf_name);
    }
    if lower_differs {
        names.push(lower_leaf);
    }
    let ghost first = seq![base@, lowercase(base@)];
    let ghost second = if leaf@ != base@ {
        first.push(leaf@)
    } else {
        first
    };
    let ghost third = if lowercase(leaf@) != leaf@ {
        second.push(lowercase(leaf@))
    } else {
        second
    };
    assert(string_views(names@) =~= third);
    distinct_strings(&names)
}

/// The directories of a colon-separated list, without empty entries.
pub open spec fn directories_of(list: Seq<char>) -> Seq<Seq<char>>
    decreases list.len(),
{
    let colon = position_of(list, ':');
    if 0 <= colon < list.len() {
        (if colon > 0 {
            seq![list.take(colon)]
        } else {
            Seq::empty()
        }) + directories_of(list.skip(colon + 1))
    } else if list.len() > 0 {
        seq![list]
    } else {
        Seq::empty()
    }
}

pub fn data_directories(list: &str) -> (result: Vec<String>)
    ensures
        string_views(result@) == directories_of(list@),
{
    let characters = chars_of(list);
    let mut result: Vec<String> = Vec::new();
    let mut start: usize = 0;
    assert(list@.skip(0) =~= list@);
    assert(string_views(result@) + directories_of(list@) =~= directories_of(list@));
    while start < characters.len()
        invariant
            characters@ == list@,
            start <= characters@.len(),
            string_views(result@) + directories_of(characters@.skip(start as int))
                == directories_of(list@),
        decreases characters@.len() - start,
    {
        let rest = slice_subrange(characters.as_slice(), start, characters.len());
        assert(rest@ =~= characters@.skip(start as int));
        let length = find_char(rest, ':');
        let ghost before = string_views(result@);
        if length > 0 {
            let directory = string_of(slice_subrange(rest, 0, length));
            assert(directory@ =~= rest@.take(length as int));
            proof {
                lemma_string_views_push(result@, directory);
            }
            result.push(directory);
        }
        if length < rest.len() {
            assert(rest@.skip(length + 1) =~= characters@.skip(start + length + 1));
            assert(before + directories_of(rest@) =~= string_views(result@) + directories_of(
                rest@.skip(length + 1),
            ));
            start = start + length + 1;
        } else {
            assert(rest@.take(length as int) =~= rest@);
            start = characters.len();
            assert(characters@.skip(start as int) =~= Seq::<char>::empty());
            assert(before + directories_of(rest@) =~= string_views(result@) + directories_of(
                characters@.skip(start as int),
            ));
        }
    }
    assert(characters@.skip(start as int) =~= Seq::<char>::empty());
    assert(string_views(result@) + directories_of(characters@.skip(start as int)) =~= string_views(
        result@,
    ));
    result
}

/// The desktop files that may describe an application, unless its id is a path.
pub open spec fn desktop_files(app_id: Seq<char>) -> Option<Seq<Seq<char>>> {
    if app_id.contains('/') {
        None
    } else if ends(app_id, ".desktop"@) {
        Some(seq![app_id, app_id + ".desktop"@])
    } else {
        Some(seq![app_id + ".desktop"@])
    }
}

/// The view of an optional list of strings.
pub open spec fn optional_views(strings: Option<Vec<String>>) -> Option<Seq<Seq<char>>> {
    match strings {
        Some(strings) => Some(string_views(strings@)),
        None => None,
    }
}

pub fn desktop_file_names(app_id: &str) -> (result: Option<Vec<String>>)
    ensures
        optional_views(result) == desktop_files(app_id@),
{
    let characters = chars_of(app_id);
    if find_char(characters.as_slice(), '/') < characters.len() {
        return None;
    }
    let mut names: Vec<String> = Vec::new();
    if strip_suffix(characters.as_slice(), ".desktop").is_some() {
        names.push(app_id.to_owned());
    }
    let mut with_ending = app_id.to_owned();
    with_ending.append(".desktop");
    names.push(with_ending);
    assert(string_views(names@) =~= desktop_files(app_id@)->0);
    Some(names)
}

/// What is read from a desktop file.
#[derive(Debug)]
pub struct DesktopEntry {
    pub icon: Option<String>,
    pub startup_wm_class: Option<String>,
}

/// The view of a desktop entry.
pub ghost struct EntryView {
    pub icon: Option<Seq<char>>,
    pub startup_wm_class: Option<Seq<char>>,
}

impl DesktopEntry {
    pub open spec fn view(&self) -> EntryView {
        EntryView {
            icon: option_view(self.icon),
            startup_wm_class: option_view(self.startup_wm_class),
        }
    }
}

/// The entry after one more line of its group: a later value replaces an
/// earlier one, and an empty value is none.
pub open spec fn with_line(entry: EntryView, line: Seq<char>) -> EntryView {
    match after_prefix(line, "Icon="@) {
        Some(value) => if trimmed(value).len() > 0 {
            EntryView { icon: Some(trimmed(value)), ..entry }
        } else {
            entry
        },
        None => match after_prefix(line, "StartupWMClass="@) {
            Some(value) => if trimmed(value).len() > 0 {
                EntryView { startup_wm_class: Some(trimmed(value)), ..entry }
            } else {
                entry
            },
            None => entry,
        },
    }
}

/// Reads the lines of a desktop file, of which the `[Desktop Entry]` group counts.
pub open spec fn entry_of(lines: Seq<Seq<char>>, inside: bool, entry: EntryView) -> EntryView
    decreases lines.len(),
{
    if lines.len() == 0 {
        entry
    } else {
        let line = trimmed(lines[0]);
        let rest = lines.drop_first();
        if line == "[Desktop Entry]"@ {
            entry_of(rest, true, entry)
        } else if inside && line.len() > 0 && line[0] == '[' {
            entry
        } else if inside {
            entry_of(rest, inside, with_line(entry, line))
        } else {
            entry_of(rest, inside, entry)
        }
    }
}

/// The entry of a desktop file that says nothing.
pub open spec fn empty_entry() -> EntryView {
    EntryView { icon: None, startup_wm_class: None }
}

pub fn parse_desktop_entry(source: &str) -> (result: DesktopEntry)
    ensures
        result.view() == entry_of(lines_of(source@), false, empty_entry()),
{
    let characters = chars_of(source);
    let lines = split_lines(characters.as_slice());
    let ghost all = views(lines@);
    let mut entry = DesktopEntry { icon: None, startup_wm_class: None };
    let mut inside = false;
    let mut i: usize = 0;
    assert(all.skip(0) =~= all);
    while i < lines.len()
        invariant
            i <= lines@.len(),
            all == views(lines@),
            all == lines_of(source@),
            entry_of(all, false, empty_entry()) == entry_of(
                all.skip(i as int),
                inside,
                entry.view(),
            ),
        decreases lines@.len() - i,
    {
        assert(all.skip(i as int).drop_first() =~= all.skip(i + 1));
        let ghost before = entry.view();
        let line = trim(lines[i]);
        i += 1;
        let text = string_of(line);
        if same_text(text.as_str(), "[Desktop Entry]") {
            inside = true;
        } else if inside && line.len() > 0 && line[0] == '[' {
            return entry;
        } else if inside {
            if let Some(value) = strip_prefix(line, "Icon=") {
                let value = trim(value);
                if value.len() > 0 {
                    entry.icon = Some(string_of(value));
                }
            } else if let Some(value) = strip_prefix(line, "StartupWMClass=") {
                let value = trim(value);
                if value.len() > 0 {
                    entry.startup_wm_class = Some(string_of(value));
                }
            }
            assert(entry.view() == with_line(before, line@));
        }
    }
    entry
}

/// Whether a line begins the `[Desktop Entry]` group.
pub open spec fn begins_entry(line: Seq<char>) -> bool {
    trimmed(line) == "[Desktop Entry]"@
}

/// Whether a line begins another group.
pub open spec fn begins_other(line: Seq<char>) -> bool {
    !begins_entry(line) && trimmed(line).len() > 0 && trimmed(line)[0] == '['
}

/// Whether some line begins the `[Desktop Entry]` group.
pub open spec fn has_entry(lines: Seq<Seq<char>>) -> bool {
    exists|i: int| 0 <= i < lines.len() && begins_entry(#[trigger] lines[i])
}

proof fn lemma_entry_trimmed(
    lines: Seq<Seq<char>>,
    others: Seq<Seq<char>>,
    inside: bool,
    entry: EntryView,
)
    requires
        trimmed_lines(lines) == trimmed_lines(others),
    ensures
        entry_of(lines, inside, entry) == entry_of(others, inside, entry),
    decreases lines.len(),
{
    assert(trimmed_lines(lines).len() == lines.len());
    assert(trimmed_lines(others).len() == others.len());
    if lines.len() > 0 {
        let line = trimmed(lines[0]);
        assert(trimmed_lines(lines)[0] == trimmed_lines(others)[0]);
        let rest = lines.drop_first();
        let other = others.drop_first();
        assert(trimmed_lines(rest) =~= trimmed_lines(lines).drop_first());
        assert(trimmed_lines(other) =~= trimmed_lines(others).drop_first());
        lemma_entry_trimmed(rest, other, true, entry);
        lemma_entry_trimmed(rest, other, inside, entry);
        lemma_entry_trimmed(rest, other, inside, with_line(entry, line));
    }
}

proof fn lemma_entry_skips(lines: Seq<Seq<char>>, rest: Seq<Seq<char>>, entry: EntryView)
    requires
        !has_entry(lines),
    ensures
        entry_of(lines + rest, false, entry) == entry_of(rest, false, entry),
    decreases lines.len(),
{
    if lines.len() == 0 {
        assert(lines + rest =~= rest);
    } else {
        let tail = lines.drop_first();
        assert(!begins_entry(lines[0]));
        assert((lines + rest).drop_first() =~= tail + rest);
        assert(!has_entry(tail)) by {
            assert forall|i: int| 0 <= i < tail.len() implies !begins_entry(#[trigger] tail[i]) by {
                assert(tail[i] == lines[i + 1]);
            }
        }
        lemma_entry_skips(tail, rest, entry);
    }
}

proof fn lemma_entry_stops(
    lines: Seq<Seq<char>>,
    rest: Seq<Seq<char>>,
    inside: bool,
    entry: EntryView,
)
    requires
        inside || has_entry(lines),
        rest.len() > 0,
        begins_other(rest[0]),
    ensures
        entry_of(lines + rest, inside, entry) == entry_of(lines, inside, entry),
    decreases lines.len(),
{
    if lines.len() == 0 {
        assert(lines + rest =~= rest);
    } else {
        let tail = lines.drop_first();
        assert((lines + rest).drop_first() =~= tail + rest);
        assert((lines + rest)[0] == lines[0]);
        if begins_entry(lines[0]) {
            lemma_entry_stops(tail, rest, true, entry);
        } else {
            assert(has_entry(lines) ==> has_entry(tail)) by {
                if has_entry(lines) {
                    let i = choose|i: int| 0 <= i < lines.len() && begins_entry(lines[i]);
                    assert(tail[i - 1] == lines[i]);
                }
            }
            if !begins_other(lines[0]) || !inside {
                let next = if inside {
                    with_line(entry, trimmed(lines[0]))
                } else {
                    entry
                };
                lemma_entry_stops(tail, rest, inside, next);
            }
        }
    }
}

proof fn lemma_entry_blank(lines: Seq<Seq<char>>, inside: bool, entry: EntryView)
    ensures
        entry_of(lines.push(Seq::empty()), inside, entry) == entry_of(lines, inside, entry),
    decreases lines.len(),
{
    let longer = lines.push(Seq::empty());
    if lines.len() == 0 {
        reveal_strlit("[Desktop Entry]");
        reveal_strlit("Icon=");
        reveal_strlit("StartupWMClass=");
        assert(longer.drop_first() =~= Seq::<Seq<char>>::empty());
        assert(trimmed(Seq::<char>::empty()) =~= Seq::<char>::empty());
        reveal_with_fuel(entry_of, 2);
    } else {
        assert(longer.drop_first() =~= lines.drop_first().push(Seq::empty()));
        lemma_entry_blank(lines.drop_first(), true, entry);
        lemma_entry_blank(lines.drop_first(), inside, entry);
        lemma_entry_blank(lines.drop_first(), inside, with_line(entry, trimmed(lines[0])));
    }
}

/// Text before the `[Desktop Entry]` group does not count.
pub proof fn law_text_before_the_group_does_not_count(before: Seq<char>, rest: Seq<char>)
    requires
        !has_entry(lines_of(before)),
    ensures
        entry_of(lines_of(before.push('\n') + rest), false, empty_entry()) == entry_of(
            lines_of(rest),
            false,
            empty_entry(),
        ),
{
    let lines = lines_of(before);
    let ended = lines_of(before.push('\n'));
    lemma_lines_join(before, rest);
    lemma_lines_ended(before);
    reveal_strlit("[Desktop Entry]");
    assert(trimmed_lines(lines).len() == lines.len());
    assert(trimmed_lines(ended).len() == ended.len());
    assert(!has_entry(ended)) by {
        assert forall|i: int| 0 <= i < ended.len() implies !begins_entry(#[trigger] ended[i]) by {
            assert(trimmed_lines(ended)[i] == trimmed(ended[i]));
            if i < lines.len() {
                assert(trimmed_lines(lines)[i] == trimmed(lines[i]));
                assert(!begins_entry(lines[i]));
            }
        }
    }
    lemma_entry_skips(ended, lines_of(rest), empty_entry());
}

/// Text from the next group on does not count.
pub proof fn law_text_after_the_group_does_not_count(group: Seq<char>, after: Seq<char>)
    requires
        has_entry(lines_of(group)),
        lines_of(after).len() > 0,
        begins_other(lines_of(after)[0]),
    ensures
        entry_of(lines_of(group.push('\n') + after), false, empty_entry()) == entry_of(
            lines_of(group),
            false,
            empty_entry(),
        ),
{
    let lines = lines_of(group);
    let ended = lines_of(group.push('\n'));
    lemma_lines_join(group, after);
    lemma_lines_ended(group);
    assert(trimmed_lines(lines).len() == lines.len());
    assert(trimmed_lines(ended).len() == ended.len());
    assert(has_entry(ended)) by {
        let i = choose|i: int| 0 <= i < lines.len() && begins_entry(lines[i]);
        assert(trimmed_lines(lines)[i] == trimmed(lines[i]));
        assert(trimmed_lines(ended)[i] == trimmed(ended[i]));
    }
    lemma_entry_stops(ended, lines_of(after), false, empty_entry());
    if trimmed_lines(ended) == trimmed_lines(lines) {
        lemma_entry_trimmed(ended, lines, false, empty_entry());
    } else {
        let longer = lines.push(Seq::empty());
        assert(trimmed(Seq::<char>::empty()) =~= Seq::<char>::empty());
        assert(trimmed_lines(longer) =~= trimmed_lines(lines).push(Seq::empty()));
        lemma_entry_trimmed(ended, longer, false, empty_entry());
        lemma_entry_blank(lines, false, empty_entry());
    }
}

/// Only the `[Desktop Entry]` group of a file counts, whatever stands around it.
pub proof fn law_only_the_group_counts(before: Seq<char>, group: Seq<char>, after: Seq<char>)
    requires
        !has_entry(lines_of(before)),
        has_entry(lines_of(group)),
        lines_of(after).len() > 0,
        begins_other(lines_of(after)[0]),
    ensures
        entry_of(
            lines_of(before.push('\n') + (group.push('\n') + after)),
            false,
            empty_entry(),
        ) == entry_of(lines_of(group), false, empty_entry()),
{
    law_text_before_the_group_does_not_count(before, group.push('\n') + after);
    law_text_after_the_group_does_not_count(group, after);
}

/// Whether a value is one that a desktop entry can have.
pub open spec fn is_entry_value(value: Option<Seq<char>>) -> bool {
    value matches Some(value) ==> value.len() > 0 && trimmed(value) == value
}

/// The values of a desktop entry are neither empty nor surrounded by white space.
pub proof fn law_entry_values_are_trimmed(lines: Seq<Seq<char>>, inside: bool, entry: EntryView)
    requires
        is_entry_value(entry.icon),
        is_entry_value(entry.startup_wm_class),
    ensures
        is_entry_value(entry_of(lines, inside, entry).icon),
        is_entry_value(entry_of(lines, inside, entry).startup_wm_class),
    decreases lines.len(),
{
    if lines.len() > 0 {
        let line = trimmed(lines[0]);
        let rest = lines.drop_first();
        match after_prefix(line, "Icon="@) {
            Some(value) => {
                lemma_trimmed_twice(value);
            },
            None => {},
        }
        match after_prefix(line, "StartupWMClass="@) {
            Some(value) => {
                lemma_trimmed_twice(value);
            },
            None => {},
        }
        law_entry_values_are_trimmed(rest, true, entry);
        law_entry_values_are_trimmed(rest, inside, entry);
        law_entry_values_are_trimmed(rest, inside, with_line(entry, line));
    }
}

/// The icon of a desktop file that names `app_id` as its startup class.
pub fn icon_for_startup_class(entry: DesktopEntry, app_id: &str) -> (result: Option<String>)
    ensures
        option_view(result) == if entry.view().startup_wm_class == Some(app_id@) {
            entry.view().icon
        } else {
            None
        },
{
    match entry.startup_wm_class {
        Some(class) => if same_text(class.as_str(), app_id) {
            entry.icon
        } else {
            None
        },
        None => None,
    }
}

/// Whether a file ending is the one of desktop files.
pub fn is_desktop_file(extension: Option<&str>) -> (result: bool)
    ensures
        result == (extension matches Some(extension) && same_but_case(extension@, "desktop"@)),
{
    match extension {
        Some(extension) => same_ignoring_case(extension, "desktop"),
        None => false,
    }
}

/// The formats that icons are stored in.
#[derive(Clone, Copy, Debug, PartialEq, Eq, Structural)]
pub enum IconFormat {
    Png,
    Svg,
}

/// The format that a file ending stands for.
pub open spec fn format_of(extension: Seq<char>) -> Option<IconFormat> {
    if same_but_case(extension, "png"@) {
        Some(IconFormat::Png)
    } else if same_but_case(extension, "svg"@) {
        Some(IconFormat::Svg)
    } else {
        None
    }
}

pub fn icon_format(extension: Option<&str>) -> (result: Option<IconFormat>)
    ensures
        result == match extension {
            Some(extension) => format_of(extension@),
            None => None,
        },
{
    match extension {
        Some(extension) => if same_ignoring_case(extension, "png") {
            Some(IconFormat::Png)
        } else if same_ignoring_case(extension, "svg") {
            Some(IconFormat::Svg)
        } else {
            None
        },
        None => None,
    }
}

/// Whether a file, given by its stem and its ending, is the icon of that name.
pub fn is_named_icon(stem: Option<&str>, extension: Option<&str>, name: &str) -> (result: bool)
    ensures
        result == (extension matches Some(extension) && format_of(extension@) is Some && (
        stem matches Some(stem) && stem@ == name@)),
{
    match stem {
        Some(stem) => icon_format(extension).is_some() && same_text(stem, name),
        None => false,
    }
}

/// The side at which a vector icon is drawn: twice the wanted one, within bounds.
pub fn svg_size(target_size: u32) -> (result: u32)
    ensures
        result == if 2 * target_size < 32 {
            32
        } else if 2 * target_size > 256 {
            256
        } else {
            2 * target_size
        },
{
    if target_size < 16 {
        32
    } else if target_size > 128 {
        256
    } else {
        2 * target_size
    }
}

/// The 32-bit FNV-1a hash of some bytes.
pub open spec fn fnv32(bytes: Seq<u8>) -> u32
    decreases bytes.len(),
{
    if bytes.len() == 0 {
        2_166_136_261
    } else {
        (fnv32(bytes.drop_last()) ^ bytes.last() as u32).wrapping_mul(16_777_619)
    }
}

/// One channel of the color that a hash stands for, from 96 to 191.
pub open spec fn seed_channel(hash: u32, shift: u32) -> int {
    96 + ((hash >> shift) & 0x5f) as int
}

/// Whether a pixel of the placeholder belongs to its frame.
pub open spec fn in_frame(x: int, y: int, size: int) -> bool {
    let border = if size / 16 > 1 {
        size / 16
    } else {
        1
    };
    x < border || y < border || x >= size - border || y >= size - border
}

/// A channel of the placeholder: a dark frame around a color of the seed.
pub open spec fn fallback_channel(seed: Seq<u8>, x: int, y: int, c: int, size: int) -> int {
    if c == 3 {
        255
    } else if in_frame(x, y, size) {
        40
    } else {
        seed_channel(fnv32(seed), (8 * c) as u32)
    }
}

/// The pixels of the placeholder.
pub open spec fn fallback_pixels(seed: Seq<u8>, size: int) -> Seq<u8> {
    Seq::new(
        (size * size * 4) as nat,
        |i: int| fallback_channel(seed, (i / 4) % size, (i / 4) / size, i % 4, size) as u8,
    )
}

fn hash_bytes(bytes: &[u8]) -> (result: u32)
    ensures
        result == fnv32(bytes@),
{
    let mut hash: u32 = 2_166_136_261;
    let mut i: usize = 0;
    while i < bytes.len()
        invariant
            i <= bytes@.len(),
            hash == fnv32(bytes@.take(i as int)),
        decreases bytes@.len() - i,
    {
        assert(bytes@.take(i + 1).drop_last() =~= bytes@.take(i as int));
        hash = (hash ^ bytes[i] as u32).wrapping_mul(16_777_619);
        i += 1;
    }
    assert(bytes@.take(i as int) =~= bytes@);
    hash
}

fn color_channel(hash: u32, shift: u32) -> (result: u8)
    requires
        shift < 32,
    ensures
        result == seed_channel(hash, shift),
{
    let shifted: u32 = hash >> shift;
    assert(shifted & 0x5f <= 0x5f) by (bit_vector);
    96 + (shifted & 0x5f) as u8
}

/// The placeholder for an icon that was not found. Its color depends on the
/// seed alone, so that an application keeps its color.
pub fn fallback_icon(seed: &str, size: u32) -> (result: Bitmap)
    requires
        size * size * 4 <= u32::MAX,
    ensures
        result.wf(),
        result.width == (if size > 0 {
            size
        } else {
            1
        }),
        result.height == result.width,
        forall|x: int, y: int, c: int|
            result.inside(x, y) && 0 <= c < 4 ==> #[trigger] result.channel(x, y, c)
                == fallback_channel(seed.spec_bytes(), x, y, c, result.width as int),
        result.pixels@ == fallback_pixels(seed.spec_bytes(), result.width as int),
{
    let hash = hash_bytes(seed.as_bytes());
    let color = [color_channel(hash, 0), color_channel(hash, 8), color_channel(hash, 16), 255u8];
    let frame = [40u8, 40u8, 40u8, 255u8];
    let size: u32 = if size > 0 {
        size
    } else {
        1
    };
    assert(size * size * 4 <= u32::MAX);
    let border: u32 = if size / 16 > 1 {
        size / 16
    } else {
        1
    };
    let mut icon = Bitmap::transparent(size, size);
    let mut y: u32 = 0;
    while y < size
        invariant
            y <= size,
            icon.wf(),
            icon.width == size,
            icon.height == size,
            size > 0,
            hash == fnv32(seed.spec_bytes()),
            color@ =~= seq![
                seed_channel(hash, 0) as u8,
                seed_channel(hash, 8) as u8,
                seed_channel(hash, 16) as u8,
                255u8,
            ],
            frame@ =~= seq![40u8, 40u8, 40u8, 255u8],
            forall|c: int| 0 <= c < 3 ==> #[trigger] color[c] == seed_channel(hash, (8 * c) as u32),
            border == (if size / 16 > 1 {
                size / 16
            } else {
                1
            }),
            forall|i: int, j: int, c: int|
                0 <= i < size && 0 <= j < y && 0 <= c < 4 ==> #[trigger] icon.channel(i, j, c)
                    == fallback_channel(seed.spec_bytes(), i, j, c, size as int),
        decreases size - y,
    {
        let mut x: u32 = 0;
        while x < size
            invariant
                x <= size,
                y < size,
                icon.wf(),
                icon.width == size,
                icon.height == size,
                size > 0,
                hash == fnv32(seed.spec_bytes()),
                frame@ =~= seq![40u8, 40u8, 40u8, 255u8],
                color[3] == 255,
                forall|c: int|
                    0 <= c < 3 ==> #[trigger] color[c] == seed_channel(hash, (8 * c) as u32),
                border == (if size / 16 > 1 {
                    size / 16
                } else {
                    1
                }),
                forall|i: int, j: int, c: int|
                    0 <= i < size && (0 <= j < y || (j == y && i < x)) && 0 <= c < 4
                        ==> #[trigger] icon.channel(i, j, c) == fallback_channel(
                        seed.spec_bytes(),
                        i,
                        j,
                        c,
                        size as int,
                    ),
            decreases size - x,
        {
            let framed = x < border || y < border || x >= size - border || y >= size - border;
            let pixel = if framed {
                frame
            } else {
                color
            };
            assert(forall|c: int|
                0 <= c < 4 ==> #[trigger] pixel[c] == fallback_channel(
                    seed.spec_bytes(),
                    x as int,
                    y as int,
                    c,
                    size as int,
                ));
            icon.set_pixel(x, y, pixel);
            x += 1;
        }
        y += 1;
    }
    proof {
        let expected = fallback_pixels(seed.spec_bytes(), size as int);
        assert forall|i: int| 0 <= i < icon.pixels@.len() implies icon.pixels@[i] == expected[i] by {
            lemma_byte_position(size as int, size as int, i);
            let column = (i / 4) % (size as int);
            let row = (i / 4) / (size as int);
            assert(icon.channel(column, row, i % 4) == fallback_channel(
                seed.spec_bytes(),
                column,
                row,
                i % 4,
                size as int,
            ));
        }
        assert(0 <= size * size) by (nonlinear_arith);
        assert(icon.pixels@ =~= expected);
    }
    icon
}

/// The 64-bit FNV-1a hash of some bytes, continued from `start`.
pub open spec fn fnv64(start: u64, bytes: Seq<u8>) -> u64
    decreases bytes.len(),
{
    if bytes.len() == 0 {
        start
    } else {
        (fnv64(start, bytes.drop_last()) ^ bytes.last() as u64).wrapping_mul(0x0000_0100_0000_01b3)
    }
}

/// A number that tells images apart by their pixels and their size.
pub open spec fn revision_of(width: u32, height: u32, pixels: Seq<u8>) -> u64 {
    fnv64(0xcbf2_9ce4_8422_2325u64 ^ width as u64, pixels) ^ ((height as u64) << 32)
}

pub fn hash_from(start: u64, bytes: &Vec<u8>) -> (result: u64)
    ensures
        result == fnv64(start, bytes@),
{
    let mut hash: u64 = start;
    let mut i: usize = 0;
    while i < bytes.len()
        invariant
            i <= bytes@.len(),
            hash == fnv64(start, bytes@.take(i as int)),
        decreases bytes@.len() - i,
    {
        assert(bytes@.take(i + 1).drop_last() =~= bytes@.take(i as int));
        hash = (hash ^ bytes[i] as u64).wrapping_mul(0x0000_0100_0000_01b3);
        i += 1;
    }
    assert(bytes@.take(i as int) =~= bytes@);
    hash
}

pub fn image_revision(image: &Bitmap) -> (result: u64)
    ensures
        result == revision_of(image.width, image.height, image.pixels@),
{
    let hash = hash_from(0xcbf2_9ce4_8422_2325u64 ^ image.width as u64, &image.pixels);
    hash ^ ((image.height as u64) << 32)
}

/// No icon name is tried twice, and the id of the application comes first.
pub proof fn law_icon_names_start_with_the_id(app_id: Seq<char>)
    ensures
        icon_names(app_id).no_duplicates(),
        icon_names(app_id).len() > 0,
        icon_names(app_id)[0] == application_base(app_id),
{
    let base = application_base(app_id);
    let leaf = base.skip(after_last(base, '.'));
    let first = seq![base, lowercase(base)];
    let second = if leaf != base {
        first.push(leaf)
    } else {
        first
    };
    let third = if lowercase(leaf) != leaf {
        second.push(lowercase(leaf))
    } else {
        second
    };
    lemma_distinct(third);
    lemma_distinct_head(third);
}

proof fn lemma_distinct_head(texts: Seq<Seq<char>>)
    requires
        texts.len() > 0,
    ensures
        distinct(texts).len() > 0,
        distinct(texts)[0] == texts[0],
    decreases texts.len(),
{
    if texts.len() == 1 {
        assert(distinct(texts.drop_last()) =~= Seq::<Seq<char>>::empty());
    } else {
        lemma_distinct_head(texts.drop_last());
    }
}

} // verus!
