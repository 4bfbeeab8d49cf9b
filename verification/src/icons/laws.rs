//! What holds of the search for icons and of the icons that stand in for them.

use vstd::prelude::*;

use crate::icons::{
    application_base, desktop_files, directories_of, fallback_channel, fallback_pixels, fnv32,
    fnv64, format_of, icon_names, in_frame, revision_of, seed_channel, sources_of, with_line,
    EntryView, IconFormat, IconSource,
};
use crate::text::{
    after_last, ends, lemma_distinct, lemma_position_of, lowercase, position_of, same_but_case,
    trimmed,
};

verus! {

/// A path is read as a file and is looked for nowhere else; a name is looked for below the
/// extra directory first, where there is one, and then in the theme.
pub proof fn law_icons_are_looked_for_in_order(name: Seq<char>, extra: bool)
    ensures
        name.len() > 0 && name[0] == '/' ==> sources_of(name, extra) == seq![IconSource::File],
        (name.len() == 0 || name[0] != '/') && extra ==> sources_of(name, extra) == seq![
            IconSource::ExtraDirectory,
            IconSource::Theme,
        ],
        (name.len() == 0 || name[0] != '/') && !extra ==> sources_of(name, extra) == seq![
            IconSource::Theme,
        ],
{
}

/// An icon of an application is looked for under its id without `.desktop`, under the last
/// part of it, and under both in lower case.
pub proof fn law_names_of_application_icons(base: Seq<char>)
    requires
        base.len() > 0,
        !ends(base, ".desktop"@),
    ensures
        application_base(base) == base,
        application_base(base + ".desktop"@) == base,
        icon_names(base) == icon_names(base + ".desktop"@),
        icon_names(base).contains(base),
        icon_names(base).contains(lowercase(base)),
        icon_names(base).contains(base.skip(after_last(base, '.'))),
        icon_names(base).contains(lowercase(base.skip(after_last(base, '.')))),
        icon_names(base).no_duplicates(),
{
    let suffix = ".desktop"@;
    let long = base + suffix;
    assert(long.skip(long.len() - suffix.len()) =~= suffix);
    assert(long.take(long.len() - suffix.len()) =~= base);
    let leaf = base.skip(after_last(base, '.'));
    let first = seq![base, lowercase(base)];
    let second = if leaf != base {
        first.push(leaf)
    } else {
        first
    };
    let third = if lowercase(leaf) != leaf {
        second.push(lowercase(leaf))
    } else {
        second
    };
    lemma_distinct(third);
    assert(third[0] == base && third[1] == lowercase(base));
    assert(third.contains(base) && third.contains(lowercase(base)));
    assert(third.contains(leaf)) by {
        if leaf != base {
            assert(third[2] == leaf);
        }
    }
    assert(third.contains(lowercase(leaf))) by {
        if lowercase(leaf) != leaf {
            assert(third[third.len() - 1] == lowercase(leaf));
        }
    }
}

/// Directories are separated by colons, and empty ones do not count.
pub proof fn law_directories_are_separated_by_colons(first: Seq<char>, rest: Seq<char>)
    requires
        !first.contains(':'),
    ensures
        first.len() > 0 ==> directories_of(first + seq![':'] + rest) == seq![first]
            + directories_of(rest),
        first.len() == 0 ==> directories_of(first + seq![':'] + rest) == directories_of(rest),
        first.len() > 0 ==> directories_of(first) == seq![first],
        directories_of(Seq::empty()).len() == 0,
{
    let list = first + seq![':'] + rest;
    lemma_position_of(list, ':');
    lemma_position_of(first, ':');
    lemma_position_of(Seq::empty(), ':');
    let colon = position_of(list, ':');
    assert(list[first.len() as int] == ':');
    assert(list.contains(':'));
    if colon < first.len() {
        assert(first[colon] == ':');
    }
    assert(colon == first.len());
    assert(list.take(colon) =~= first);
    assert(list.skip(colon + 1) =~= rest);
    assert(Seq::<Seq<char>>::empty() + directories_of(rest) =~= directories_of(rest));
}

/// The desktop file of an application is named as its id, with `.desktop` after it, unless
/// that is there already; an id with a slash names none.
pub proof fn law_desktop_files_are_named_as_the_application(app_id: Seq<char>)
    ensures
        app_id.contains('/') ==> desktop_files(app_id) is None,
        !app_id.contains('/') ==> desktop_files(app_id) is Some && desktop_files(app_id)->0.contains(
            app_id + ".desktop"@,
        ),
        !app_id.contains('/') && ends(app_id, ".desktop"@) ==> desktop_files(app_id)->0[0]
            == app_id,
        !app_id.contains('/') && !ends(app_id, ".desktop"@) ==> desktop_files(app_id)->0.len() == 1,
{
    if !app_id.contains('/') {
        let files = desktop_files(app_id)->0;
        assert(files[files.len() - 1] == app_id + ".desktop"@);
    }
}

/// A line of a desktop entry sets the value that it names and leaves the other one.
pub proof fn law_lines_set_what_they_name(entry: EntryView, value: Seq<char>)
    requires
        trimmed(value).len() > 0,
    ensures
        with_line(entry, "Icon="@ + value) == (EntryView { icon: Some(trimmed(value)), ..entry }),
        with_line(entry, "StartupWMClass="@ + value) == (EntryView {
            startup_wm_class: Some(trimmed(value)),
            ..entry
        }),
        with_line(entry, Seq::empty()) == entry,
{
    reveal_strlit("Icon=");
    reveal_strlit("StartupWMClass=");
    let first = "Icon="@ + value;
    let second = "StartupWMClass="@ + value;
    assert("Icon="@.len() == 5 && "StartupWMClass="@.len() == 15);
    assert(first.take(5) =~= "Icon="@);
    assert(first.skip(5) =~= value);
    assert(second.take(15) =~= "StartupWMClass="@);
    assert(second.skip(15) =~= value);
    assert(second[0] == 'S' && "Icon="@[0] == 'I');
    if crate::text::starts(second, "Icon="@) {
        assert(second.take(5)[0] == 'S');
    }
}

/// Files are read by their extension, in small or large letters, and no others are read.
pub proof fn law_formats_have_extensions(extension: Seq<char>)
    ensures
        format_of(extension) == Some(IconFormat::Png) <==> same_but_case(extension, "png"@),
        same_but_case(extension, "svg"@) ==> format_of(extension) == Some(IconFormat::Svg),
        format_of(extension) == Some(IconFormat::Svg) ==> same_but_case(extension, "svg"@),
        format_of(extension) is None <==> !same_but_case(extension, "png"@) && !same_but_case(
            extension,
            "svg"@,
        ),
{
    reveal_strlit("png");
    reveal_strlit("svg");
    if same_but_case(extension, "png"@) && same_but_case(extension, "svg"@) {
        assert("png"@[0] == 'p' && "svg"@[0] == 's');
        assert(crate::text::ascii_lower(extension[0]) == crate::text::ascii_lower("png"@[0]));
        assert(crate::text::ascii_lower(extension[0]) == crate::text::ascii_lower("svg"@[0]));
        assert(false);
    }
}

/// An icon that stands in for a missing one is opaque, has a dark frame at its edges and
/// one color of its name inside.
pub proof fn law_fallback_icons_are_framed(seed: Seq<u8>, size: int, x: int, y: int)
    requires
        0 < size <= 0x1_0000,
        0 <= x < size,
        0 <= y < size,
    ensures
        ({
            let pixels = fallback_pixels(seed, size);
            let place = 4 * (y * size + x);
            &&& pixels.len() == 4 * (size * size)
            &&& 0 <= place && place + 3 < pixels.len()
            &&& pixels[place + 3] == 255
            &&& forall|c: int|
                0 <= c < 3 ==> #[trigger] pixels[place + c] == fallback_channel(
                    seed,
                    x,
                    y,
                    c,
                    size,
                ) as u8
            &&& x == 0 || y == 0 || x == size - 1 || y == size - 1 ==> pixels[place] == 40
                && pixels[place + 1] == 40 && pixels[place + 2] == 40
        }),
        in_frame(x, y, size) == in_frame(y, x, size),
        in_frame(x, y, size) == in_frame(size - 1 - x, y, size),
        in_frame(x, y, size) == in_frame(x, size - 1 - y, size),
{
    let pixels = fallback_pixels(seed, size);
    let pixel = y * size + x;
    assert(0 <= pixel < size * size) by (nonlinear_arith)
        requires
            pixel == y * size + x,
            0 <= x < size,
            0 <= y < size,
    ;
    assert(pixel % size == x && pixel / size == y) by {
        vstd::arithmetic::div_mod::lemma_fundamental_div_mod_converse(pixel, size, y, x);
    }
    assert(size * size * 4 == 4 * (size * size));
    assert forall|c: int| 0 <= c < 4 implies #[trigger] pixels[4 * pixel + c] == fallback_channel(
        seed,
        x,
        y,
        c,
        size,
    ) as u8 by {
        let i = 4 * pixel + c;
        assert(i / 4 == pixel && i % 4 == c);
    }
    assert(pixels[4 * pixel + 0] == fallback_channel(seed, x, y, 0, size) as u8);
    assert(pixels[4 * pixel + 3] == fallback_channel(seed, x, y, 3, size) as u8);
}

/// The color of a name is neither dark nor white, and comes from three parts of the hash of
/// the name.
pub proof fn law_colors_come_from_the_name(seed: Seq<u8>, x: int, y: int, size: int)
    requires
        !in_frame(x, y, size),
    ensures
        fallback_channel(seed, x, y, 0, size) == seed_channel(fnv32(seed), 0),
        fallback_channel(seed, x, y, 1, size) == seed_channel(fnv32(seed), 8),
        fallback_channel(seed, x, y, 2, size) == seed_channel(fnv32(seed), 16),
        forall|c: int|
            0 <= c < 3 ==> 96 <= #[trigger] fallback_channel(seed, x, y, c, size) <= 191,
{
    let hash = fnv32(seed);
    assert((hash >> 0u32) & 0x5f <= 95 && (hash >> 8u32) & 0x5f <= 95 && (hash >> 16u32) & 0x5f
        <= 95) by (bit_vector);
}

/// A hash goes on from where it was: hashing two parts one after the other is hashing both
/// together.
pub proof fn law_hashes_go_on(start: u64, left: Seq<u8>, right: Seq<u8>)
    ensures
        fnv64(start, left + right) == fnv64(fnv64(start, left), right),
        fnv64(start, Seq::empty()) == start,
    decreases right.len(),
{
    if right.len() > 0 {
        law_hashes_go_on(start, left, right.drop_last());
        assert((left + right).drop_last() =~= left + right.drop_last());
        assert((left + right).last() == right.last());
    } else {
        assert(left + right =~= left);
    }
}

/// Images of equal pixels and width have the same revision only if their heights agree.
pub proof fn law_revisions_tell_heights_apart(width: u32, left: u32, right: u32, pixels: Seq<u8>)
    requires
        revision_of(width, left, pixels) == revision_of(width, right, pixels),
    ensures
        left == right,
{
    let hash = fnv64(0xcbf2_9ce4_8422_2325u64 ^ width as u64, pixels);
    let a = left as u64;
    let b = right as u64;
    assert(hash ^ (a << 32) == hash ^ (b << 32) && a <= 0xffff_ffff && b <= 0xffff_ffff ==> a == b)
        by (bit_vector);
}

} // verus!
