//! What holds of tray icons and their menus, whatever applications send.

use vstd::bytes::{spec_u32_to_le_bytes, spec_u64_to_le_bytes};
use vstd::prelude::*;
use vstd::utf8::encode_utf8;

use crate::icons::laws::law_hashes_go_on;
use crate::icons::{fallback_pixels, fnv64};
use crate::text::{found_at, trimmed};
use crate::tray::{
    address_parts, answers_click, best_pixmap, cached_at, concerns_icons, converted_pixels,
    entries_of, entry_of, entry_views, inferred_path, is_stale, item_icon, loaded_pixmap,
    menu_targets, premultiplied, selected_name, selected_pixmaps, shown_icon, signature_of,
    size_distance, snapshot_of, usable, without_markers, wrote, wrote_each, wrote_option,
    wrote_pixmap, wrote_pixmaps, wrote_u32, wrote_u64, wrote_u8, CachedIcon, ClickAction,
    IconPixmap, MenuItem, MenuType, Status, TrayChange, TrayIconView, TrayItem, FNV_OFFSET,
};

verus! {

/// The left button activates an item, unless it is a menu; the middle button activates it
/// the second way; the right button asks for a menu. No other button does anything.
pub proof fn law_buttons_of_the_pointer(
    action: ClickAction,
    id: Seq<char>,
    button: u32,
    x: i32,
    y: i32,
    item: Option<TrayItem>,
    menu: Option<Vec<MenuItem>>,
)
    requires
        answers_click(action, id, button, x, y, item, menu),
    ensures
        button == 0x110 ==> (item matches Some(item) ==> item.item_is_menu ==> action
            is ContextMenu),
        button == 0x110 ==> (item matches Some(item) ==> !item.item_is_menu ==> action is Activate),
        button == 0x110 && item is None ==> action is Activate,
        button == 0x112 <==> action is SecondaryActivate,
        button == 0x111 ==> action is ContextMenu || action is Popup,
        action is Popup ==> button == 0x111,
        button < 0x110 || button > 0x112 ==> action is Nothing,
{
}

/// A right click opens the exported menu of the item, at the point of the click, if anything
/// in it is shown; otherwise the application is asked for its own menu.
pub proof fn law_right_clicks_open_the_menu(
    action: ClickAction,
    id: Seq<char>,
    x: i32,
    y: i32,
    item: TrayItem,
    menu: Option<Vec<MenuItem>>,
)
    requires
        answers_click(action, id, 0x111, x, y, Some(item), menu),
    ensures
        action is Popup <==> item.menu is Some && menu is Some && entries_of(menu->0@).len() > 0,
        action matches ClickAction::Popup(popup) ==> {
            &&& popup.x == x
            &&& popup.y == y
            &&& popup.menu_path@ == item.menu->0@
            &&& entry_views(popup.items@) == entries_of(menu->0@)
            &&& id == popup.address@ || (id.len() > popup.address@.len() && id.take(
                popup.address@.len() as int,
            ) == popup.address@ && id[popup.address@.len() as int] == '/')
        },
        !(action is Popup) ==> action is ContextMenu,
{
    crate::text::lemma_position_of(id, '/');
}

/// An entry of a menu has the number, the toggle and the place in the hierarchy of its item;
/// it is enabled only if the item is, and is a separator if and only if the item is one.
pub proof fn law_entries_belong_to_their_item(item: MenuItem)
    ensures
        entry_of(item) is Some <==> item.visible && (item.menu_type == MenuType::Separator
            || (item.label is Some && without_markers(item.label->0@).len() > 0)),
        entry_of(item) matches Some(entry) ==> {
            &&& entry.id == item.id
            &&& entry.toggle_type == item.toggle_type
            &&& entry.toggle_state == item.toggle_state
            &&& entry.separator <==> item.menu_type == MenuType::Separator
            &&& entry.enabled ==> item.enabled
            &&& item.enabled && item.submenu@.len() == 0 && item.children_display is None
                ==> entry.enabled
            &&& item.enabled && entry.submenu.len() > 0 ==> entry.enabled
            &&& entry.submenu == entries_of(item.submenu@)
            &&& item.menu_type != MenuType::Separator ==> entry.label == without_markers(
                item.label->0@,
            )
            &&& item.menu_type == MenuType::Separator ==> entry.label.len() == 0
        },
{
}

/// The entries of a menu are those of its items, in their order.
pub proof fn law_menus_are_read_item_by_item(items: Seq<MenuItem>, item: MenuItem)
    ensures
        entries_of(items.push(item)) == (match entry_of(item) {
            Some(entry) => entries_of(items).push(entry),
            None => entries_of(items),
        }),
        entries_of(Seq::empty()).len() == 0,
{
    assert(items.push(item).drop_last() =~= items);
    assert(items.push(item).last() == item);
}

/// A single underscore in front of a character is dropped and the character stays; two
/// underscores stand for one.
pub proof fn law_underscores_mark_mnemonics(before: Seq<char>, mark: char, rest: Seq<char>)
    requires
        !before.contains('_'),
        mark != '_',
    ensures
        without_markers(before + seq!['_', mark] + rest) == before + seq![mark] + without_markers(
            rest,
        ),
        without_markers(before + seq!['_', '_'] + rest) == before + seq!['_'] + without_markers(
            rest,
        ),
        without_markers(before + seq!['_']) == before,
    decreases before.len(),
{
    let single = before + seq!['_', mark] + rest;
    let double = before + seq!['_', '_'] + rest;
    let last = before + seq!['_'];
    if before.len() > 0 {
        let fewer = before.drop_first();
        assert(before[0] != '_');
        assert(!fewer.contains('_')) by {
            if fewer.contains('_') {
                let i = choose|i: int| 0 <= i < fewer.len() && fewer[i] == '_';
                assert(before[i + 1] == '_');
            }
        }
        law_underscores_mark_mnemonics(fewer, mark, rest);
        assert(single.drop_first() =~= fewer + seq!['_', mark] + rest);
        assert(double.drop_first() =~= fewer + seq!['_', '_'] + rest);
        assert(last.drop_first() =~= fewer + seq!['_']);
        assert(seq![before[0]] + (fewer + seq![mark] + without_markers(rest)) =~= before
            + seq![mark] + without_markers(rest));
        assert(seq![before[0]] + (fewer + seq!['_'] + without_markers(rest)) =~= before + seq!['_']
            + without_markers(rest));
        assert(seq![before[0]] + fewer =~= before);
    } else {
        assert(single.drop_first() =~= seq![mark] + rest);
        assert((seq![mark] + rest).drop_first() =~= rest);
        assert(double.skip(2) =~= rest);
        assert(last.drop_first() =~= Seq::<char>::empty());
        assert(without_markers(single) == without_markers(seq![mark] + rest));
        assert(before + seq![mark] + without_markers(rest) =~= seq![mark] + without_markers(rest));
        assert(before + seq!['_'] + without_markers(rest) =~= seq!['_'] + without_markers(rest));
        assert(without_markers(Seq::<char>::empty()) =~= before);
    }
}

/// An address is split at its first slash, which belongs to the path; putting the parts
/// together again gives the address.
pub proof fn law_addresses_are_split_at_the_slash(destination: Seq<char>, path: Seq<char>)
    requires
        destination.len() > 0,
        !destination.contains('/'),
        path.len() > 0,
        path[0] == '/',
    ensures
        address_parts(destination + path) == Some((destination, path)),
        address_parts(destination) is None,
{
    let address = destination + path;
    crate::text::lemma_position_of(address, '/');
    crate::text::lemma_position_of(destination, '/');
    let slash = crate::text::position_of(address, '/');
    assert(address[destination.len() as int] == '/');
    assert(address.contains('/'));
    if slash < destination.len() {
        assert(destination[slash] == '/');
    }
    assert(slash == destination.len());
    assert(address.take(slash) =~= destination);
    assert(address.skip(slash) =~= path);
}

/// A context menu is asked for at the path of the address. Without one it is asked for at
/// the path that the menu's path suggests, and last at the usual path.
pub proof fn law_menus_are_asked_for_at_their_item(
    address: Seq<char>,
    menu_path: Option<Seq<char>>,
)
    ensures
        address_parts(address) matches Some((destination, path)) ==> menu_targets(
            address,
            menu_path,
        ) == Some((destination, seq![path])),
        address_parts(address) is None && trimmed(address).len() == 0 ==> menu_targets(
            address,
            menu_path,
        ) is None,
        address_parts(address) is None && trimmed(address).len() > 0 ==> {
            let targets = menu_targets(address, menu_path);
            let (destination, paths) = targets->0;
            &&& targets is Some
            &&& destination == address
            &&& paths.len() > 0
            &&& paths.last() == "/StatusNotifierItem"@
            &&& menu_path is None ==> paths.len() == 1
            &&& menu_path matches Some(path) ==> (inferred_path(path) matches Some(inferred)
                ==> paths[0] == inferred && paths.len() <= 2)
        },
{
}

/// The path of an item is that of its menu with the item's name in place of the menu's.
pub proof fn law_item_paths_are_those_of_menus(path: Seq<char>)
    ensures
        found_at(path, "DbusMenu"@, 0) is None ==> inferred_path(path) is None,
        found_at(path, "DbusMenu"@, 0) matches Some(place) ==> {
            let inferred = inferred_path(path);
            &&& inferred is Some
            &&& inferred->0 == path.take(place) + "StatusNotifierItem"@ + path.skip(place + 8)
        },
{
    reveal_strlit("DbusMenu");
    assert("DbusMenu"@.len() == 8);
}

/// An item that needs attention shows its attention icon if it has one, and every other
/// item its ordinary icon.
pub proof fn law_attention_icons_are_for_attention(item: TrayItem)
    ensures
        item.status != Status::NeedsAttention ==> selected_name(item) == item.icon_name
            && selected_pixmaps(item) == item.icon_pixmap,
        item.status == Status::NeedsAttention && item.attention_icon_name is Some
            ==> selected_name(item) == item.attention_icon_name,
        item.status == Status::NeedsAttention && item.attention_icon_name is None
            ==> selected_name(item) == item.icon_name,
        item.status == Status::NeedsAttention && item.attention_icon_pixmap is Some
            ==> selected_pixmaps(item) == item.attention_icon_pixmap,
        item.status == Status::NeedsAttention && item.attention_icon_pixmap is None
            ==> selected_pixmaps(item) == item.icon_pixmap,
{
}

/// The larger side of a pixmap.
pub open spec fn side(pixmap: IconPixmap) -> int {
    if pixmap.width > pixmap.height {
        pixmap.width as int
    } else {
        pixmap.height as int
    }
}

/// How far two sizes are apart.
pub open spec fn apart(left: int, right: int) -> int {
    if left < right {
        right - left
    } else {
        left - right
    }
}

proof fn lemma_best_pixmap(pixmaps: Seq<IconPixmap>, target_size: u32, count: int, i: int)
    requires
        0 <= i < count <= pixmaps.len(),
        usable(pixmaps[i]),
    ensures
        ({
            let best = best_pixmap(pixmaps, target_size, count);
            &&& best is Some
            &&& 0 <= best->0 < count
            &&& usable(pixmaps[best->0])
            &&& size_distance(pixmaps[best->0], target_size) <= size_distance(
                pixmaps[i],
                target_size,
            )
            &&& size_distance(pixmaps[best->0], target_size) == size_distance(
                pixmaps[i],
                target_size,
            ) ==> best->0 <= i
        }),
    decreases count,
{
    let before = best_pixmap(pixmaps, target_size, count - 1);
    if i < count - 1 {
        lemma_best_pixmap(pixmaps, target_size, count - 1, i);
    } else if let Some(best) = before {
        lemma_some_best(pixmaps, target_size, count - 1);
    }
}

proof fn lemma_some_best(pixmaps: Seq<IconPixmap>, target_size: u32, count: int)
    requires
        0 <= count <= pixmaps.len(),
    ensures
        best_pixmap(pixmaps, target_size, count) matches Some(best) ==> 0 <= best < count
            && usable(pixmaps[best]),
    decreases count,
{
    if count > 0 {
        lemma_some_best(pixmaps, target_size, count - 1);
    }
}

/// Of the pixmaps that can be used, the one whose larger side is nearest to the wanted size
/// is shown, the first of several.
pub proof fn law_nearest_pixmaps_are_shown(pixmaps: Seq<IconPixmap>, target_size: u32, i: int)
    requires
        0 <= i < pixmaps.len(),
        0 < pixmaps[i].width <= 1024,
        0 < pixmaps[i].height <= 1024,
        pixmaps[i].pixels@.len() >= pixmaps[i].width * pixmaps[i].height * 4,
    ensures
        ({
            let best = best_pixmap(pixmaps, target_size, pixmaps.len() as int);
            &&& best is Some
            &&& 0 <= best->0 < pixmaps.len()
            &&& apart(side(pixmaps[best->0]), target_size as int) <= apart(
                side(pixmaps[i]),
                target_size as int,
            )
            &&& apart(side(pixmaps[best->0]), target_size as int) == apart(
                side(pixmaps[i]),
                target_size as int,
            ) ==> best->0 <= i
            &&& loaded_pixmap(pixmaps, target_size) is Some
            &&& loaded_pixmap(pixmaps, target_size) == Some(
                (
                    pixmaps[best->0].width as u32,
                    pixmaps[best->0].height as u32,
                    converted_pixels(pixmaps[best->0]),
                ),
            )
        }),
{
    lemma_best_pixmap(pixmaps, target_size, pixmaps.len() as int, i);
}

/// Pixmaps of no size, of more than 1024 pixels, or with too few pixels are never shown.
pub proof fn law_broken_pixmaps_are_not_shown(pixmaps: Seq<IconPixmap>, target_size: u32)
    ensures
        best_pixmap(pixmaps, target_size, pixmaps.len() as int) matches Some(best) ==> {
            &&& 0 <= best < pixmaps.len()
            &&& 0 < pixmaps[best].width <= 1024
            &&& 0 < pixmaps[best].height <= 1024
            &&& pixmaps[best].pixels@.len() >= pixmaps[best].width * pixmaps[best].height * 4
        },
{
    lemma_some_best(pixmaps, target_size, pixmaps.len() as int);
}

/// Pixels come as alpha, red, green and blue, and are shown as red, green, blue and alpha,
/// each color weakened by the alpha to the nearest number.
pub proof fn law_pixels_are_reordered(pixmap: IconPixmap, pixel: int)
    requires
        usable(pixmap),
        0 <= pixel < pixmap.width * pixmap.height,
    ensures
        ({
            let sent = pixmap.pixels@;
            let shown = converted_pixels(pixmap);
            let alpha = sent[4 * pixel] as int;
            &&& shown.len() == 4 * (pixmap.width * pixmap.height)
            &&& shown[4 * pixel + 3] == alpha
            &&& forall|channel: int|
                0 <= channel < 3 ==> -255 <= 2 * (255 * #[trigger] shown[4 * pixel + channel]
                    - sent[4 * pixel + 1 + channel] * alpha) <= 255
            &&& alpha == 255 ==> forall|channel: int|
                0 <= channel < 3 ==> #[trigger] shown[4 * pixel + channel] == sent[4 * pixel + 1
                    + channel]
        }),
{
    let sent = pixmap.pixels@;
    let shown = converted_pixels(pixmap);
    let alpha = sent[4 * pixel] as int;
    let total = pixmap.width * pixmap.height;
    assert(pixmap.width * pixmap.height * 4 == 4 * total);
    assert((4 * pixel + 3) / 4 * 4 == 4 * pixel && (4 * pixel + 3) % 4 == 3);
    assert forall|channel: int| 0 <= channel < 3 implies -255 <= 2 * (255
        * #[trigger] shown[4 * pixel + channel] - sent[4 * pixel + 1 + channel] * alpha) <= 255 && (
    alpha == 255 ==> shown[4 * pixel + channel] == sent[4 * pixel + 1 + channel]) by {
        let i = 4 * pixel + channel;
        assert(i / 4 * 4 == 4 * pixel && i % 4 == channel);
        let product = sent[i + 1] * alpha;
        assert(0 <= product <= 255 * 255) by (nonlinear_arith)
            requires
                product == sent[i + 1] * alpha,
                0 <= alpha <= 255,
        ;
        assert(shown[i] == premultiplied(sent[i + 1] as int, alpha) as u8);
        assert(0 <= (product + 127) / 255 <= 255);
        if alpha == 255 {
            assert(product == 255 * sent[i + 1]) by (nonlinear_arith)
                requires
                    product == sent[i + 1] * alpha,
                    alpha == 255,
            ;
        }
    }
}

/// An icon has the address of its item. It shows the icon that was found for its name, else
/// the pixmap that was sent, and never nothing.
pub proof fn law_icons_show_their_item(
    item: TrayItem,
    found: Option<(u32, u32, Seq<u8>)>,
    target_size: u32,
)
    ensures
        ({
            let icon = item_icon(item, found, target_size);
            &&& icon.id == item.address@
            &&& found matches Some(image) ==> icon.width == image.0 && icon.height == image.1
                && icon.pixels == image.2
            &&& found is None ==> (selected_pixmaps(item) matches Some(pixmaps) ==> (loaded_pixmap(
                pixmaps@,
                target_size,
            ) matches Some(image) ==> icon.width == image.0 && icon.height == image.1 && icon.pixels
                == image.2))
            &&& found is None && selected_pixmaps(item) is None && target_size > 0 ==> icon.width
                == target_size && icon.height == target_size && icon.pixels == fallback_pixels(
                encode_utf8(item.id@),
                target_size as int,
            )
        }),
{
}

/// A kept icon is shown again while the signature of its item stays, and made anew when
/// it changes or when there is none.
pub proof fn law_unchanged_icons_are_kept(
    icons: Seq<CachedIcon>,
    item: TrayItem,
    found: Option<(u32, u32, Seq<u8>)>,
    target_size: u32,
)
    ensures
        cached_at(icons, item.address@, 0) is None ==> is_stale(icons, item),
        cached_at(icons, item.address@, 0) matches Some(place) ==> {
            &&& 0 <= place < icons.len()
            &&& icons[place].icon.id@ == item.address@
            &&& is_stale(icons, item) <==> icons[place].signature != signature_of(item)
            &&& icons[place].signature == signature_of(item) ==> shown_icon(
                icons,
                item,
                found,
                target_size,
            ) == icons[place].icon@
        },
        is_stale(icons, item) ==> shown_icon(icons, item, found, target_size) == item_icon(
            item,
            found,
            target_size,
        ),
        shown_icon(icons, item, found, target_size).id == item.address@,
{
    lemma_cached(icons, item.address@, 0);
}

proof fn lemma_cached(icons: Seq<CachedIcon>, address: Seq<char>, start: int)
    requires
        0 <= start,
    ensures
        cached_at(icons, address, start) matches Some(place) ==> start <= place < icons.len()
            && icons[place].icon.id@ == address,
    decreases icons.len() - start,
{
    if start < icons.len() && icons[start].icon.id@ != address {
        lemma_cached(icons, address, start + 1);
    }
}

/// Items that come and go, their icons and their status change what is shown; nothing else
/// does.
pub proof fn law_changes_of_icons()
    ensures
        concerns_icons(TrayChange::Added),
        concerns_icons(TrayChange::Removed),
        concerns_icons(TrayChange::Icon),
        concerns_icons(TrayChange::AttentionIcon),
        concerns_icons(TrayChange::Status),
        !concerns_icons(TrayChange::Other),
{
}

/// Some bytes with their number before them.
pub open spec fn framed(bytes: Seq<u8>) -> Seq<u8> {
    spec_u64_to_le_bytes(bytes.len() as u64) + bytes
}

/// An optional text as bytes: whether there is one, and the text.
pub open spec fn optional_bytes(text: Option<Seq<char>>) -> Seq<u8> {
    match text {
        Some(text) => seq![1u8] + framed(encode_utf8(text)),
        None => seq![0u8],
    }
}

/// A pixmap as bytes: its width, its height and its pixels.
pub open spec fn pixmap_bytes(pixmap: IconPixmap) -> Seq<u8> {
    framed(spec_u32_to_le_bytes(pixmap.width as u32)) + framed(
        spec_u32_to_le_bytes(pixmap.height as u32),
    ) + framed(pixmap.pixels@)
}

/// Pixmaps as bytes, one after the other.
pub open spec fn pixmaps_bytes(pixmaps: Seq<IconPixmap>) -> Seq<u8>
    decreases pixmaps.len(),
{
    if pixmaps.len() == 0 {
        Seq::empty()
    } else {
        pixmaps_bytes(pixmaps.drop_last()) + pixmap_bytes(pixmaps.last())
    }
}

/// What the icon of an item is made of, as bytes.
pub open spec fn icon_bytes(item: TrayItem) -> Seq<u8> {
    let status: u8 = match item.status {
        Status::Unknown => 0,
        Status::Passive => 1,
        Status::Active => 2,
        Status::NeedsAttention => 3,
    };
    let pixmaps = match selected_pixmaps(item) {
        Some(pixmaps) => spec_u64_to_le_bytes(pixmaps@.len() as u64) + pixmaps_bytes(pixmaps@),
        None => spec_u64_to_le_bytes(0),
    };
    seq![status] + framed(encode_utf8(item.id@)) + optional_bytes(
        crate::text::option_view(item.icon_theme_path),
    ) + optional_bytes(crate::text::option_view(selected_name(item))) + pixmaps
}

proof fn lemma_wrote(state: u64, bytes: Seq<u8>, text: Option<Seq<char>>)
    ensures
        wrote(state, bytes) == fnv64(state, framed(bytes)),
        wrote_option(state, text) == fnv64(state, optional_bytes(text)),
{
    law_hashes_go_on(state, spec_u64_to_le_bytes(bytes.len() as u64), bytes);
    if let Some(text) = text {
        let utf8 = encode_utf8(text);
        law_hashes_go_on(state, seq![1u8], framed(utf8));
        law_hashes_go_on(
            wrote_u8(state, 1),
            spec_u64_to_le_bytes(utf8.len() as u64),
            utf8,
        );
    }
}

proof fn lemma_wrote_pixmap(state: u64, pixmap: IconPixmap)
    ensures
        wrote_pixmap(state, pixmap) == fnv64(state, pixmap_bytes(pixmap)),
{
    let width = spec_u32_to_le_bytes(pixmap.width as u32);
    let height = spec_u32_to_le_bytes(pixmap.height as u32);
    let first = wrote_u32(state, pixmap.width as u32);
    let second = wrote_u32(first, pixmap.height as u32);
    law_hashes_go_on(state, spec_u64_to_le_bytes(width.len() as u64), width);
    law_hashes_go_on(first, spec_u64_to_le_bytes(height.len() as u64), height);
    law_hashes_go_on(
        second,
        spec_u64_to_le_bytes(pixmap.pixels@.len() as u64),
        pixmap.pixels@,
    );
    law_hashes_go_on(state, framed(width), framed(height));
    law_hashes_go_on(state, framed(width) + framed(height), framed(pixmap.pixels@));
}

proof fn lemma_wrote_each(state: u64, pixmaps: Seq<IconPixmap>)
    ensures
        wrote_each(state, pixmaps) == fnv64(state, pixmaps_bytes(pixmaps)),
    decreases pixmaps.len(),
{
    if pixmaps.len() > 0 {
        lemma_wrote_each(state, pixmaps.drop_last());
        lemma_wrote_pixmap(wrote_each(state, pixmaps.drop_last()), pixmaps.last());
        law_hashes_go_on(
            state,
            pixmaps_bytes(pixmaps.drop_last()),
            pixmap_bytes(pixmaps.last()),
        );
    }
}

/// The signature of an item is the hash of everything that its icon is made of, and of
/// nothing else: its status, id and theme and the icon that is selected.
pub proof fn law_signatures_are_of_the_icon(item: TrayItem)
    ensures
        signature_of(item) == fnv64(FNV_OFFSET, icon_bytes(item)),
{
    let status = crate::tray::status_code(item.status);
    let theme = crate::text::option_view(item.icon_theme_path);
    let name = crate::text::option_view(selected_name(item));
    let id = encode_utf8(item.id@);
    let s1 = wrote_u8(FNV_OFFSET, status);
    let s2 = wrote(s1, id);
    let s3 = wrote_option(s2, theme);
    let s4 = wrote_option(s3, name);
    lemma_wrote(s1, id, theme);
    lemma_wrote(s2, id, theme);
    lemma_wrote(s3, id, name);
    let b1 = seq![status];
    let b2 = framed(id);
    let b3 = optional_bytes(theme);
    let b4 = optional_bytes(name);
    let b5 = match selected_pixmaps(item) {
        Some(pixmaps) => spec_u64_to_le_bytes(pixmaps@.len() as u64) + pixmaps_bytes(pixmaps@),
        None => spec_u64_to_le_bytes(0),
    };
    law_hashes_go_on(FNV_OFFSET, b1, b2);
    law_hashes_go_on(FNV_OFFSET, b1 + b2, b3);
    law_hashes_go_on(FNV_OFFSET, b1 + b2 + b3, b4);
    law_hashes_go_on(FNV_OFFSET, b1 + b2 + b3 + b4, b5);
    if let Some(pixmaps) = selected_pixmaps(item) {
        let counted = wrote_u64(s4, pixmaps@.len() as u64);
        lemma_wrote_each(counted, pixmaps@);
        law_hashes_go_on(
            s4,
            spec_u64_to_le_bytes(pixmaps@.len() as u64),
            pixmaps_bytes(pixmaps@),
        );
    }
    assert(wrote_pixmaps(s4, selected_pixmaps(item)) == fnv64(s4, b5));
}

/// A snapshot of the tray goes on with the address and the revision of each icon.
pub proof fn law_snapshots_go_on(icons: Seq<TrayIconView>, icon: TrayIconView)
    ensures
        snapshot_of(icons.push(icon)) == fnv64(
            snapshot_of(icons),
            framed(encode_utf8(icon.id)) + spec_u64_to_le_bytes(icon.revision),
        ),
        snapshot_of(Seq::empty()) == FNV_OFFSET,
{
    assert(icons.push(icon).drop_last() =~= icons);
    let before = snapshot_of(icons);
    let id = encode_utf8(icon.id);
    law_hashes_go_on(before, spec_u64_to_le_bytes(id.len() as u64), id);
    law_hashes_go_on(before, framed(id), spec_u64_to_le_bytes(icon.revision));
}

} // verus!
