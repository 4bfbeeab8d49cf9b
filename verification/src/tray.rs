//! Tray icons and their menus.

pub mod laws;

use vstd::prelude::*;
use vstd::slice::slice_subrange;
use vstd::bytes::{spec_u32_to_le_bytes, spec_u64_to_le_bytes, u32_to_le_bytes, u64_to_le_bytes};
use vstd::utf8::encode_utf8;

use crate::icons::{fallback_icon, fallback_pixels, fnv64, hash_from, image_revision, revision_of};
use crate::order::{
    comes_before, in_order, is_weak_order, lemma_sorted_contents, lemma_sorted_in_order,
    lemma_text_order, lemma_text_transitive, sort, sorted, text_before, Ranked,
};
use crate::render::pixels::Bitmap;
use crate::text::{
    chars_of, find_char, find_text, found_at, option_view, position_of, push_chars, same_text,
    string_of, string_views, trim, trimmed,
};

verus! {

pub const BTN_LEFT: u32 = 0x110;

pub const BTN_RIGHT: u32 = 0x111;

pub const BTN_MIDDLE: u32 = 0x112;

#[derive(Clone, Copy, Debug, PartialEq, Eq, Structural)]
pub enum MenuType {
    Separator,
    Standard,
}

#[derive(Clone, Copy, Debug, PartialEq, Eq, Structural)]
pub enum ToggleType {
    Checkmark,
    Radio,
    CannotBeToggled,
}

#[derive(Clone, Copy, Debug, PartialEq, Eq, Structural)]
pub enum ToggleState {
    On,
    Off,
    Indeterminate,
}

/// An item of a menu that an application exports.
#[derive(Debug)]
pub struct MenuItem {
    pub id: i32,
    pub menu_type: MenuType,
    pub label: Option<String>,
    pub enabled: bool,
    pub visible: bool,
    pub toggle_type: ToggleType,
    pub toggle_state: ToggleState,
    pub children_display: Option<String>,
    pub submenu: Vec<MenuItem>,
}

/// An entry of a menu that the bar shows.
#[derive(Debug)]
pub struct TrayMenuEntry {
    pub id: i32,
    pub label: String,
    pub enabled: bool,
    pub separator: bool,
    pub submenu: Vec<TrayMenuEntry>,
    pub toggle_type: ToggleType,
    pub toggle_state: ToggleState,
}

/// The view of a menu entry.
pub ghost struct MenuEntryView {
    pub id: i32,
    pub label: Seq<char>,
    pub enabled: bool,
    pub separator: bool,
    pub submenu: Seq<MenuEntryView>,
    pub toggle_type: ToggleType,
    pub toggle_state: ToggleState,
}

/// The view of one entry.
pub open spec fn entry_view(entry: TrayMenuEntry) -> MenuEntryView
    decreases entry,
{
    MenuEntryView {
        id: entry.id,
        label: entry.label@,
        enabled: entry.enabled,
        separator: entry.separator,
        submenu: entry_views(entry.submenu@),
        toggle_type: entry.toggle_type,
        toggle_state: entry.toggle_state,
    }
}

/// The views of some entries.
pub open spec fn entry_views(entries: Seq<TrayMenuEntry>) -> Seq<MenuEntryView>
    decreases entries,
{
    if entries.len() == 0 {
        Seq::empty()
    } else {
        entry_views(entries.drop_last()).push(entry_view(entries.last()))
    }
}

/// Two underscores stand for one, and a single one marks an accelerator.
pub open spec fn without_markers(label: Seq<char>) -> Seq<char>
    decreases label.len(),
{
    if label.len() == 0 {
        Seq::empty()
    } else if label[0] == '_' {
        if label.len() > 1 && label[1] == '_' {
            seq!['_'] + without_markers(label.skip(2))
        } else {
            without_markers(label.drop_first())
        }
    } else {
        seq![label[0]] + without_markers(label.drop_first())
    }
}

pub fn clean_menu_label(label: &str) -> (result: String)
    ensures
        result@ == without_markers(label@),
{
    let characters = chars_of(label);
    let mut output = String::new();
    let mut i: usize = 0;
    assert(label@.skip(0) =~= label@);
    assert(output@ + without_markers(label@) =~= without_markers(label@));
    while i < characters.len()
        invariant
            characters@ == label@,
            i <= characters@.len(),
            output@ + without_markers(label@.skip(i as int)) == without_markers(label@),
        decreases characters@.len() - i,
    {
        let ghost rest = label@.skip(i as int);
        let ghost written = output@;
        assert(rest.drop_first() =~= label@.skip(i + 1));
        if characters[i] == '_' {
            if i + 1 < characters.len() && characters[i + 1] == '_' {
                assert(rest.skip(2) =~= label@.skip(i + 2));
                output.push('_');
                assert(written + (seq!['_'] + without_markers(rest.skip(2))) =~= output@
                    + without_markers(rest.skip(2)));
                i += 2;
            } else {
                i += 1;
            }
        } else {
            output.push(characters[i]);
            assert(written + (seq![rest[0]] + without_markers(rest.drop_first())) =~= output@
                + without_markers(rest.drop_first()));
            i += 1;
        }
    }
    assert(label@.skip(i as int) =~= Seq::<char>::empty());
    assert(output@ + Seq::<char>::empty() =~= output@);
    output
}

/// The label of an item; a separator has none.
pub open spec fn item_label(item: MenuItem) -> Seq<char> {
    if item.menu_type == MenuType::Separator {
        Seq::empty()
    } else {
        match option_view(item.label) {
            Some(label) => without_markers(label),
            None => Seq::empty(),
        }
    }
}

/// Whether an item says that it opens a submenu.
pub open spec fn is_submenu(item: MenuItem) -> bool {
    option_view(item.children_display) == Some("submenu"@) || item.submenu@.len() > 0
}

/// The entry of an item: none for a hidden or an unnamed one. A submenu without
/// entries cannot be activated.
pub open spec fn entry_of(item: MenuItem) -> Option<MenuEntryView>
    decreases item,
{
    let separator = item.menu_type == MenuType::Separator;
    let submenu = entries_of(item.submenu@);
    if !item.visible || (!separator && item_label(item).len() == 0) {
        None
    } else {
        Some(
            MenuEntryView {
                id: item.id,
                label: item_label(item),
                enabled: item.enabled && (!is_submenu(item) || submenu.len() > 0),
                separator,
                submenu,
                toggle_type: item.toggle_type,
                toggle_state: item.toggle_state,
            },
        )
    }
}

/// The entries of some items.
pub open spec fn entries_of(items: Seq<MenuItem>) -> Seq<MenuEntryView>
    decreases items,
{
    if items.len() == 0 {
        Seq::empty()
    } else {
        let before = entries_of(items.drop_last());
        match entry_of(items.last()) {
            Some(entry) => before.push(entry),
            None => before,
        }
    }
}

/// The view of an optional entry.
pub open spec fn optional_entry(entry: Option<TrayMenuEntry>) -> Option<MenuEntryView> {
    match entry {
        Some(entry) => Some(entry_view(entry)),
        None => None,
    }
}

pub fn menu_entry(item: &MenuItem) -> (result: Option<TrayMenuEntry>)
    ensures
        optional_entry(result) == entry_of(*item),
    decreases item,
{
    if !item.visible {
        return None;
    }
    let separator = item.menu_type == MenuType::Separator;
    let label = if separator {
        String::new()
    } else {
        match &item.label {
            Some(label) => clean_menu_label(label.as_str()),
            None => String::new(),
        }
    };
    if !separator && label.as_str().is_empty() {
        return None;
    }
    let submenu = menu_entries(&item.submenu);
    let displayed = match &item.children_display {
        Some(display) => same_text(display.as_str(), "submenu"),
        None => false,
    };
    let is_submenu = displayed || item.submenu.len() > 0;
    proof {
        lemma_entry_views_len(submenu@);
    }
    let entry = TrayMenuEntry {
        id: item.id,
        label,
        enabled: item.enabled && (!is_submenu || submenu.len() > 0),
        separator,
        submenu,
        toggle_type: item.toggle_type,
        toggle_state: item.toggle_state,
    };
    assert(entry_view(entry) == entry_of(*item)->0);
    Some(entry)
}

/// A copy of an entry with its submenu.
pub fn copy_entry(entry: &TrayMenuEntry) -> (result: TrayMenuEntry)
    ensures
        entry_view(result) == entry_view(*entry),
    decreases entry,
{
    TrayMenuEntry {
        id: entry.id,
        label: entry.label.clone(),
        enabled: entry.enabled,
        separator: entry.separator,
        submenu: copy_entries(&entry.submenu),
        toggle_type: entry.toggle_type,
        toggle_state: entry.toggle_state,
    }
}

/// A copy of some entries with their submenus.
pub fn copy_entries(entries: &Vec<TrayMenuEntry>) -> (result: Vec<TrayMenuEntry>)
    ensures
        entry_views(result@) == entry_views(entries@),
    decreases entries@,
{
    let mut copy: Vec<TrayMenuEntry> = Vec::new();
    let mut i: usize = 0;
    assert(entries@.take(0) =~= Seq::<TrayMenuEntry>::empty());
    assert(copy@ =~= Seq::<TrayMenuEntry>::empty());
    while i < entries.len()
        invariant
            i <= entries@.len(),
            entry_views(copy@) == entry_views(entries@.take(i as int)),
        decreases entries@.len() - i,
    {
        let entry = &entries[i];
        assert(decreases_to!(entries@ => entries@[i as int]));
        let next = copy_entry(entry);
        let ghost before = copy@;
        copy.push(next);
        assert(copy@.drop_last() =~= before);
        assert(entries@.take(i + 1).drop_last() =~= entries@.take(i as int));
        i += 1;
    }
    assert(entries@.take(i as int) =~= entries@);
    copy
}

pub proof fn lemma_entry_views_len(entries: Seq<TrayMenuEntry>)
    ensures
        entry_views(entries).len() == entries.len(),
    decreases entries.len(),
{
    if entries.len() > 0 {
        lemma_entry_views_len(entries.drop_last());
    }
}

pub fn menu_entries(items: &Vec<MenuItem>) -> (result: Vec<TrayMenuEntry>)
    ensures
        entry_views(result@) == entries_of(items@),
    decreases items@,
{
    let mut result: Vec<TrayMenuEntry> = Vec::new();
    let mut i: usize = 0;
    assert(items@.take(0) =~= Seq::<MenuItem>::empty());
    while i < items.len()
        invariant
            i <= items@.len(),
            entry_views(result@) == entries_of(items@.take(i as int)),
        decreases items@.len() - i,
    {
        assert(items@.take(i + 1).drop_last() =~= items@.take(i as int));
        assert(items@.take(i + 1).last() == items@[i as int]);
        assert(decreases_to!(items@ => items@[i as int]));
        if let Some(entry) = menu_entry(&items[i]) {
            assert(result@.push(entry).drop_last() =~= result@);
            result.push(entry);
        }
        i += 1;
    }
    assert(items@.take(i as int) =~= items@);
    result
}

/// A menu to open beside the tray icon at a place.
#[derive(Debug)]
pub struct TrayMenuPopup {
    pub address: String,
    pub menu_path: String,
    pub x: i32,
    pub y: i32,
    pub items: Vec<TrayMenuEntry>,
}

/// What the tray's thread reports.
#[derive(Debug)]
pub enum TrayEvent {
    Items(Vec<TrayIcon>),
    Menu(TrayMenuPopup),
}

/// The bus name and the object path of an address that holds both.
pub open spec fn address_parts(address: Seq<char>) -> Option<(Seq<char>, Seq<char>)> {
    let slash = position_of(address, '/');
    if 0 < slash < address.len() {
        Some((address.take(slash), address.skip(slash)))
    } else {
        None
    }
}

/// The view of a pair of strings.
pub open spec fn pair_view(pair: Option<(String, String)>) -> Option<(Seq<char>, Seq<char>)> {
    match pair {
        Some((left, right)) => Some((left@, right@)),
        None => None,
    }
}

pub fn split_item_address(address: &str) -> (result: Option<(String, String)>)
    ensures
        pair_view(result) == address_parts(address@),
{
    let characters = chars_of(address);
    let slash = find_char(characters.as_slice(), '/');
    if slash == 0 || slash >= characters.len() {
        return None;
    }
    let destination = slice_subrange(characters.as_slice(), 0, slash);
    let path = slice_subrange(characters.as_slice(), slash, characters.len());
    assert(destination@ =~= address@.take(slash as int));
    assert(path@ =~= address@.skip(slash as int));
    Some((string_of(destination), string_of(path)))
}

/// The bus name of an address.
pub fn item_destination(address: &str) -> (result: String)
    ensures
        result@ == match address_parts(address@) {
            Some((destination, _)) => destination,
            None => address@,
        },
{
    match split_item_address(address) {
        Some((destination, _)) => destination,
        None => address.to_owned(),
    }
}

/// The path of an item, where the path of its menu tells.
pub open spec fn inferred_path(menu_path: Seq<char>) -> Option<Seq<char>> {
    match found_at(menu_path, "DbusMenu"@, 0) {
        Some(place) => Some(
            menu_path.take(place) + "StatusNotifierItem"@ + menu_path.skip(
                place + "DbusMenu"@.len(),
            ),
        ),
        None => None,
    }
}

pub fn infer_status_notifier_path_from_menu(menu_path: &str) -> (result: Option<String>)
    ensures
        option_view(result) == inferred_path(menu_path@),
{
    let characters = chars_of(menu_path);
    let wanted = chars_of("DbusMenu");
    match find_text(characters.as_slice(), "DbusMenu") {
        Some(place) => {
            let total: usize = characters.len();
            let before = slice_subrange(characters.as_slice(), 0, place);
            let after = slice_subrange(characters.as_slice(), place + wanted.len(), total);
            assert(before@ =~= menu_path@.take(place as int));
            assert(after@ =~= menu_path@.skip(place + wanted@.len()));
            let mut path = string_of(before);
            path.append("StatusNotifierItem");
            push_chars(&mut path, after);
            Some(path)
        },
        None => None,
    }
}

/// The bus name and the paths to ask for a context menu, in order.
pub open spec fn menu_targets(address: Seq<char>, menu_path: Option<Seq<char>>) -> Option<
    (Seq<char>, Seq<Seq<char>>),
> {
    let usual = "/StatusNotifierItem"@;
    match address_parts(address) {
        Some((destination, path)) => Some((destination, seq![path])),
        None => if trimmed(address).len() == 0 {
            None
        } else {
            let inferred = match menu_path {
                Some(path) => inferred_path(path),
                None => None,
            };
            match inferred {
                Some(path) => if path == usual {
                    Some((address, seq![usual]))
                } else {
                    Some((address, seq![path, usual]))
                },
                None => Some((address, seq![usual])),
            }
        },
    }
}

/// The view of context menu targets.
pub open spec fn targets_view(targets: Option<(String, Vec<String>)>) -> Option<
    (Seq<char>, Seq<Seq<char>>),
> {
    match targets {
        Some((destination, paths)) => Some((destination@, string_views(paths@))),
        None => None,
    }
}

pub fn context_menu_targets(address: &str, menu_path: Option<&str>) -> (result: Option<
    (String, Vec<String>),
>)
    ensures
        targets_view(result) == menu_targets(
            address@,
            match menu_path {
                Some(path) => Some(path@),
                None => None,
            },
        ),
{
    let mut paths: Vec<String> = Vec::new();
    if let Some((destination, path)) = split_item_address(address) {
        paths.push(path);
        assert(string_views(paths@) =~= seq![path@]);
        return Some((destination, paths));
    }
    let characters = chars_of(address);
    if trim(characters.as_slice()).len() == 0 {
        return None;
    }
    let inferred = match menu_path {
        Some(path) => infer_status_notifier_path_from_menu(path),
        None => None,
    };
    let usual = "/StatusNotifierItem".to_owned();
    if let Some(path) = inferred {
        if !same_text(path.as_str(), usual.as_str()) {
            paths.push(path);
        }
    }
    paths.push(usual);
    let ghost targets = menu_targets(
        address@,
        match menu_path {
            Some(path) => Some(path@),
            None => None,
        },
    );
    assert(string_views(paths@) =~= (targets->0).1);
    Some((address.to_owned(), paths))
}

/// The kinds of changes that the tray reports of an item.
#[derive(Clone, Copy, Debug, PartialEq, Eq, Structural)]
pub enum TrayChange {
    Added,
    Removed,
    Icon,
    AttentionIcon,
    Status,
    Other,
}

/// Whether a change is one of icons.
pub open spec fn concerns_icons(change: TrayChange) -> bool {
    change != TrayChange::Other
}

/// Whether a change can change the icons that are shown.
pub fn changes_icons(change: TrayChange) -> (result: bool)
    ensures
        result == concerns_icons(change),
{
    match change {
        TrayChange::Other => false,
        _ => true,
    }
}

/// Whether an item is shown and wants attention.
#[derive(Clone, Copy, Debug, PartialEq, Eq, Structural)]
pub enum Status {
    Unknown,
    Passive,
    Active,
    NeedsAttention,
}

/// The number of a status.
pub open spec fn status_code(status: Status) -> u8 {
    match status {
        Status::Unknown => 0,
        Status::Passive => 1,
        Status::Active => 2,
        Status::NeedsAttention => 3,
    }
}

/// An image that an item sends: four bytes a pixel, the alpha channel first.
#[derive(Debug)]
pub struct IconPixmap {
    pub width: i32,
    pub height: i32,
    pub pixels: Vec<u8>,
}

/// What the tray tells about an item.
#[derive(Debug)]
pub struct TrayItem {
    pub address: String,
    pub id: String,
    pub status: Status,
    pub icon_theme_path: Option<String>,
    pub icon_name: Option<String>,
    pub icon_pixmap: Option<Vec<IconPixmap>>,
    pub attention_icon_name: Option<String>,
    pub attention_icon_pixmap: Option<Vec<IconPixmap>>,
    pub item_is_menu: bool,
    pub menu: Option<String>,
}

impl Ranked for TrayItem {
    open spec fn before(self, other: Self) -> bool {
        text_before(self.address@, other.address@)
    }

    fn is_before(&self, other: &Self) -> (result: bool) {
        comes_before(self.address.as_str(), other.address.as_str())
    }
}

/// The items in the order of their addresses, in which their icons are shown.
pub fn order_items(items: Vec<TrayItem>) -> (result: Vec<TrayItem>)
    ensures
        result@ == sorted(items@),
{
    sort(items)
}

/// Items are shown in the order of their addresses, each of them once.
pub proof fn law_items_are_ordered(items: Seq<TrayItem>)
    ensures
        in_order(sorted(items)),
        sorted(items).to_multiset() == items.to_multiset(),
{
    assert(is_weak_order::<TrayItem>()) by {
        assert forall|a: TrayItem, b: TrayItem| #[trigger] a.before(b) implies !b.before(a) by {
            lemma_text_order(a.address@, b.address@);
        }
        assert forall|a: TrayItem, b: TrayItem, c: TrayItem|
            !#[trigger] b.before(a) && !#[trigger] c.before(b) implies !c.before(a) by {
            lemma_text_order(a.address@, b.address@);
            lemma_text_order(b.address@, c.address@);
            lemma_text_order(c.address@, a.address@);
            if c.before(a) {
                if text_before(a.address@, b.address@) {
                    lemma_text_transitive(c.address@, a.address@, b.address@);
                }
            }
        }
    }
    lemma_sorted_in_order(items);
    lemma_sorted_contents(items);
}

/// The icon name of an item: the one for attention, where it is wanted and given.
pub open spec fn selected_name(item: TrayItem) -> Option<String> {
    if item.status == Status::NeedsAttention && item.attention_icon_name is Some {
        item.attention_icon_name
    } else {
        item.icon_name
    }
}

/// The images of an item: those for attention, where it is wanted and they are given.
pub open spec fn selected_pixmaps(item: TrayItem) -> Option<Vec<IconPixmap>> {
    if item.status == Status::NeedsAttention && item.attention_icon_pixmap is Some {
        item.attention_icon_pixmap
    } else {
        item.icon_pixmap
    }
}

pub fn selected_icon(item: &TrayItem) -> (result: (&Option<String>, &Option<Vec<IconPixmap>>))
    ensures
        *result.0 == selected_name(*item),
        *result.1 == selected_pixmaps(*item),
{
    let attention = item.status == Status::NeedsAttention;
    let name = if attention && item.attention_icon_name.is_some() {
        &item.attention_icon_name
    } else {
        &item.icon_name
    };
    let pixmaps = if attention && item.attention_icon_pixmap.is_some() {
        &item.attention_icon_pixmap
    } else {
        &item.icon_pixmap
    };
    (name, pixmaps)
}

/// A running 64-bit FNV-1a hash.
#[derive(Clone, Copy, Debug, PartialEq, Eq, Structural)]
pub struct Fnv64 {
    pub state: u64,
}

/// The state of a hash that nothing was written to.
pub const FNV_OFFSET: u64 = 0xcbf2_9ce4_8422_2325;

pub open spec fn wrote_u8(state: u64, value: u8) -> u64 {
    fnv64(state, seq![value])
}

pub open spec fn wrote_u64(state: u64, value: u64) -> u64 {
    fnv64(state, spec_u64_to_le_bytes(value))
}

/// Bytes are written behind their number.
pub open spec fn wrote(state: u64, bytes: Seq<u8>) -> u64 {
    fnv64(wrote_u64(state, bytes.len() as u64), bytes)
}

pub open spec fn wrote_u32(state: u64, value: u32) -> u64 {
    wrote(state, spec_u32_to_le_bytes(value))
}

pub open spec fn wrote_option(state: u64, value: Option<Seq<char>>) -> u64 {
    match value {
        Some(value) => wrote(wrote_u8(state, 1), encode_utf8(value)),
        None => wrote_u8(state, 0),
    }
}

pub open spec fn wrote_pixmap(state: u64, pixmap: IconPixmap) -> u64 {
    wrote(
        wrote_u32(wrote_u32(state, pixmap.width as u32), pixmap.height as u32),
        pixmap.pixels@,
    )
}

pub open spec fn wrote_each(state: u64, pixmaps: Seq<IconPixmap>) -> u64
    decreases pixmaps.len(),
{
    if pixmaps.len() == 0 {
        state
    } else {
        wrote_pixmap(wrote_each(state, pixmaps.drop_last()), pixmaps.last())
    }
}

pub open spec fn wrote_pixmaps(state: u64, pixmaps: Option<Vec<IconPixmap>>) -> u64 {
    match pixmaps {
        Some(pixmaps) => wrote_each(wrote_u64(state, pixmaps@.len() as u64), pixmaps@),
        None => wrote_u64(state, 0),
    }
}

impl Fnv64 {
    pub fn new() -> (result: Self)
        ensures
            result.state == FNV_OFFSET,
    {
        Fnv64 { state: FNV_OFFSET }
    }

    pub fn write(&mut self, bytes: &Vec<u8>)
        ensures
            final(self).state == wrote(old(self).state, bytes@),
    {
        self.write_u64(bytes.len() as u64);
        self.state = hash_from(self.state, bytes);
    }

    pub fn write_text(&mut self, text: &str)
        ensures
            final(self).state == wrote(old(self).state, encode_utf8(text@)),
    {
        let bytes = vstd::slice::slice_to_vec(text.as_bytes());
        self.write(&bytes);
    }

    pub fn write_option(&mut self, value: &Option<String>)
        ensures
            final(self).state == wrote_option(old(self).state, option_view(*value)),
    {
        match value {
            Some(value) => {
                self.write_u8(1);
                self.write_text(value.as_str());
            },
            None => self.write_u8(0),
        }
    }

    pub fn write_pixmaps(&mut self, pixmaps: &Option<Vec<IconPixmap>>)
        ensures
            final(self).state == wrote_pixmaps(old(self).state, *pixmaps),
    {
        let pixmaps = match pixmaps {
            Some(pixmaps) => pixmaps,
            None => {
                self.write_u64(0);
                return;
            },
        };
        self.write_u64(pixmaps.len() as u64);
        let ghost start = self.state;
        let mut i: usize = 0;
        assert(pixmaps@.take(0) =~= Seq::<IconPixmap>::empty());
        while i < pixmaps.len()
            invariant
                i <= pixmaps@.len(),
                self.state == wrote_each(start, pixmaps@.take(i as int)),
            decreases pixmaps@.len() - i,
        {
            assert(pixmaps@.take(i + 1).drop_last() =~= pixmaps@.take(i as int));
            let pixmap = &pixmaps[i];
            self.write_u32(
                #[verifier::truncate]
                (pixmap.width as u32),
            );
            self.write_u32(
                #[verifier::truncate]
                (pixmap.height as u32),
            );
            self.write(&pixmap.pixels);
            i += 1;
        }
        assert(pixmaps@.take(i as int) =~= pixmaps@);
    }

    pub fn write_u8(&mut self, value: u8)
        ensures
            final(self).state == wrote_u8(old(self).state, value),
    {
        let bytes = vec![value];
        assert(bytes@ =~= seq![value]);
        self.state = hash_from(self.state, &bytes);
    }

    pub fn write_u32(&mut self, value: u32)
        ensures
            final(self).state == wrote_u32(old(self).state, value),
    {
        let bytes = u32_to_le_bytes(value);
        self.write(&bytes);
    }

    pub fn write_u64(&mut self, value: u64)
        ensures
            final(self).state == wrote_u64(old(self).state, value),
    {
        let bytes = u64_to_le_bytes(value);
        self.state = hash_from(self.state, &bytes);
    }

    pub fn finish(&self) -> (result: u64)
        ensures
            result == self.state,
    {
        self.state
    }
}

/// A number that changes with what an item's icon is made from.
pub open spec fn signature_of(item: TrayItem) -> u64 {
    let status = wrote_u8(FNV_OFFSET, status_code(item.status));
    let id = wrote(status, encode_utf8(item.id@));
    let theme = wrote_option(id, option_view(item.icon_theme_path));
    let name = wrote_option(theme, option_view(selected_name(item)));
    wrote_pixmaps(name, selected_pixmaps(item))
}

pub fn item_icon_signature(item: &TrayItem) -> (result: u64)
    ensures
        result == signature_of(*item),
{
    let mut hash = Fnv64::new();
    let code: u8 = match item.status {
        Status::Unknown => 0,
        Status::Passive => 1,
        Status::Active => 2,
        Status::NeedsAttention => 3,
    };
    hash.write_u8(code);
    hash.write_text(item.id.as_str());
    hash.write_option(&item.icon_theme_path);
    let (name, pixmaps) = selected_icon(item);
    hash.write_option(name);
    hash.write_pixmaps(pixmaps);
    hash.finish()
}

/// A channel multiplied by its opacity, rounded.
pub open spec fn premultiplied(channel: int, alpha: int) -> int {
    (channel * alpha + 127) / 255
}

pub fn premultiply(channel: u8, alpha: u8) -> (result: u8)
    ensures
        result == premultiplied(channel as int, alpha as int),
        result <= alpha,
{
    assert(0 <= channel * alpha <= 255 * alpha) by (nonlinear_arith)
        requires
            0 <= channel <= 255,
            0 <= alpha,
    ;
    ((channel as u32 * alpha as u32 + 127) / 255) as u8
}

/// Whether an image has a usable size and all of its pixels.
pub open spec fn usable(pixmap: IconPixmap) -> bool {
    &&& 0 < pixmap.width <= 1024
    &&& 0 < pixmap.height <= 1024
    &&& pixmap.pixels@.len() >= pixmap.width * pixmap.height * 4
}

/// How far the longer side of an image is from the wanted size.
pub open spec fn size_distance(pixmap: IconPixmap, target_size: u32) -> int {
    let size = if pixmap.width >= pixmap.height {
        pixmap.width as int
    } else {
        pixmap.height as int
    };
    if size >= target_size {
        size - target_size
    } else {
        target_size - size
    }
}

/// The first of the usable images nearest in size, among the first `count`.
pub open spec fn best_pixmap(pixmaps: Seq<IconPixmap>, target_size: u32, count: int) -> Option<int>
    decreases count,
{
    if count <= 0 {
        None
    } else {
        let before = best_pixmap(pixmaps, target_size, count - 1);
        let next = pixmaps[count - 1];
        match before {
            None => if usable(next) {
                Some(count - 1)
            } else {
                None
            },
            Some(best) => if usable(next) && size_distance(next, target_size) < size_distance(
                pixmaps[best],
                target_size,
            ) {
                Some(count - 1)
            } else {
                Some(best)
            },
        }
    }
}

/// A premultiplied channel of an image that has its alpha channel first.
pub open spec fn converted(pixels: Seq<u8>, i: int) -> int {
    let pixel = i / 4 * 4;
    if i % 4 == 3 {
        pixels[pixel] as int
    } else {
        premultiplied(pixels[i + 1] as int, pixels[pixel] as int)
    }
}

/// The pixels of a converted image.
pub open spec fn converted_pixels(pixmap: IconPixmap) -> Seq<u8> {
    Seq::new(
        (pixmap.width * pixmap.height * 4) as nat,
        |i: int| converted(pixmap.pixels@, i) as u8,
    )
}

fn convert_pixmap(pixmap: &IconPixmap) -> (result: Bitmap)
    requires
        usable(*pixmap),
    ensures
        result.wf(),
        result.width == pixmap.width,
        result.height == pixmap.height,
        result.pixels@ == converted_pixels(*pixmap),
{
    let width: u32 = pixmap.width as u32;
    let height: u32 = pixmap.height as u32;
    assert(0 <= width * height <= 1024 * 1024) by (nonlinear_arith)
        requires
            0 <= width <= 1024,
            0 <= height <= 1024,
    ;
    let count: usize = (width * height) as usize;
    let mut pixels: Vec<u8> = Vec::new();
    let mut i: usize = 0;
    while i < count
        invariant
            i <= count <= 1024 * 1024,
            pixmap.pixels@.len() >= count * 4,
            pixels@.len() == i * 4,
            forall|k: int| 0 <= k < i * 4 ==> #[trigger] pixels@[k] == converted(pixmap.pixels@, k),
        decreases count - i,
    {
        let alpha: u8 = pixmap.pixels[i * 4];
        let red = premultiply(pixmap.pixels[i * 4 + 1], alpha);
        let green = premultiply(pixmap.pixels[i * 4 + 2], alpha);
        let blue = premultiply(pixmap.pixels[i * 4 + 3], alpha);
        pixels.push(red);
        pixels.push(green);
        pixels.push(blue);
        pixels.push(alpha);
        i += 1;
    }
    assert(pixels@ =~= converted_pixels(*pixmap));
    Bitmap { width, height, pixels }
}

/// The view of an optional bitmap.
pub open spec fn bitmap_view(bitmap: Option<Bitmap>) -> Option<(u32, u32, Seq<u8>)> {
    match bitmap {
        Some(bitmap) => Some((bitmap.width, bitmap.height, bitmap.pixels@)),
        None => None,
    }
}

/// The image that an item's icon is made from, if one is usable.
pub open spec fn loaded_pixmap(pixmaps: Seq<IconPixmap>, target_size: u32) -> Option<
    (u32, u32, Seq<u8>),
> {
    match best_pixmap(pixmaps, target_size, pixmaps.len() as int) {
        Some(best) => Some(
            (
                pixmaps[best].width as u32,
                pixmaps[best].height as u32,
                converted_pixels(pixmaps[best]),
            ),
        ),
        None => None,
    }
}

pub fn load_pixmap(pixmaps: &Vec<IconPixmap>, target_size: u32) -> (result: Option<Bitmap>)
    ensures
        bitmap_view(result) == loaded_pixmap(pixmaps@, target_size),
{
    let mut best: Option<usize> = None;
    let mut i: usize = 0;
    while i < pixmaps.len()
        invariant
            i <= pixmaps@.len(),
            match best {
                Some(place) => place < i && usable(pixmaps@[place as int]) && best_pixmap(
                    pixmaps@,
                    target_size,
                    i as int,
                ) == Some(place as int),
                None => best_pixmap(pixmaps@, target_size, i as int) is None,
            },
        decreases pixmaps@.len() - i,
    {
        if is_usable(&pixmaps[i]) {
            match best {
                Some(place) => if distance(&pixmaps[i], target_size) < distance(
                    &pixmaps[place],
                    target_size,
                ) {
                    best = Some(i);
                },
                None => best = Some(i),
            }
        }
        i += 1;
    }
    match best {
        Some(place) => Some(convert_pixmap(&pixmaps[place])),
        None => None,
    }
}

fn is_usable(pixmap: &IconPixmap) -> (result: bool)
    ensures
        result == usable(*pixmap),
{
    if pixmap.width <= 0 || pixmap.height <= 0 || pixmap.width > 1024 || pixmap.height > 1024 {
        return false;
    }
    assert(0 <= pixmap.width * pixmap.height <= 1024 * 1024) by (nonlinear_arith)
        requires
            0 <= pixmap.width <= 1024,
            0 <= pixmap.height <= 1024,
    ;
    pixmap.pixels.len() >= pixmap.width as usize * pixmap.height as usize * 4
}

fn distance(pixmap: &IconPixmap, target_size: u32) -> (result: u64)
    requires
        usable(*pixmap),
    ensures
        result == size_distance(*pixmap, target_size),
{
    let size: u64 = if pixmap.width >= pixmap.height {
        pixmap.width as u64
    } else {
        pixmap.height as u64
    };
    if size >= target_size as u64 {
        size - target_size as u64
    } else {
        target_size as u64 - size
    }
}

/// An icon of the tray.
#[derive(Debug)]
pub struct TrayIcon {
    pub id: String,
    pub revision: u64,
    /// Premultiplied RGBA pixels.
    pub pixels: Vec<u8>,
    pub width: u32,
    pub height: u32,
}

/// The view of a tray icon.
pub ghost struct TrayIconView {
    pub id: Seq<char>,
    pub revision: u64,
    pub pixels: Seq<u8>,
    pub width: u32,
    pub height: u32,
}

impl View for TrayIcon {
    type V = TrayIconView;

    open spec fn view(&self) -> TrayIconView {
        TrayIconView {
            id: self.id@,
            revision: self.revision,
            pixels: self.pixels@,
            width: self.width,
            height: self.height,
        }
    }
}

impl Clone for TrayIcon {
    fn clone(&self) -> (result: Self)
        ensures
            result@ == self@,
    {
        let pixels = self.pixels.clone();
        TrayIcon {
            id: self.id.clone(),
            revision: self.revision,
            pixels,
            width: self.width,
            height: self.height,
        }
    }
}

/// The image of an item: the one that was found by name, else one that the item
/// sent, else a placeholder.
pub open spec fn item_image(item: TrayItem, found: Option<(u32, u32, Seq<u8>)>, target_size: u32) -> (
    u32,
    u32,
    Seq<u8>,
) {
    let sent = match selected_pixmaps(item) {
        Some(pixmaps) => loaded_pixmap(pixmaps@, target_size),
        None => None,
    };
    match (found, sent) {
        (Some(image), _) => image,
        (None, Some(image)) => image,
        (None, None) => {
            let side = if target_size > 0 {
                target_size
            } else {
                1
            };
            (side, side, fallback_pixels(encode_utf8(item.id@), side as int))
        },
    }
}

/// The icon of an item.
pub open spec fn item_icon(item: TrayItem, found: Option<(u32, u32, Seq<u8>)>, target_size: u32) -> TrayIconView {
    let image = item_image(item, found, target_size);
    TrayIconView {
        id: item.address@,
        revision: revision_of(image.0, image.1, image.2),
        pixels: image.2,
        width: image.0,
        height: image.1,
    }
}

pub fn make_icon(item: &TrayItem, found: Option<Bitmap>, target_size: u32) -> (result: TrayIcon)
    requires
        target_size * target_size * 4 <= u32::MAX,
    ensures
        result@ == item_icon(*item, bitmap_view(found), target_size),
{
    let (_, pixmaps) = selected_icon(item);
    let image = match found {
        Some(image) => image,
        None => {
            let sent = match pixmaps {
                Some(pixmaps) => load_pixmap(pixmaps, target_size),
                None => None,
            };
            match sent {
                Some(image) => image,
                None => fallback_icon(item.id.as_str(), target_size),
            }
        },
    };
    let revision = image_revision(&image);
    TrayIcon {
        id: item.address.clone(),
        revision,
        pixels: image.pixels,
        width: image.width,
        height: image.height,
    }
}

#[derive(Debug)]
pub struct CachedIcon {
    pub signature: u64,
    pub icon: TrayIcon,
}

/// The icons of the tray, and the number of what was shown last.
#[derive(Debug)]
pub struct TrayCache {
    pub icons: Vec<CachedIcon>,
    pub last_snapshot: Option<u64>,
}

/// The first cached icon of an address, from `start` on.
pub open spec fn cached_at(icons: Seq<CachedIcon>, address: Seq<char>, start: int) -> Option<int>
    decreases icons.len() - start,
{
    if start < 0 || start >= icons.len() {
        None
    } else if icons[start].icon.id@ == address {
        Some(start)
    } else {
        cached_at(icons, address, start + 1)
    }
}

/// Whether the icon of an item has to be made anew.
pub open spec fn is_stale(icons: Seq<CachedIcon>, item: TrayItem) -> bool {
    match cached_at(icons, item.address@, 0) {
        Some(place) => icons[place].signature != signature_of(item),
        None => true,
    }
}

/// The icon that is shown for an item: the cached one, or a new one if that is stale.
pub open spec fn shown_icon(
    icons: Seq<CachedIcon>,
    item: TrayItem,
    found: Option<(u32, u32, Seq<u8>)>,
    target_size: u32,
) -> TrayIconView {
    if is_stale(icons, item) {
        item_icon(item, found, target_size)
    } else {
        icons[cached_at(icons, item.address@, 0)->0].icon@
    }
}

/// The number of what is shown: the addresses and revisions of the icons.
pub open spec fn snapshot_of(icons: Seq<TrayIconView>) -> u64
    decreases icons.len(),
{
    if icons.len() == 0 {
        FNV_OFFSET
    } else {
        let before = snapshot_of(icons.drop_last());
        wrote_u64(wrote(before, encode_utf8(icons.last().id)), icons.last().revision)
    }
}

/// The views of some icons.
pub open spec fn icon_views(icons: Seq<TrayIcon>) -> Seq<TrayIconView> {
    Seq::new(icons.len(), |i: int| icons[i]@)
}

/// The view of an optional list of icons.
pub open spec fn optional_icons(icons: Option<Vec<TrayIcon>>) -> Option<Seq<TrayIconView>> {
    match icons {
        Some(icons) => Some(icon_views(icons@)),
        None => None,
    }
}

fn same_bytes(left: &Vec<u8>, right: &Vec<u8>) -> (result: bool)
    ensures
        result == (left@ == right@),
{
    if left.len() != right.len() {
        return false;
    }
    let mut i: usize = 0;
    while i < left.len()
        invariant
            i <= left@.len(),
            left@.len() == right@.len(),
            forall|k: int| 0 <= k < i ==> left@[k] == right@[k],
        decreases left@.len() - i,
    {
        if left[i] != right[i] {
            return false;
        }
        i += 1;
    }
    assert(left@ =~= right@);
    true
}

/// Whether the tray shows other icons than it did.
pub fn icons_changed(current: &Vec<TrayIcon>, next: &Vec<TrayIcon>) -> (result: bool)
    ensures
        result == (icon_views(current@) != icon_views(next@)),
{
    assert(icon_views(current@).len() == current@.len());
    assert(icon_views(next@).len() == next@.len());
    if current.len() != next.len() {
        return true;
    }
    let mut i: usize = 0;
    while i < current.len()
        invariant
            i <= current@.len(),
            current@.len() == next@.len(),
            forall|k: int| 0 <= k < i ==> #[trigger] icon_views(current@)[k] == icon_views(next@)[k],
        decreases current@.len() - i,
    {
        let left = &current[i];
        let right = &next[i];
        if !same_text(left.id.as_str(), right.id.as_str()) || left.revision != right.revision
            || left.width != right.width || left.height != right.height || !same_bytes(
            &left.pixels,
            &right.pixels,
        ) {
            assert(icon_views(current@)[i as int] != icon_views(next@)[i as int]);
            return true;
        }
        i += 1;
    }
    assert(icon_views(current@) =~= icon_views(next@));
    false
}

impl TrayCache {
    pub fn new() -> (result: Self)
        ensures
            result.icons@.len() == 0,
            result.last_snapshot is None,
    {
        TrayCache { icons: Vec::new(), last_snapshot: None }
    }

    /// Forgets all icons, but not what was shown.
    pub fn clear(&mut self)
        ensures
            final(self).icons@.len() == 0,
            final(self).last_snapshot == old(self).last_snapshot,
    {
        self.icons = Vec::new();
    }

    fn find(&self, address: &str) -> (result: Option<usize>)
        ensures
            match result {
                Some(place) => place < self.icons@.len() && cached_at(
                    self.icons@,
                    address@,
                    0,
                ) == Some(place as int),
                None => cached_at(self.icons@, address@, 0) is None,
            },
    {
        let mut i: usize = 0;
        while i < self.icons.len()
            invariant
                i <= self.icons@.len(),
                cached_at(self.icons@, address@, 0) == cached_at(self.icons@, address@, i as int),
            decreases self.icons@.len() - i,
        {
            if same_text(self.icons[i].icon.id.as_str(), address) {
                return Some(i);
            }
            i += 1;
        }
        None
    }

    /// Whether the icon of an item has to be loaded.
    pub fn stale(&self, item: &TrayItem) -> (result: bool)
        ensures
            result == is_stale(self.icons@, *item),
    {
        match self.find(item.address.as_str()) {
            Some(place) => self.icons[place].signature != item_icon_signature(item),
            None => true,
        }
    }

    /// Takes over the items that the tray has now, in the order of their
    /// addresses, with the images that were found by name for the stale ones.
    /// Returns the icons if they differ from what was shown last.
    pub fn publish_items(
        &mut self,
        items: &Vec<TrayItem>,
        found: Vec<Option<Bitmap>>,
        target_size: u32,
    ) -> (result: Option<Vec<TrayIcon>>)
        requires
            target_size * target_size * 4 <= u32::MAX,
            found@.len() == items@.len(),
        ensures
            ({
                let shown = Seq::new(
                    items@.len(),
                    |i: int|
                        shown_icon(old(self).icons@, items@[i], bitmap_view(found@[i]), target_size),
                );
                &&& final(self).last_snapshot == Some(snapshot_of(shown))
                &&& optional_icons(result) == (if old(self).last_snapshot == Some(
                    snapshot_of(shown),
                ) {
                    None
                } else {
                    Some(shown)
                })
                &&& final(self).icons@.len() == items@.len()
                &&& forall|i: int|
                    0 <= i < items@.len() ==> (#[trigger] final(self).icons@[i]).signature
                        == signature_of(items@[i]) && final(self).icons@[i].icon@ == shown[i]
            }),
    {
        let ghost cached = self.icons@;
        let ghost images = found@;
        let ghost shown = Seq::new(
            items@.len(),
            |i: int| shown_icon(cached, items@[i], bitmap_view(images[i]), target_size),
        );
        let mut found = found;
        let mut kept: Vec<CachedIcon> = Vec::new();
        let mut icons: Vec<TrayIcon> = Vec::new();
        let mut snapshot = Fnv64::new();
        let mut i: usize = 0;
        assert(shown.take(0) =~= Seq::<TrayIconView>::empty());
        while i < items.len()
            invariant
                i <= items@.len(),
                target_size * target_size * 4 <= u32::MAX,
                self.icons@ == cached,
                images.len() == items@.len(),
                found@.len() == items@.len(),
                forall|k: int| i <= k < found@.len() ==> found@[k] == images[k],
                shown == Seq::new(
                    items@.len(),
                    |i: int| shown_icon(cached, items@[i], bitmap_view(images[i]), target_size),
                ),
                snapshot.state == snapshot_of(shown.take(i as int)),
                icons@.len() == i,
                kept@.len() == i,
                forall|k: int| 0 <= k < i ==> (#[trigger] icons@[k])@ == shown[k],
                forall|k: int|
                    0 <= k < i ==> (#[trigger] kept@[k]).signature == signature_of(items@[k])
                        && kept@[k].icon@ == shown[k],
            decreases items@.len() - i,
        {
            let item = &items[i];
            let signature = item_icon_signature(item);
            let mut image: Option<Bitmap> = None;
            std::mem::swap(&mut image, &mut found[i]);
            let icon = match self.find(item.address.as_str()) {
                Some(place) => if self.icons[place].signature == signature {
                    self.icons[place].icon.clone()
                } else {
                    make_icon(item, image, target_size)
                },
                None => make_icon(item, image, target_size),
            };
            assert(icon@ == shown[i as int]);
            snapshot.write_text(icon.id.as_str());
            snapshot.write_u64(icon.revision);
            assert(shown.take(i + 1).drop_last() =~= shown.take(i as int));
            icons.push(icon.clone());
            kept.push(CachedIcon { signature, icon });
            i += 1;
        }
        assert(shown.take(i as int) =~= shown);
        assert(icon_views(icons@) =~= shown);
        self.icons = kept;
        let snapshot = snapshot.finish();
        let last = self.last_snapshot;
        self.last_snapshot = Some(snapshot);
        match last {
            Some(last) => if last == snapshot {
                None
            } else {
                Some(icons)
            },
            None => Some(icons),
        }
    }
}

/// What a click on a tray icon does.
#[derive(Debug)]
pub enum ClickAction {
    Nothing,
    Activate,
    SecondaryActivate,
    /// Ask the application for its own context menu.
    ContextMenu,
    Popup(TrayMenuPopup),
}

/// Whether a right click opens a menu of the bar: the item exports one, and
/// something in it is shown.
pub open spec fn opens_popup(item: Option<TrayItem>, menu: Option<Vec<MenuItem>>) -> bool {
    item matches Some(item) && item.menu is Some && (menu matches Some(menu) && entries_of(
        menu@,
    ).len() > 0)
}

/// Whether an action is what a click on an icon does.
pub open spec fn answers_click(
    action: ClickAction,
    id: Seq<char>,
    button: u32,
    x: i32,
    y: i32,
    item: Option<TrayItem>,
    menu: Option<Vec<MenuItem>>,
) -> bool {
    match action {
        ClickAction::Nothing => button != BTN_LEFT && button != BTN_RIGHT && button != BTN_MIDDLE,
        ClickAction::Activate => button == BTN_LEFT && !(item matches Some(item)
            && item.item_is_menu),
        ClickAction::SecondaryActivate => button == BTN_MIDDLE,
        ClickAction::ContextMenu => {
            ||| button == BTN_LEFT && (item matches Some(item) && item.item_is_menu)
            ||| button == BTN_RIGHT && !opens_popup(item, menu)
        },
        ClickAction::Popup(popup) => {
            &&& button == BTN_RIGHT
            &&& opens_popup(item, menu)
            &&& popup.address@ == (match address_parts(id) {
                Some((destination, _)) => destination,
                None => id,
            })
            &&& popup.menu_path@ == item->0.menu->0@
            &&& popup.x == x
            &&& popup.y == y
            &&& entry_views(popup.items@) == entries_of(menu->0@)
        },
    }
}

/// What a click on an icon does, given what the tray knows of its item.
pub fn click_action(
    id: &str,
    button: u32,
    x: i32,
    y: i32,
    item: &Option<TrayItem>,
    menu: &Option<Vec<MenuItem>>,
) -> (result: ClickAction)
    ensures
        answers_click(result, id@, button, x, y, *item, *menu),
{
    if button == BTN_LEFT {
        if let Some(item) = item {
            if item.item_is_menu {
                return ClickAction::ContextMenu;
            }
        }
        return ClickAction::Activate;
    }
    if button == BTN_MIDDLE {
        return ClickAction::SecondaryActivate;
    }
    if button != BTN_RIGHT {
        return ClickAction::Nothing;
    }
    if let (Some(item), Some(menu)) = (item, menu) {
        if let Some(menu_path) = &item.menu {
            let items = menu_entries(menu);
            proof {
                lemma_entry_views_len(items@);
            }
            if items.len() > 0 {
                return ClickAction::Popup(
                    TrayMenuPopup {
                        address: item_destination(id),
                        menu_path: menu_path.clone(),
                        x,
                        y,
                        items,
                    },
                );
            }
        }
    }
    ClickAction::ContextMenu
}

/// A label without underscores stays as it is.
pub proof fn law_plain_labels_are_kept(label: Seq<char>)
    requires
        !label.contains('_'),
    ensures
        without_markers(label) == label,
    decreases label.len(),
{
    if label.len() > 0 {
        assert(label[0] != '_');
        let rest = label.drop_first();
        assert(!rest.contains('_')) by {
            if rest.contains('_') {
                let k = choose|k: int| 0 <= k < rest.len() && rest[k] == '_';
                assert(label[k + 1] == '_');
            }
        }
        law_plain_labels_are_kept(rest);
        assert(seq![label[0]] + rest =~= label);
    } else {
        assert(label =~= Seq::<char>::empty());
    }
}

/// An entry that can be activated is no separator's label, and never a submenu
/// without entries.
pub proof fn law_empty_submenus_are_disabled(item: MenuItem)
    requires
        entry_of(item) is Some,
        is_submenu(item),
        entry_of(item)->0.submenu.len() == 0,
    ensures
        !entry_of(item)->0.enabled,
{
}

} // verus!
