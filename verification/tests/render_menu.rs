use nibari::bar::popup::{OpenPopup, PopupEffect, PopupKey, TrayPages};
use nibari::config::Config;
use nibari::render::bar::Size;
use nibari::render::cache::Renderer;
use nibari::render::menu::{
    menu_fits, menu_font_size, menu_rows, menu_text, prepare_menu, row_ink, text_color, MenuCommand,
    MenuInk, MenuRow, MenuSelection, PreparedMenu, TextInk, INDICATOR_WIDTH, SHADOW, TEXT_PADDING,
};
use nibari::render::pixels::{blend_rect, draw_premultiplied_clipped, Bitmap, PixelRect};
use nibari::render::popup::PreparedPopup;
use nibari::tray::{ToggleState, ToggleType, TrayMenuEntry, BTN_LEFT, BTN_RIGHT};

fn menu_entry(id: i32, label: &str, enabled: bool) -> TrayMenuEntry {
    TrayMenuEntry {
        id,
        label: label.into(),
        enabled,
        separator: false,
        submenu: Vec::new(),
        toggle_type: ToggleType::CannotBeToggled,
        toggle_state: ToggleState::Off,
    }
}

fn entry(id: i32, label: &str) -> TrayMenuEntry {
    menu_entry(id, label, true)
}

fn separator() -> TrayMenuEntry {
    TrayMenuEntry {
        separator: true,
        ..menu_entry(0, "", false)
    }
}

/// The size of a text in a font whose characters are all equally wide.
fn text_size(text: &str, scale: u32) -> Size {
    Size {
        width: 7 * scale as i32 * text.chars().count() as i32,
        height: 16 * scale as i32,
    }
}

fn prepare(entries: &Vec<TrayMenuEntry>, scale: u32, title: Option<&str>) -> PreparedMenu {
    let labels = menu_rows(entries, title.is_some())
        .iter()
        .map(|row| match row {
            MenuRow::Back => text_size(&menu_text(title.unwrap()), scale),
            MenuRow::Separator => text_size("", scale),
            MenuRow::Item(index) => text_size(&menu_text(&entries[*index].label), scale),
        })
        .collect();
    prepare_menu(
        entries,
        title.is_some(),
        scale,
        17,
        &labels,
        text_size("…", scale),
    )
}

fn ink_color(ink: MenuInk) -> [u8; 4] {
    match ink {
        MenuInk::Shadow => [0, 0, 0, 8],
        MenuInk::Border => [60, 60, 60, 255],
        MenuInk::Background => [20, 20, 20, 255],
        MenuInk::Line => [40, 40, 40, 255],
        MenuInk::Thumb => [90, 90, 90, 255],
        MenuInk::Hover => [30, 30, 90, 255],
        MenuInk::Accent => [0, 200, 0, 255],
        MenuInk::Disabled => [80, 80, 80, 255],
        MenuInk::HalfAccent => [10, 110, 10, 255],
        MenuInk::HalfDisabled => [50, 50, 50, 255],
    }
}

fn fill(canvas: &mut Bitmap, area: PixelRect, ink: MenuInk) {
    blend_rect(
        canvas,
        area.x,
        area.y,
        area.width.max(0) as u32,
        area.height.max(0) as u32,
        ink_color(ink),
    );
}

fn blit(canvas: &mut Bitmap, x: i32, y: i32, size: Size, clip: PixelRect) {
    let source = [240, 240, 240, 255].repeat((size.width * size.height) as usize);
    draw_premultiplied_clipped(
        canvas,
        x,
        y,
        size.width as u32,
        size.height as u32,
        &source,
        clip,
    );
}

/// Draws a menu with square corners.
fn paint(menu: &PreparedMenu, selected: Option<MenuSelection>) -> Bitmap {
    let mut canvas = Bitmap::transparent(menu.width, menu.height);
    let mut row = Bitmap::transparent(menu.width, menu.height);
    for command in menu.draw_menu(selected) {
        match command {
            MenuCommand::Clear => canvas.pixels.fill(0),
            MenuCommand::Rounded { area, ink, .. } | MenuCommand::Fill { area, ink } => {
                fill(&mut canvas, area, ink)
            }
            MenuCommand::BeginRow => row.pixels.fill(0),
            MenuCommand::RowRounded { area, ink, .. } | MenuCommand::RowFill { area, ink } => {
                fill(&mut row, area, ink)
            }
            MenuCommand::RowChevron { x, y, ink, .. } | MenuCommand::RowTick { x, y, ink } => {
                let area = PixelRect {
                    x,
                    y,
                    width: 2,
                    height: 2,
                };
                fill(&mut row, area, ink)
            }
            MenuCommand::RowText {
                entry, x, y, clip, ..
            } => {
                blit(&mut row, x, y, menu.entries[entry].text.unwrap(), clip)
            }
            MenuCommand::RowEllipsis { x, y, clip, .. } => {
                blit(&mut row, x, y, menu.ellipsis, clip)
            }
            MenuCommand::EndRow { x, y, clip } => {
                draw_premultiplied_clipped(
                    &mut canvas,
                    x,
                    y,
                    row.width,
                    row.height,
                    &row.pixels,
                    clip,
                );
            }
        }
    }
    canvas
}

#[test]
fn menu_surface_has_transparent_outer_corners() {
    let menu = prepare(&vec![entry(1, "Open")], 1, None);
    let (width, height) = menu.size();
    let pixmap = paint(&menu, None);
    assert_eq!(pixmap.pixel(0, 0)[3], 0);
    assert_eq!(pixmap.pixel(width / 2, height / 2)[3], 255);
}

#[test]
fn menu_separators_are_compact_and_outer_separators_removed() {
    let plain = prepare(&vec![entry(1, "Open"), entry(2, "Quit")], 1, None);
    let grouped = prepare(
        &vec![
            separator(),
            entry(1, "Open"),
            separator(),
            separator(),
            entry(2, "Quit"),
            separator(),
        ],
        1,
        None,
    );
    assert_eq!(grouped.size().1 - plain.size().1, 9);
}

#[test]
fn prepared_menu_supplies_size_and_enabled_hitboxes() {
    let entries = vec![
        entry(1, "Open"),
        separator(),
        menu_entry(2, "Quit", false),
    ];
    let menu = prepare(&entries, 1, None);
    let hitboxes = &menu.hitboxes;

    assert_eq!(hitboxes.len(), 2);
    assert_eq!(hitboxes[0].selection, MenuSelection::Item(1));
    assert!(!hitboxes[1].enabled);
}

#[test]
fn constrained_menu_scrolls_to_actions_without_moving_the_back_header() {
    let entries: Vec<_> = (1..=40).map(|id| entry(id, "Menu action")).collect();
    let mut menu = prepare(&entries, 2, Some("Settings"));
    menu.constrain(400, 500);
    assert_eq!(menu.size(), (400, 500));
    assert!(!menu
        .hitboxes
        .iter()
        .any(|row| row.selection == MenuSelection::Item(40)));
    let back = menu.hitboxes[0];
    assert!(menu.ensure_visible(MenuSelection::Item(40)));
    let last = menu
        .hitboxes
        .iter()
        .find(|row| row.selection == MenuSelection::Item(40))
        .unwrap();
    assert_eq!(
        menu.selection_at(last.x + 1, last.y + last.height / 2),
        Some(MenuSelection::Item(40))
    );
    assert_eq!(menu.hitboxes[0], back);
    assert!(!menu.scroll_by(i32::MAX));
    assert!(menu.scroll_by(i32::MIN));
    assert!(!menu.scroll_by(-1));
    assert_eq!(menu.hitboxes[0], back);
}

#[test]
fn selection_skips_disabled_rows_and_shadow_at_every_scale() {
    for scale in [1, 2, 3] {
        let menu = prepare(
            &vec![
                entry(1, "Open"),
                menu_entry(2, "Unavailable", false),
                entry(3, "Quit"),
            ],
            scale,
            Some("Settings"),
        );
        assert_eq!(menu.selection_at(0, 0), None);
        assert_eq!(menu.next_selection(None, false), Some(MenuSelection::Back));
        assert_eq!(
            menu.next_selection(Some(MenuSelection::Back), false),
            Some(MenuSelection::Item(1))
        );
        assert_eq!(
            menu.next_selection(Some(MenuSelection::Item(1)), false),
            Some(MenuSelection::Item(3))
        );
        assert_eq!(
            menu.next_selection(Some(MenuSelection::Back), true),
            Some(MenuSelection::Item(3))
        );
        for row in &menu.hitboxes {
            assert_eq!(
                menu.selection_at(row.x + row.width / 2, row.y + row.height / 2),
                row.enabled.then_some(row.selection)
            );
            assert_eq!(menu.selection_at(row.x + row.width, row.y), None);
        }
    }
}

#[test]
fn long_menu_labels_stay_inside_the_card() {
    let menu = prepare(
        &vec![entry(1, &"An extremely long menu label ".repeat(100))],
        2,
        None,
    );
    assert_eq!(menu.size().0, (360 + 2 * SHADOW as u32) * 2);
    let pixmap = paint(&menu, Some(MenuSelection::Item(1)));
    assert_eq!(pixmap.pixel(menu.width - 1, menu.height / 2)[3], 0);
    assert_eq!(
        menu.selection_at(menu.width as i32 - 1, menu.height as i32 / 2),
        None
    );
}

#[test]
fn hover_only_changes_enabled_rows() {
    let menu = prepare(
        &vec![entry(1, "Open"), menu_entry(2, "Unavailable", false)],
        1,
        None,
    );
    let plain = paint(&menu, None);
    let hover = paint(&menu, Some(MenuSelection::Item(2)));
    assert_eq!(plain.pixels, hover.pixels);
    let hover = paint(&menu, Some(MenuSelection::Item(1)));
    assert_ne!(plain.pixels, hover.pixels);
}

#[test]
fn radio_submenu_keeps_a_back_header_and_distinct_selected_state() {
    let entries: Vec<_> = ["Online", "Away", "Do not disturb", "Invisible"]
        .iter()
        .enumerate()
        .map(|(index, label)| {
            let mut item = entry(index as i32 + 10, label);
            item.toggle_type = ToggleType::Radio;
            item.toggle_state = if index == 0 {
                ToggleState::On
            } else {
                ToggleState::Off
            };
            item
        })
        .collect();
    let menu = prepare(&entries, 2, Some("Status"));
    let pixmap = paint(&menu, None);
    assert_eq!(menu.hitboxes[0].selection, MenuSelection::Back);
    let on = menu.hitboxes[1];
    let off = menu.hitboxes[2];
    let indicator_x = (on.x + (TEXT_PADDING + 7) * 2) as u32;
    assert_ne!(
        pixmap.pixel(indicator_x, (on.y + on.height / 2) as u32),
        pixmap.pixel(indicator_x, (off.y + off.height / 2) as u32)
    );
}

#[test]
fn render_menu_preview() {
    let mut notifications = entry(2, "Notifications");
    notifications.toggle_type = ToggleType::Checkmark;
    notifications.toggle_state = ToggleState::On;
    let mut sound = entry(3, "Message sounds");
    sound.toggle_type = ToggleType::Checkmark;
    let mut status = entry(4, "Status");
    status.submenu = vec![entry(10, "Online")];
    let entries = vec![
        entry(1, "Open application"),
        separator(),
        notifications,
        sound,
        status,
        separator(),
        menu_entry(5, "Check for updates", false),
        entry(6, "Preferences"),
        entry(7, "Quit"),
    ];
    let menu = prepare(&entries, 2, None);
    let pixmap = paint(&menu, Some(MenuSelection::Item(4)));
    assert_eq!(menu.hitboxes.len(), 7);
    assert!(pixmap
        .pixels
        .chunks_exact(4)
        .any(|pixel| pixel[3] > 0 && pixel[3] < 255));
}

#[test]
fn toggles_make_room_for_their_marks() {
    let plain = prepare(&vec![entry(1, &"m".repeat(40))], 1, None);
    let mut marked = entry(1, &"m".repeat(40));
    marked.toggle_type = ToggleType::Checkmark;
    let marked = prepare(&vec![marked], 1, None);
    assert_eq!(
        marked.size().0 - plain.size().0,
        INDICATOR_WIDTH as u32
    );
}

#[test]
fn menu_texts_are_bounded_and_their_font_is_readable() {
    let long = "m".repeat(1000);
    assert!(menu_text(&long).chars().count() < 1000);
    assert_eq!(menu_text("Open"), "Open");
    assert_eq!(menu_font_size(20.0_f32.to_bits()), 20.0_f32.to_bits());
    assert_eq!(menu_font_size(9.0_f32.to_bits()), 13.0_f32.to_bits());
}

fn open_menu() -> OpenPopup {
    let entries = || {
        let mut more = entry(2, "More");
        more.submenu = vec![entry(3, "Inside")];
        vec![entry(1, "Open"), more, menu_entry(4, "Closed", false)]
    };
    let pages = TrayPages {
        address: ":1.7".into(),
        menu_path: "/menu".into(),
        entries: entries(),
        pages: vec![],
        title: None,
    };
    let prepared = PreparedPopup::Tray(prepare(&entries(), 1, None));
    let (popup, placement) = OpenPopup::open(Some(pages), prepared, 1900, 1920, 1080, 1, 28);
    assert_eq!(placement.top, 28);
    assert!(placement.left as u32 + placement.width <= 1920);
    popup
}

#[test]
fn keys_walk_take_and_close_a_menu() {
    let mut popup = open_menu();
    assert_eq!(popup.press_key(PopupKey::Down), PopupEffect::Nothing);
    assert_eq!(popup.selected, Some(MenuSelection::Item(1)));
    popup.press_key(PopupKey::Down);
    assert_eq!(popup.selected, Some(MenuSelection::Item(2)));
    popup.press_key(PopupKey::Down);
    assert_eq!(popup.selected, Some(MenuSelection::Item(1)));
    popup.press_key(PopupKey::Up);
    assert_eq!(popup.press_key(PopupKey::Enter), PopupEffect::Relayout);
    let pages = popup.tray.as_ref().unwrap();
    assert_eq!(pages.title.as_deref(), Some("More"));
    assert_eq!(popup.press_key(PopupKey::Left), PopupEffect::Relayout);
    assert_eq!(popup.press_key(PopupKey::Escape), PopupEffect::Close);
}

#[test]
fn the_pointer_selects_takes_and_closes_a_menu() {
    let mut popup = open_menu();
    let (x, y) = match &popup.prepared {
        PreparedPopup::Tray(menu) => (menu.hitboxes[0].x + 1, menu.hitboxes[0].y + 1),
        _ => unreachable!(),
    };
    popup.pointer_moved(x, y);
    assert_eq!(popup.selected, Some(MenuSelection::Item(1)));
    popup.pointer_left();
    assert_eq!(popup.selected, None);
    assert_eq!(popup.click(BTN_LEFT, x, y), PopupEffect::Activate(1));
    assert_eq!(popup.click(BTN_RIGHT, x, y), PopupEffect::Close);
    assert_eq!(popup.click(BTN_LEFT, 0, 0), PopupEffect::Nothing);
}

#[test]
fn the_scroll_mark_stays_on_its_track() {
    let entries: Vec<_> = (1..=40).map(|id| entry(id, "Menu action")).collect();
    let mut menu = prepare(&entries, 2, None);
    assert!(menu.scroll_thumb(100).is_none());
    menu.constrain(400, 500);
    let track = menu.viewport();
    assert_eq!(
        menu.scroll_thumb(100),
        Some(MenuCommand::Rounded {
            area: PixelRect {
                x: 368,
                y: track.y,
                width: 4,
                height: 100,
            },
            radius: 2,
            ink: MenuInk::Thumb,
        })
    );
    menu.scroll_by(i32::MAX);
    for (share, height) in [(100, 100), (0, 32), (i32::MAX, track.height)] {
        let Some(MenuCommand::Rounded { area, .. }) = menu.scroll_thumb(share) else {
            panic!("there is no mark");
        };
        assert_eq!(area.height, height);
        assert_eq!(area.y + area.height, track.y + track.height);
    }
}

#[test]
fn menus_have_a_largest_size() {
    assert!(menu_fits(40, 2, 17));
    assert!(menu_fits(0, 0, 0));
    assert!(menu_fits(5, 0x1_0000, 17));
    assert!(!menu_fits(15, 0x1_0000, 17));
    assert!(!menu_fits(40, 0x1_0001, 17));
    assert!(!menu_fits(40, 2, 1001));
    assert!(!menu_fits(40, 2, -1));
    assert!(!menu_fits(usize::MAX, 1, 17));
}

#[test]
fn texts_and_their_marks_tell_what_can_be_taken() {
    let long = "A label that is far too long to fit into the card of a menu";
    let entries = vec![
        menu_entry(1, long, true),
        separator(),
        menu_entry(2, long, false),
    ];
    let rows = menu_rows(&entries, true);
    let menu = prepare(&entries, 1, Some(long));
    let expected = [
        Some(TextInk::Header),
        None,
        Some(TextInk::Usual),
        None,
        Some(TextInk::Disabled),
    ];
    for ((row, entry), ink) in rows.iter().zip(&menu.entries).zip(expected) {
        assert_eq!(row_ink(&entries, *row), ink);
        if let Some(ink) = ink {
            assert_eq!(entry.ink(), ink);
        }
    }
    let drawn: Vec<TextInk> = menu
        .draw_menu(None)
        .iter()
        .filter_map(|command| match command {
            MenuCommand::RowText { ink, .. } | MenuCommand::RowEllipsis { ink, .. } => Some(*ink),
            _ => None,
        })
        .collect();
    assert_eq!(
        drawn,
        [
            TextInk::Header,
            TextInk::Header,
            TextInk::Usual,
            TextInk::Usual,
            TextInk::Disabled,
            TextInk::Disabled,
        ]
    );

    let config = Config {
        foreground: "#010203".into(),
        workspace_empty_foreground: "#040506".into(),
        workspace_active_foreground: "#070809".into(),
        ..Config::default()
    };
    let style = Renderer::new(&config).style;
    assert_eq!(text_color(&style, TextInk::Usual), [1, 2, 3, 255]);
    assert_eq!(text_color(&style, TextInk::Disabled), [4, 5, 6, 255]);
    assert_eq!(text_color(&style, TextInk::Header), [7, 8, 9, 255]);
}
