use nibari::render::pixels::Bitmap;
use nibari::tray::{
    changes_icons, clean_menu_label, click_action, context_menu_targets,
    infer_status_notifier_path_from_menu, item_destination, item_icon_signature, load_pixmap,
    menu_entries, menu_entry, order_items, premultiply, selected_icon, split_item_address,
    ClickAction, IconPixmap, MenuItem, MenuType, Status, ToggleState, ToggleType, TrayCache,
    TrayChange, TrayItem, TrayMenuEntry, BTN_LEFT, BTN_MIDDLE, BTN_RIGHT,
};

#[test]
fn splits_status_notifier_item_address_with_custom_object_path() {
    assert_eq!(
        split_item_address(":1.197/org/chromium/StatusNotifierItem/1"),
        Some((
            ":1.197".to_owned(),
            "/org/chromium/StatusNotifierItem/1".to_owned()
        ))
    );
    assert_eq!(
        split_item_address(":1.255/StatusNotifierItem"),
        Some((":1.255".to_owned(), "/StatusNotifierItem".to_owned()))
    );
    assert_eq!(split_item_address(":1.255"), None);
}

#[test]
fn infers_chromium_status_notifier_path_from_dbus_menu_path() {
    assert_eq!(
        infer_status_notifier_path_from_menu("/org/chromium/DbusMenu/1").as_deref(),
        Some("/org/chromium/StatusNotifierItem/1")
    );
    assert_eq!(infer_status_notifier_path_from_menu("/MenuBar"), None);
}

#[test]
fn context_menu_targets_fall_back_from_short_address() {
    assert_eq!(
        context_menu_targets(":1.197", Some("/org/chromium/DbusMenu/1")),
        Some((
            ":1.197".to_owned(),
            vec![
                "/org/chromium/StatusNotifierItem/1".to_owned(),
                "/StatusNotifierItem".to_owned()
            ]
        ))
    );
    assert_eq!(
        context_menu_targets(":1.255", Some("/MenuBar")),
        Some((":1.255".to_owned(), vec!["/StatusNotifierItem".to_owned()]))
    );
}

#[test]
fn dbus_menu_labels_strip_accelerator_markers() {
    assert_eq!(clean_menu_label("_Open _Telegram"), "Open Telegram");
    assert_eq!(
        clean_menu_label("Escaped __ underscore"),
        "Escaped _ underscore"
    );
}

fn dbus_menu_item(id: i32, label: &str) -> MenuItem {
    MenuItem {
        id,
        menu_type: MenuType::Standard,
        label: Some(label.to_owned()),
        enabled: true,
        visible: true,
        toggle_type: ToggleType::CannotBeToggled,
        toggle_state: ToggleState::Off,
        children_display: None,
        submenu: vec![],
    }
}

#[test]
fn empty_submenus_cannot_be_activated_as_leaf_actions() {
    let mut parent = dbus_menu_item(1, "Status");
    parent.children_display = Some("submenu".into());
    assert!(!menu_entry(&parent).unwrap().enabled);
    let mut child = dbus_menu_item(2, "Hidden status");
    child.visible = false;
    parent.submenu.push(child);
    assert!(!menu_entry(&parent).unwrap().enabled);
    parent.submenu[0].visible = true;
    assert!(menu_entry(&parent).unwrap().enabled);
}

fn differ(left: &Option<TrayMenuEntry>, right: &Option<TrayMenuEntry>) -> bool {
    format!("{left:?}") != format!("{right:?}")
}

#[test]
fn menu_conversion_preserves_nested_actions() {
    let mut parent = dbus_menu_item(1, "_Settings");
    let mut child = dbus_menu_item(2, "_Notifications");
    let mut disabled = dbus_menu_item(3, "_Quiet mode");
    disabled.enabled = false;
    child.submenu.push(disabled);
    let mut hidden = dbus_menu_item(4, "Hidden");
    hidden.visible = false;
    child.submenu.push(hidden);
    child.submenu.push(dbus_menu_item(5, ""));
    let mut separator = dbus_menu_item(6, "Ignored separator label");
    separator.menu_type = MenuType::Separator;
    child.submenu.push(separator);
    parent.submenu.push(child);
    let with_child = menu_entry(&parent);

    parent.submenu.clear();
    assert!(differ(&with_child, &menu_entry(&parent)));

    let entry = with_child.unwrap();
    assert_eq!(entry.label, "Settings");
    assert_eq!(entry.submenu.len(), 1);
    let child = &entry.submenu[0];
    assert_eq!((child.id, child.label.as_str()), (2, "Notifications"));
    assert_eq!(child.submenu.len(), 2);
    let disabled = &child.submenu[0];
    assert_eq!((disabled.id, disabled.label.as_str()), (3, "Quiet mode"));
    assert!(!disabled.enabled);
    assert!(disabled.submenu.is_empty());
    assert!(child.submenu[1].separator);
    assert!(child.submenu[1].label.is_empty());
}

#[test]
fn menu_conversion_preserves_toggle_state() {
    let mut item = dbus_menu_item(1, "_Notifications");
    item.toggle_type = ToggleType::Checkmark;
    item.toggle_state = ToggleState::On;
    let checked = menu_entry(&item);

    item.toggle_state = ToggleState::Off;
    assert!(differ(&checked, &menu_entry(&item)));
    assert_eq!(checked.unwrap().toggle_state, ToggleState::On);
    assert_eq!(menu_entry(&item).unwrap().toggle_state, ToggleState::Off);
    item.toggle_state = ToggleState::Indeterminate;
    assert_eq!(
        menu_entry(&item).unwrap().toggle_state,
        ToggleState::Indeterminate
    );
}

#[test]
fn menu_conversion_preserves_toggle_type() {
    let mut item = dbus_menu_item(1, "_Notifications");
    item.toggle_type = ToggleType::Checkmark;
    let checkbox = menu_entry(&item);

    item.toggle_type = ToggleType::Radio;
    assert!(differ(&checkbox, &menu_entry(&item)));
    assert_eq!(checkbox.unwrap().toggle_type, ToggleType::Checkmark);
    assert_eq!(menu_entry(&item).unwrap().toggle_type, ToggleType::Radio);
}

#[test]
fn converts_argb_to_premultiplied_rgba() {
    let icon = IconPixmap {
        width: 1,
        height: 1,
        pixels: vec![128, 200, 100, 50],
    };
    let pixmap = load_pixmap(&vec![icon], 16).unwrap();
    assert_eq!(pixmap.pixels, [100, 50, 25, 128]);
}

#[test]
fn ignores_invalid_pixmaps() {
    let icon = IconPixmap {
        width: 16,
        height: 16,
        pixels: vec![0; 4],
    };
    assert!(load_pixmap(&vec![icon], 16).is_none());
}

#[test]
fn channels_are_rounded_when_premultiplied() {
    assert_eq!(premultiply(200, 128), 100);
    assert_eq!(premultiply(255, 255), 255);
    assert_eq!(premultiply(1, 127), 0);
    assert_eq!(premultiply(1, 128), 1);
}

fn item(address: &str) -> TrayItem {
    TrayItem {
        address: address.into(),
        id: "app".into(),
        status: Status::Active,
        icon_theme_path: None,
        icon_name: Some("app".into()),
        icon_pixmap: None,
        attention_icon_name: Some("app-attention".into()),
        attention_icon_pixmap: None,
        item_is_menu: false,
        menu: Some("/MenuBar".into()),
    }
}

#[test]
fn items_are_ordered_by_address() {
    let ordered = order_items(vec![item(":1.9"), item(":1.10"), item(":1.2")]);
    let addresses: Vec<&str> = ordered.iter().map(|item| item.address.as_str()).collect();
    assert_eq!(addresses, [":1.10", ":1.2", ":1.9"]);
}

#[test]
fn attention_changes_the_icon() {
    let calm = item(":1.2");
    let mut urgent = item(":1.2");
    urgent.status = Status::NeedsAttention;
    assert_eq!(selected_icon(&calm).0.as_deref(), Some("app"));
    assert_eq!(selected_icon(&urgent).0.as_deref(), Some("app-attention"));
    assert_ne!(item_icon_signature(&calm), item_icon_signature(&urgent));
    assert!(changes_icons(TrayChange::Status) && !changes_icons(TrayChange::Other));
}

#[test]
fn icons_are_published_when_they_change() {
    let mut cache = TrayCache::new();
    let items = vec![item(":1.2")];
    let image = || Bitmap {
        width: 1,
        height: 1,
        pixels: vec![9, 8, 7, 255],
    };
    assert!(cache.stale(&items[0]));
    let icons = cache
        .publish_items(&items, vec![Some(image())], 16)
        .unwrap();
    assert_eq!(icons[0].id, ":1.2");
    assert_eq!(icons[0].pixels, [9, 8, 7, 255]);
    assert!(!cache.stale(&items[0]));
    assert!(cache.publish_items(&items, vec![None], 16).is_none());
    let mut urgent = vec![item(":1.2")];
    urgent[0].status = Status::NeedsAttention;
    assert!(cache.stale(&urgent[0]));
    assert!(cache.publish_items(&urgent, vec![None], 16).is_some());
    assert!(cache.publish_items(&vec![], vec![], 16).is_some());
    cache.clear();
    assert!(cache.stale(&items[0]));
}

#[test]
fn buttons_activate_and_open_menus() {
    let known = Some(item(":1.2/StatusNotifierItem"));
    let menu = Some(vec![dbus_menu_item(1, "_Open")]);
    let id = ":1.2/StatusNotifierItem";
    assert!(matches!(
        click_action(id, BTN_LEFT, 3, 4, &known, &menu),
        ClickAction::Activate
    ));
    assert!(matches!(
        click_action(id, BTN_MIDDLE, 3, 4, &known, &menu),
        ClickAction::SecondaryActivate
    ));
    match click_action(id, BTN_RIGHT, 3, 4, &known, &menu) {
        ClickAction::Popup(popup) => {
            assert_eq!(popup.address, ":1.2");
            assert_eq!(popup.menu_path, "/MenuBar");
            assert_eq!((popup.x, popup.y), (3, 4));
            assert_eq!(popup.items[0].label, "Open");
        }
        other => panic!("{other:?}"),
    }
    assert!(matches!(
        click_action(id, BTN_RIGHT, 3, 4, &known, &None),
        ClickAction::ContextMenu
    ));
    assert!(matches!(
        click_action(id, 0x115, 3, 4, &known, &menu),
        ClickAction::Nothing
    ));
    assert_eq!(item_destination(id), ":1.2");
    assert_eq!(item_destination(":1.2"), ":1.2");
    assert_eq!(menu_entries(&menu.unwrap()).len(), 1);
}
