use nibari::icons::{
    application_icon_names, data_directories, desktop_file_names, fallback_icon, icon_for_startup_class,
    icon_format, image_revision, is_desktop_file, is_named_icon, parse_desktop_entry, svg_size,
    IconFormat, IconLoader, IconSource,
};

#[test]
fn extracts_icon_from_desktop_entry() {
    let source = "[Desktop Entry]\nName=Browser\nIcon=org.example.Browser\n[Other]\nIcon=no\n";
    assert_eq!(
        parse_desktop_entry(source).icon.as_deref(),
        Some("org.example.Browser")
    );
}

#[test]
fn finds_icon_by_startup_wm_class() {
    let source = "[Desktop Entry]\nIcon=com.ayugram.desktop\nStartupWMClass=AyuGram\n[Desktop Action quit]\nIcon=application-exit\n";
    let entry = parse_desktop_entry(source);

    assert_eq!(entry.icon.as_deref(), Some("com.ayugram.desktop"));
    assert_eq!(entry.startup_wm_class.as_deref(), Some("AyuGram"));
}

#[test]
fn startup_class_needs_an_icon_of_its_own_group() {
    let entry = parse_desktop_entry(
        "[Desktop Entry]\nIcon=com.ayugram.desktop\nStartupWMClass=AyuGram\n",
    );
    assert_eq!(
        icon_for_startup_class(entry, "AyuGram").as_deref(),
        Some("com.ayugram.desktop")
    );
    let entry = parse_desktop_entry(
        "[Desktop Entry]\nStartupWMClass=AyuGram\n[Desktop Action quit]\nIcon=application-exit\n",
    );
    assert_eq!(icon_for_startup_class(entry, "AyuGram"), None);
}

#[test]
fn desktop_file_names_cover_ids_that_end_with_desktop() {
    assert_eq!(
        desktop_file_names("com.ayugram.desktop"),
        Some(vec![
            "com.ayugram.desktop".to_owned(),
            "com.ayugram.desktop.desktop".to_owned()
        ])
    );
    assert_eq!(
        desktop_file_names("firefox"),
        Some(vec!["firefox.desktop".to_owned()])
    );
    assert_eq!(desktop_file_names("../firefox"), None);
}

#[test]
fn builds_application_icon_fallbacks_without_duplicates() {
    assert_eq!(
        application_icon_names("Org.Example.Firefox.desktop"),
        [
            "Org.Example.Firefox",
            "org.example.firefox",
            "Firefox",
            "firefox"
        ]
    );
    assert_eq!(application_icon_names("kitty"), ["kitty"]);
    assert_eq!(application_icon_names(".desktop"), [".desktop", "desktop"]);
}

#[test]
fn icon_sources_prefer_paths_over_themes() {
    let loader = IconLoader::new(&None, None, vec![]);
    assert_eq!(loader.theme, "hicolor");
    assert_eq!(loader.sources("/a/b.png", true), [IconSource::File]);
    assert_eq!(
        loader.sources("app", true),
        [IconSource::ExtraDirectory, IconSource::Theme]
    );
    assert_eq!(loader.sources("app", false), [IconSource::Theme]);
    let loader = IconLoader::new(&None, Some("Adwaita".to_owned()), vec![]);
    assert_eq!(loader.theme, "Adwaita");
    let loader = IconLoader::new(
        &Some("Papirus".to_owned()),
        Some("Adwaita".to_owned()),
        vec![],
    );
    assert_eq!(loader.theme, "Papirus");
}

#[test]
fn data_directories_skip_empty_entries() {
    assert_eq!(
        data_directories("/usr/local/share:/usr/share"),
        ["/usr/local/share", "/usr/share"]
    );
    assert_eq!(data_directories("::/a:"), ["/a"]);
    assert!(data_directories("").is_empty());
}

#[test]
fn icon_files_are_told_by_stem_and_ending() {
    assert!(is_named_icon(Some("app"), Some("PNG"), "app"));
    assert!(is_named_icon(Some("app"), Some("svg"), "app"));
    assert!(!is_named_icon(Some("app"), Some("jpg"), "app"));
    assert!(!is_named_icon(Some("other"), Some("png"), "app"));
    assert!(!is_named_icon(None, Some("png"), "app"));
    assert_eq!(icon_format(Some("Svg")), Some(IconFormat::Svg));
    assert_eq!(icon_format(None), None);
    assert!(is_desktop_file(Some("DESKTOP")));
    assert!(!is_desktop_file(None));
    assert_eq!(svg_size(8), 32);
    assert_eq!(svg_size(18), 36);
    assert_eq!(svg_size(1000), 256);
}

#[test]
fn fallback_icons_have_a_frame_and_a_stable_color() {
    let icon = fallback_icon("terminal", 18);
    assert_eq!((icon.width, icon.height), (18, 18));
    assert_eq!(icon.pixels[..4], [40, 40, 40, 255]);
    let inner = icon.pixel(9, 9);
    assert!(inner[..3].iter().all(|channel| (96..=191).contains(channel)));
    assert_eq!(inner[3], 255);
    assert_eq!(icon.pixels, fallback_icon("terminal", 18).pixels);
    assert_ne!(
        fallback_icon("terminal", 18).pixels,
        fallback_icon("browser", 18).pixels
    );
    assert_eq!(fallback_icon("x", 0).width, 1);
}

#[test]
fn fallback_color_is_the_hash_of_the_seed() {
    // FNV-1a of the empty text is the offset basis 0x811c9dc5.
    let icon = fallback_icon("", 4);
    assert_eq!(
        icon.pixel(1, 1),
        [96 + (0xc5 & 0x5f), 96 + (0x9d & 0x5f), 96 + (0x1c & 0x5f), 255]
    );
}

#[test]
fn image_revisions_tell_pixels_and_sizes_apart() {
    let icon = fallback_icon("a", 2);
    let mut other = icon.clone();
    assert_eq!(image_revision(&icon), image_revision(&other));
    other.pixels[0] ^= 1;
    assert_ne!(image_revision(&icon), image_revision(&other));
    let empty = nibari::render::pixels::Bitmap { width: 1, height: 0, pixels: vec![] };
    assert_eq!(image_revision(&empty), 0xcbf2_9ce4_8422_2325 ^ 1);
    let empty = nibari::render::pixels::Bitmap { width: 0, height: 2, pixels: vec![] };
    assert_eq!(image_revision(&empty), 0xcbf2_9ce4_8422_2325 ^ (2 << 32));
}

#[test]
fn text_around_the_desktop_entry_does_not_count() {
    let group = "[Desktop Entry]\r\nIcon= browser \r\nStartupWMClass=\nStartupWMClass=Browser\r";
    let around = ["Icon=early\n[Other]\nIcon=other", group, "[Desktop Action x]\nIcon=late"];
    let alone = parse_desktop_entry(group);
    let whole = parse_desktop_entry(&around.join("\n"));
    assert_eq!(alone.icon.as_deref(), Some("browser"));
    assert_eq!(alone.startup_wm_class.as_deref(), Some("Browser"));
    assert_eq!(whole.icon, alone.icon);
    assert_eq!(whole.startup_wm_class, alone.startup_wm_class);
}
