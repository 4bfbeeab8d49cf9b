use nibari::render::fonts::{
    distinct_font_paths, ellipsized, font_path, selected_font_paths, EllipsisSearch,
};

#[test]
fn font_path_uses_the_first_nonempty_line() {
    assert_eq!(
        font_path("\n /fonts/ui.ttf \nignored\n"),
        Some("/fonts/ui.ttf".to_owned())
    );
}

#[test]
fn distinct_font_paths_loads_a_shared_file_once() {
    let path = "/fonts/shared.ttf".to_owned();
    assert_eq!(
        distinct_font_paths(path.clone(), path),
        vec!["/fonts/shared.ttf".to_owned()]
    );
}

#[test]
fn selected_font_paths_requires_both_matches() {
    assert_eq!(
        selected_font_paths(Some("/fonts/ui.ttf".to_owned()), None),
        None
    );
}

#[test]
fn blank_output_names_no_font() {
    assert_eq!(font_path(" \n\t\r\n"), None);
    assert_eq!(font_path(""), None);
}

#[test]
fn different_fonts_are_both_loaded() {
    assert_eq!(
        selected_font_paths(Some("/fonts/a.ttf".to_owned()), Some("/fonts/b.ttf".to_owned())),
        Some(vec!["/fonts/a.ttf".to_owned(), "/fonts/b.ttf".to_owned()])
    );
    assert_eq!(
        distinct_font_paths("/fonts//./a.ttf".to_owned(), "/fonts/a.ttf/".to_owned()).len(),
        1
    );
}

#[test]
fn the_longest_text_that_fits_is_found() {
    let text = "A much longer title";
    for limit in 0..text.len() + 2 {
        let mut search = EllipsisSearch::new(text.chars().count());
        while let Some(count) = search.next() {
            search.report(ellipsized(text, count).chars().count() <= limit);
        }
        let expected = limit.saturating_sub(1).min(text.len());
        assert_eq!(search.lower, expected);
    }
    assert_eq!(ellipsized("größer", 3), "grö…");
}
