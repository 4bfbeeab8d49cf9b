use nibari::niri::{
    affects_workspace_view, bar_model, content_changed, icons_to_load, is_open_icon_key, niri_model, short_keyboard_layout,
    window_label, window_tape_order_key, ApplicationIcon, ApplicationIconCache, EventKind,
    KeyboardLayouts, NiriModel, NiriState, SurfaceContent, TaskList, WindowState, WindowTask,
    WorkspaceInfo, WorkspaceModel, WorkspaceState, WORKSPACE_LABELS,
};
use nibari::render::pixels::Bitmap;

#[test]
fn tape_order_places_tiled_windows_left_to_right_before_floating_windows() {
    let mut windows = [
        (80, None),
        (30, Some((3, 1))),
        (20, Some((1, 2))),
        (10, Some((1, 1))),
        (40, Some((2, 1))),
        (70, None),
    ];

    windows.sort_unstable_by_key(|(id, position)| window_tape_order_key(*id, *position));

    assert_eq!(windows.map(|(id, _)| id), [10, 20, 40, 30, 70, 80]);
}

#[test]
fn labels_have_requested_order() {
    assert_eq!(
        WORKSPACE_LABELS,
        ["一", "二", "三", "四", "五", "六", "七", "八", "九", "零"]
    );
}

#[test]
fn title_is_preferred_with_application_id_as_fallback() {
    assert_eq!(
        window_label(&Some("  Browser  ".to_owned()), &Some("firefox".to_owned())),
        "Browser"
    );
    assert_eq!(
        window_label(&Some(" ".to_owned()), &Some("firefox".to_owned())),
        "firefox"
    );
    assert_eq!(window_label(&None, &None), "Untitled");
}

#[test]
fn keyboard_layout_names_are_shortened_for_bar() {
    assert_eq!(short_keyboard_layout("English (US)"), "us");
    assert_eq!(short_keyboard_layout("Russian"), "ru");
    assert_eq!(short_keyboard_layout("German (DE)"), "de");
}

fn sample_icon() -> ApplicationIcon {
    ApplicationIcon {
        revision: 1,
        pixels: vec![1, 2, 3, 255],
        width: 1,
        height: 1,
    }
}

fn sample_task(id: u64, label: &str) -> WindowTask {
    WindowTask {
        id,
        label: label.into(),
        app_id: Some("example".into()),
        is_focused: id == 1,
        is_urgent: false,
        icon: sample_icon(),
    }
}

#[test]
fn open_icon_keys_keep_live_application_and_window_entries() {
    let windows = vec![42_u64];
    let applications = vec!["terminal".to_owned()];

    assert!(is_open_icon_key("terminal", &windows, &applications));
    assert!(is_open_icon_key("@window:42", &windows, &applications));
    assert!(!is_open_icon_key("closed", &windows, &applications));
    assert!(!is_open_icon_key("@window:7", &windows, &applications));
}

fn two_workspaces() -> WorkspaceModel {
    WorkspaceModel {
        workspaces: vec![
            WorkspaceInfo {
                id: 1,
                index: 1,
                output: Some("DP-1".into()),
                is_active: true,
                is_focused: true,
                is_occupied: true,
                is_urgent: false,
            },
            WorkspaceInfo {
                id: 2,
                index: 1,
                output: Some("HDMI-A-1".into()),
                is_active: true,
                is_focused: false,
                is_occupied: false,
                is_urgent: false,
            },
        ],
    }
}

fn two_output_model() -> NiriModel {
    NiriModel {
        workspaces: two_workspaces(),
        task_lists: vec![
            TaskList {
                output: Some("DP-1".into()),
                is_focused: true,
                tasks: vec![sample_task(1, "Terminal")],
            },
            TaskList {
                output: Some("HDMI-A-1".into()),
                is_focused: false,
                tasks: vec![],
            },
        ],
        keyboard_layout: "us".into(),
    }
}

#[test]
fn surface_content_selects_data_for_its_output() {
    let model = two_output_model();

    let dp = model.surface_content(Some("DP-1"), 0);
    let hdmi = model.surface_content(Some("HDMI-A-1"), 1);

    assert_eq!(dp.workspaces[0].index, 1);
    assert!(dp.workspaces[0].is_focused);
    assert_eq!(dp.tasks[0].label, "Terminal");
    assert_eq!(hdmi.workspaces[0].index, 6);
    assert!(hdmi.tasks.is_empty());
}

fn alike(left: &SurfaceContent, right: &SurfaceContent) -> bool {
    !content_changed(Some(left), right)
}

#[test]
fn surface_content_equality_is_local_to_output_but_includes_keyboard_layout() {
    let first = two_output_model();
    let mut changed = two_output_model();
    changed.task_lists[0].tasks = vec![sample_task(2, "Editor")];

    assert!(!alike(
        &first.surface_content(Some("DP-1"), 0),
        &changed.surface_content(Some("DP-1"), 0)
    ));
    assert!(alike(
        &first.surface_content(Some("HDMI-A-1"), 1),
        &changed.surface_content(Some("HDMI-A-1"), 1)
    ));
    changed.keyboard_layout = "ru".into();
    assert!(!alike(
        &first.surface_content(Some("HDMI-A-1"), 1),
        &changed.surface_content(Some("HDMI-A-1"), 1)
    ));
}

#[test]
fn slots_are_filtered_by_output() {
    let model = NiriModel {
        workspaces: two_workspaces(),
        task_lists: vec![],
        keyboard_layout: String::new(),
    };

    let dp = model.slots_for(Some("DP-1"), 0);
    let hdmi = model.slots_for(Some("HDMI-A-1"), 1);
    assert!(dp[0].is_focused && dp[0].is_occupied);
    assert!(hdmi[0].is_active && !hdmi[0].is_focused);
    assert_eq!(dp[4].index, 5);
    assert_eq!(hdmi[0].index, 6);
    assert_eq!(hdmi[4].index, 10);
}

#[test]
fn task_lists_are_filtered_by_output() {
    let model = NiriModel {
        workspaces: WorkspaceModel { workspaces: vec![] },
        task_lists: vec![
            TaskList {
                output: Some("DP-1".into()),
                is_focused: true,
                tasks: vec![WindowTask {
                    id: 1,
                    label: "Terminal".into(),
                    app_id: Some("terminal".into()),
                    is_focused: true,
                    is_urgent: false,
                    icon: sample_icon(),
                }],
            },
            TaskList {
                output: Some("HDMI-A-1".into()),
                is_focused: false,
                tasks: vec![],
            },
        ],
        keyboard_layout: String::new(),
    };

    assert_eq!(model.tasks_for(Some("DP-1"), 0)[0].label, "Terminal");
    assert!(model.tasks_for(Some("HDMI-A-1"), 1).is_empty());
}

fn window(id: u64, app_id: &str, workspace: u64, column: usize) -> WindowState {
    WindowState {
        id,
        title: None,
        app_id: Some(app_id.into()),
        workspace_id: Some(workspace),
        is_focused: id == 1,
        is_urgent: false,
        position: Some((column, 1)),
    }
}

fn workspace(id: u64, idx: u8, output: &str, is_active: bool) -> WorkspaceState {
    WorkspaceState {
        id,
        idx,
        output: Some(output.into()),
        is_active,
        is_focused: is_active,
        is_urgent: false,
    }
}

fn running() -> NiriState {
    NiriState {
        windows: vec![
            window(1, "editor", 10, 2),
            window(2, "terminal", 10, 1),
            window(3, "hidden", 20, 1),
        ],
        workspaces: vec![
            workspace(20, 2, "DP-1", false),
            workspace(10, 1, "DP-1", true),
        ],
        keyboard_layouts: Some(KeyboardLayouts {
            names: vec!["English (US)".into(), "Russian".into()],
            current_idx: 1,
        }),
    }
}

#[test]
fn models_list_the_active_workspaces_windows_in_tape_order() {
    let state = running();
    let mut icons = ApplicationIconCache::new(16);
    assert_eq!(icons.wanted(&state), ["editor", "terminal"]);
    for key in icons.wanted(&state) {
        icons.store(
            &key,
            Some(Bitmap {
                width: 1,
                height: 1,
                pixels: vec![9, 9, 9, 255],
            }),
        );
    }
    icons.store("closed", None);
    let model = niri_model(&state, &mut icons);
    assert_eq!(model.keyboard_layout, "ru");
    assert_eq!(model.workspaces.workspaces.len(), 2);
    assert_eq!(model.workspaces.workspaces[0].id, 10);
    assert!(model.workspaces.workspaces[1].is_occupied);
    assert_eq!(model.task_lists.len(), 1);
    let labels: Vec<&str> = model.task_lists[0]
        .tasks
        .iter()
        .map(|task| task.label.as_str())
        .collect();
    assert_eq!(labels, ["terminal", "editor"]);
    let keys: Vec<&str> = icons.icons.iter().map(|entry| entry.key.as_str()).collect();
    assert_eq!(keys, ["editor", "terminal"]);
    assert!(model.same_as(&niri_model(&state, &mut icons)));
    assert!(!model.same_as(&two_output_model()));
}

#[test]
fn hidden_tasks_need_neither_titles_nor_icons() {
    let state = running();
    let mut icons = ApplicationIconCache::new(16);
    icons.store("closed", None);
    assert!(icons_to_load(&state, false, &icons).is_empty());
    let hidden = bar_model(&state, false, &mut icons);
    assert!(hidden.task_lists.is_empty());
    assert_eq!(hidden.workspaces.workspaces.len(), 2);
    assert_eq!(hidden.keyboard_layout, "ru");
    assert_eq!(icons.icons.len(), 1);
    assert_eq!(icons.icons[0].key, "closed");

    assert_eq!(icons_to_load(&state, true, &icons), ["editor", "terminal"]);
    let shown = bar_model(&state, true, &mut icons);
    assert_eq!(shown.task_lists[0].tasks.len(), 2);
    let keys: Vec<&str> = icons.icons.iter().map(|entry| entry.key.as_str()).collect();
    assert_eq!(keys, ["terminal", "editor"]);
    let stored = icons.icons[0].icon.revision;
    assert_eq!(shown.task_lists[0].tasks[0].icon.revision, stored);
}

#[test]
fn untitled_windows_get_an_icon_of_their_own() {
    let mut icons = ApplicationIconCache::new(16);
    let mut state = running();
    state.windows[0].app_id = None;
    assert_eq!(icons.wanted(&state), ["terminal"]);
    let missing = icons.icon_for(&None, 1);
    assert_eq!(icons.icons[0].key, "@window:1");
    assert_eq!(missing.width * missing.height * 4, missing.pixels.len() as u32);
}

#[test]
fn events_that_do_not_show_are_passed_over() {
    assert!(affects_workspace_view(EventKind::WorkspacesChanged));
    assert!(!affects_workspace_view(EventKind::Other));
}
