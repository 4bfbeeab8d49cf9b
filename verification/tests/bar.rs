use nibari::bar::drawer::{is_over_drawer, visible_width, wants_open, Drawer, FULLY};
use nibari::bar::frame::{
    convert_canvas_for_wayland, frame_size, preferred_shm_format, reusable_buffer, BufferState,
    FrameError, FrameSize, ShmFormat,
};
use nibari::bar::popup::{
    bounded_dimension, menu_input_action, menu_top, MenuInputAction, TrayPages,
};
use nibari::bar::{
    check_grab, pending_grab, scale_factor, workspace_groups, BarAction, Bars, FocusCommand,
    GrabCheck, OutputInfo, OutputKey, VisibilityChange,
};
use nibari::niri::{
    content_changed, ApplicationIcon, NiriModel, SurfaceContent, TaskList, WindowTask,
    WorkspaceInfo, WorkspaceModel, WorkspaceSlot,
};
use nibari::render::layout::HitTarget;
use nibari::render::menu::MenuSelection;
use nibari::tray::{ToggleState, ToggleType, TrayMenuEntry, BTN_LEFT, BTN_RIGHT};

#[test]
fn menu_pointer_buttons_have_distinct_actions() {
    assert_eq!(
        menu_input_action(BTN_LEFT, Some(MenuSelection::Item(7)), false, true),
        MenuInputAction::Activate(7)
    );
    assert_eq!(
        menu_input_action(BTN_LEFT, Some(MenuSelection::Item(7)), true, true),
        MenuInputAction::OpenSubmenu(7)
    );
    assert_eq!(
        menu_input_action(BTN_LEFT, Some(MenuSelection::Back), false, true),
        MenuInputAction::Back
    );
    assert_eq!(
        menu_input_action(BTN_RIGHT, Some(MenuSelection::Item(7)), false, true),
        MenuInputAction::Back
    );
    assert_eq!(
        menu_input_action(BTN_RIGHT, None, false, false),
        MenuInputAction::Dismiss
    );
    assert_eq!(
        menu_input_action(0x112, Some(MenuSelection::Item(7)), false, true),
        MenuInputAction::Nothing
    );
}

#[test]
fn menu_keyboard_actions_match_pointer_semantics() {
    assert_eq!(
        menu_input_action(BTN_LEFT, None, false, true),
        MenuInputAction::Nothing
    );
    assert_eq!(
        menu_input_action(BTN_LEFT, Some(MenuSelection::Back), false, false),
        MenuInputAction::Back
    );
}

#[test]
fn menu_dimensions_only_clamp_to_known_output_bounds() {
    assert_eq!(bounded_dimension(320, 1920), 320);
    assert_eq!(bounded_dimension(2200, 1920), 1920);
    assert_eq!(bounded_dimension(320, 0), 320);
    assert_eq!(bounded_dimension(0, 1080), 1);
    assert_eq!(menu_top(28, 400, 1080), 28);
    assert_eq!(menu_top(28, 1070, 1080), 10);
    assert_eq!(menu_top(28, 400, 0), 28);
}

fn sample_content(keyboard_layout: &str, task_id: u64) -> SurfaceContent {
    SurfaceContent {
        workspaces: std::array::from_fn(|index| WorkspaceSlot {
            index: index as u8 + 1,
            ..WorkspaceSlot::default()
        }),
        tasks: vec![WindowTask {
            id: task_id,
            label: "Application".into(),
            app_id: Some("example".into()),
            is_focused: true,
            is_urgent: false,
            icon: ApplicationIcon {
                revision: 1,
                pixels: vec![1, 2, 3, 255],
                width: 1,
                height: 1,
            },
        }],
        keyboard_layout: keyboard_layout.to_owned(),
    }
}

#[test]
fn content_changed_marks_initial_and_different_snapshots_only() {
    let first = sample_content("us", 1);
    let same = sample_content("us", 1);
    let changed = sample_content("us", 2);

    assert!(content_changed(None, &first));
    assert!(!content_changed(Some(&first), &same));
    assert!(content_changed(Some(&first), &changed));
}

#[test]
fn content_changed_detects_keyboard_layout_changes() {
    let english = sample_content("us", 1);
    let russian = sample_content("ru", 1);

    assert!(content_changed(Some(&english), &russian));
}

#[test]
fn rgba_shm_format_is_preferred_when_available() {
    assert_eq!(
        preferred_shm_format(&vec![ShmFormat::Argb8888]),
        ShmFormat::Argb8888
    );
    assert_eq!(
        preferred_shm_format(&vec![ShmFormat::Argb8888, ShmFormat::Abgr8888]),
        ShmFormat::Abgr8888
    );
}

#[test]
fn workspace_groups_follow_physical_output_order() {
    let groups = workspace_groups(&vec![
        OutputKey {
            position: (1920, 0),
            name: Some("right".into()),
        },
        OutputKey {
            position: (0, 0),
            name: Some("left".into()),
        },
    ]);
    assert_eq!(groups, [1, 0]);
}

#[test]
fn outputs_at_one_place_are_ordered_by_name() {
    let groups = workspace_groups(&vec![
        OutputKey {
            position: (0, 0),
            name: Some("b".into()),
        },
        OutputKey {
            position: (0, 0),
            name: Some("a".into()),
        },
        OutputKey {
            position: (0, 0),
            name: None,
        },
    ]);
    assert_eq!(groups, [1, 1, 0]);
}

#[test]
fn unsupported_formats_fall_back_to_the_mandatory_one() {
    assert_eq!(preferred_shm_format(&vec![]), ShmFormat::Argb8888);
    assert_eq!(
        preferred_shm_format(&vec![ShmFormat::Other(7)]),
        ShmFormat::Argb8888
    );
}

#[test]
fn exchanging_channels_twice_restores_the_canvas() {
    let mut pixels = vec![1, 2, 3, 4, 5, 6, 7, 8];
    convert_canvas_for_wayland(&mut pixels, ShmFormat::Argb8888);
    assert_eq!(pixels, [3, 2, 1, 4, 7, 6, 5, 8]);
    convert_canvas_for_wayland(&mut pixels, ShmFormat::Argb8888);
    assert_eq!(pixels, [1, 2, 3, 4, 5, 6, 7, 8]);
    convert_canvas_for_wayland(&mut pixels, ShmFormat::Abgr8888);
    assert_eq!(pixels, [1, 2, 3, 4, 5, 6, 7, 8]);
}

#[test]
fn frame_sizes_are_scaled_and_bounded() {
    assert_eq!(
        frame_size(100, 20, 2),
        Ok(Some(FrameSize {
            width: 200,
            height: 40,
            stride: 800
        }))
    );
    assert_eq!(frame_size(0, 20, 2), Ok(None));
    assert_eq!(frame_size(100, 0, 2), Ok(None));
    assert_eq!(frame_size(u32::MAX, 20, 2), Err(FrameError::Width));
    assert_eq!(frame_size(20, u32::MAX, 2), Err(FrameError::Height));
    assert_eq!(frame_size(0x4000_0000, 1, 1), Err(FrameError::Stride));
}

#[test]
fn only_released_buffers_of_the_size_are_reused() {
    let size = FrameSize {
        width: 2,
        height: 3,
        stride: 8,
    };
    let buffer = |height, stride, free| BufferState {
        height,
        stride,
        free,
    };
    let buffers = vec![
        buffer(3, 8, false),
        buffer(4, 8, true),
        buffer(3, 12, true),
        buffer(3, 8, true),
        buffer(3, 8, true),
    ];
    assert_eq!(reusable_buffer(&buffers, size), Some(3));
    assert_eq!(reusable_buffer(&buffers[..3].to_vec(), size), None);
}

#[test]
fn drawers_move_at_a_steady_pace_and_turn_where_they_are() {
    let mut drawer = Drawer::new();
    assert_eq!(drawer.position(200, 0), 0);
    assert!(drawer.set_open(true, 200, 1_000_000_000));
    assert!(!drawer.set_open(true, 200, 1_100_000_000));
    assert_eq!(drawer.position(200, 1_100_000_000), 500);
    assert!(drawer.moving(200, 1_100_000_000));
    assert!(drawer.set_open(false, 200, 1_100_000_000));
    assert_eq!(drawer.position(200, 1_100_000_000), 500);
    assert_eq!(drawer.position(200, 1_150_000_000), 250);
    assert_eq!(drawer.position(200, 1_300_000_000), 0);
    assert!(!drawer.moving(200, 1_300_000_000));
    assert!(drawer.set_open(true, 0, 2_000_000_000));
    assert_eq!(drawer.position(0, 2_000_000_000), FULLY);
    assert_eq!(visible_width(45, 500), 23);
    assert_eq!(visible_width(48, 330), 16);
    assert_eq!(visible_width(48, 0), 0);
    assert_eq!(visible_width(i32::MAX, FULLY), i32::MAX);
    assert_eq!(visible_width(45, FULLY), 45);
    assert!(is_over_drawer(Some(HitTarget::TrayDrawer)) && is_over_drawer(Some(HitTarget::Tray(0))));
    assert!(!is_over_drawer(Some(HitTarget::Clock)) && !is_over_drawer(None));
    assert!(wants_open(false, true) && wants_open(true, false) && !wants_open(false, false));
}

fn model() -> NiriModel {
    NiriModel {
        workspaces: WorkspaceModel {
            workspaces: ["DP-1", "HDMI-A-1"]
                .iter()
                .enumerate()
                .map(|(place, output)| WorkspaceInfo {
                    id: 11 + place as u64,
                    index: 1,
                    output: Some((*output).into()),
                    is_active: true,
                    is_focused: place == 0,
                    is_occupied: true,
                    is_urgent: false,
                })
                .collect(),
        },
        task_lists: vec![TaskList {
            output: Some("DP-1".into()),
            is_focused: true,
            tasks: vec![],
        }],
        keyboard_layout: "us".into(),
    }
}

fn output(name: &str, x: i32) -> OutputInfo {
    OutputInfo {
        name: Some(name.into()),
        position: Some((x, 0)),
        size: Some((1920, 1080)),
        scale: 1,
    }
}

fn two_bars() -> Bars {
    let model = model();
    let mut bars = Bars::new(28);
    assert!(bars.add_output(2, Some(&output("HDMI-A-1", 1920)), &model));
    assert!(bars.add_output(1, Some(&output("DP-1", 0)), &model));
    bars
}

#[test]
fn outputs_get_one_bar_each_in_physical_order() {
    let model = model();
    let mut bars = two_bars();
    assert!(!bars.add_output(1, Some(&output("DP-1", 0)), &model));
    assert_eq!(bars.bars.len(), 2);
    let first = bars.find(1).unwrap();
    let second = bars.find(2).unwrap();
    assert_eq!(bars.bars[first].workspace_group, 0);
    assert_eq!(bars.bars[second].workspace_group, 1);
    assert!(bars.bars[first].content.workspaces[0].is_focused);
    assert_eq!(bars.bars[second].content.workspaces[0].index, 6);
    bars.remove_output(1, &model);
    assert_eq!(bars.find(1), None);
    assert_eq!(bars.bars[0].workspace_group, 0);
}

#[test]
fn only_bars_that_look_different_are_drawn_anew() {
    let mut model = model();
    let mut bars = two_bars();
    for index in 0..2 {
        bars.configure(index, 1920, 28);
        bars.drawn(index);
        bars.frame_done(index);
    }
    bars.update_niri_model(&model);
    assert!(bars.bars.iter().all(|bar| !bar.needs_drawing()));
    model.workspaces.workspaces[0].is_urgent = true;
    bars.update_niri_model(&model);
    let first = bars.find(1).unwrap();
    let second = bars.find(2).unwrap();
    assert!(bars.bars[first].needs_drawing());
    assert!(!bars.bars[second].needs_drawing());
    model.keyboard_layout = "ru".into();
    bars.update_niri_model(&model);
    assert!(bars.bars[second].needs_drawing());
}

#[test]
fn bars_are_drawn_when_configured_and_the_last_frame_is_shown() {
    let mut bars = two_bars();
    assert!(!bars.bars[0].needs_drawing());
    assert!(bars.configure(0, 1920, 0));
    assert_eq!(bars.bars[0].frame.logical_height, 28);
    assert!(!bars.configure(0, 1920, 28));
    assert!(bars.bars[0].needs_drawing());
    bars.drawn(0);
    bars.mark_bars_dirty();
    assert!(!bars.bars[0].needs_drawing());
    bars.frame_done(0);
    assert!(bars.bars[0].needs_drawing());
    bars.rescale(0, 2);
    assert_eq!(bars.bars[0].frame.scale, 2);
    assert!(!bars.update_output_info(1, &output("DP-1", 0), &model()));
    assert_eq!(scale_factor(-3), 1);
    assert_eq!(scale_factor(3), 3);
}

#[test]
fn hidden_bars_are_gone_until_shown() {
    let model = model();
    let mut bars = two_bars();
    assert_eq!(bars.set_bars_hidden(false), VisibilityChange::Unchanged);
    assert_eq!(bars.set_bars_hidden(true), VisibilityChange::Hidden);
    assert!(bars.bars.is_empty());
    assert!(!bars.add_output(1, Some(&output("DP-1", 0)), &model));
    assert_eq!(bars.set_bars_hidden(false), VisibilityChange::Shown);
    assert!(bars.add_output(1, None, &model));
}

#[test]
fn menus_open_below_the_bar_at_the_point_or_the_nearest_one() {
    let mut bars = two_bars();
    assert_eq!(bars.menu_target(10, 10), None);
    bars.configure(0, 1920, 28);
    bars.configure(1, 1920, 28);
    let hit = bars.menu_target(2000, 10).unwrap();
    assert_eq!(bars.bars[hit.bar].output, 2);
    assert_eq!(hit.local_x, 80);
    assert_eq!(hit.logical_height, 1080);
    let near = bars.menu_target(1900, 500).unwrap();
    assert_eq!(bars.bars[near.bar].output, 2);
    assert_eq!(near.local_x, -20);
}

#[test]
fn clicks_focus_open_and_reach_tray_icons() {
    let bars = two_bars();
    let bar = &bars.bars[bars.find(2).unwrap()];
    let workspace = Some(HitTarget::Workspace {
        id: Some(11),
        index: 6,
    });
    match bar.click(workspace, BTN_LEFT, 5, 5, 0, true) {
        BarAction::Focus(FocusCommand::Workspace { id, index, output }) => {
            assert_eq!((id, index), (Some(11), 6));
            assert_eq!(output.as_deref(), Some("HDMI-A-1"));
        }
        other => panic!("{other:?}"),
    }
    assert!(matches!(
        bar.click(workspace, BTN_RIGHT, 5, 5, 0, true),
        BarAction::Nothing
    ));
    assert!(matches!(
        bar.click(Some(HitTarget::Window(9)), BTN_LEFT, 5, 5, 0, true),
        BarAction::Focus(FocusCommand::Window(9))
    ));
    assert!(matches!(
        bar.click(Some(HitTarget::Tray(1)), BTN_RIGHT, 5, 6, 2, true),
        BarAction::Tray {
            index: 1,
            x: 1925,
            y: 6
        }
    ));
    assert!(matches!(
        bar.click(Some(HitTarget::Tray(2)), BTN_RIGHT, 5, 6, 2, true),
        BarAction::Nothing
    ));
    assert!(matches!(
        bar.click(Some(HitTarget::Clock), BTN_LEFT, 5, 5, 0, true),
        BarAction::OpenCalendar
    ));
    assert!(matches!(
        bar.click(Some(HitTarget::Clock), BTN_LEFT, 5, 5, 0, false),
        BarAction::Nothing
    ));
    assert!(matches!(
        bar.click(Some(HitTarget::Weather), BTN_LEFT, 5, 5, 0, false),
        BarAction::OpenWeather
    ));
    assert!(matches!(
        bar.click(Some(HitTarget::Network), BTN_LEFT, 5, 5, 0, false),
        BarAction::OpenNetwork
    ));
    assert!(matches!(
        bar.click(None, BTN_LEFT, 5, 5, 0, true),
        BarAction::Nothing
    ));
}

#[test]
fn menus_need_the_press_that_asked_for_them() {
    let grab = pending_grab(BTN_RIGHT, 7, Some((10, 20)));
    assert_eq!(check_grab(grab, 10, 20), GrabCheck::Matching(7));
    assert_eq!(check_grab(grab, 11, 20), GrabCheck::Stale);
    assert_eq!(check_grab(None, 10, 20), GrabCheck::Missing);
    assert_eq!(pending_grab(BTN_LEFT, 7, Some((10, 20))), None);
    assert_eq!(pending_grab(BTN_RIGHT, 7, None), None);
}

fn entry(id: i32, label: &str, submenu: Vec<TrayMenuEntry>) -> TrayMenuEntry {
    TrayMenuEntry {
        id,
        label: label.into(),
        enabled: true,
        separator: false,
        submenu,
        toggle_type: ToggleType::CannotBeToggled,
        toggle_state: ToggleState::Off,
    }
}

#[test]
fn submenus_are_entered_and_left_again() {
    let mut pages = TrayPages {
        address: ":1.7".into(),
        menu_path: "/menu".into(),
        entries: vec![
            entry(1, "Open", vec![]),
            entry(2, "More", vec![entry(3, "Quit", vec![])]),
        ],
        pages: vec![],
        title: None,
    };
    assert!(!pages.go_back());
    assert!(!pages.has_submenu(Some(MenuSelection::Item(1))));
    assert!(pages.has_submenu(Some(MenuSelection::Item(2))));
    assert!(!pages.has_submenu(Some(MenuSelection::Back)));
    assert!(!pages.open_submenu(1));
    assert!(pages.open_submenu(2));
    assert_eq!(pages.title.as_deref(), Some("More"));
    assert_eq!(pages.entries.len(), 1);
    assert_eq!(pages.entries[0].label, "Quit");
    assert!(pages.go_back());
    assert_eq!(pages.title, None);
    assert_eq!(pages.entries.len(), 2);
    assert!(pages.pages.is_empty());
}
