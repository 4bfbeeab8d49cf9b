use nibari::config::{ClockPosition, Config};
use nibari::niri::{ApplicationIcon, WorkspaceSlot, WORKSPACES_PER_OUTPUT};
use nibari::render::bar::{
    draw_media, drawer_width, workspace_label_index, BarPlan, DrawCommand, KeyboardLabel,
    MediaLabels, Picture, RenderContent, Size, TaskItem,
};
use nibari::render::cache::{
    label_limit, workspace_label, CacheState, MediaBitmap, MediaState, Renderer,
    TaskIconBitmap, TaskTextBitmap,
};
use nibari::render::layout::{
    hit_target_at, BarLayout, HitTarget, Hitbox, Style, TaskLayout,
};
use nibari::render::pixels::{
    blend_pixel, blend_premultiplied, blend_rect, draw_premultiplied_clipped, has_visible_pixels,
    scale_pixels, Bitmap, PixelRect,
};
use nibari::tray::TrayIcon;

const NOWHERE: Size = Size {
    width: 0,
    height: 0,
};

/// The size of a text in a font whose characters are all equally wide.
fn text_size(text: &str, scale: u32) -> Size {
    Size {
        width: 7 * scale as i32 * text.chars().count() as i32,
        height: 14 * scale as i32,
    }
}

fn keyboard(text: &str, scale: u32) -> Option<KeyboardLabel> {
    let size = text_size(text, scale);
    (!text.is_empty()).then_some(KeyboardLabel {
        reserved_width: size.width,
        size,
    })
}

fn slots() -> [WorkspaceSlot; WORKSPACES_PER_OUTPUT] {
    std::array::from_fn(|index| WorkspaceSlot {
        index: index as u8 + 1,
        ..WorkspaceSlot::default()
    })
}

fn task(id: u64, label: &str, scale: u32) -> TaskItem {
    TaskItem {
        id,
        is_focused: false,
        is_urgent: false,
        label: text_size(label, scale),
    }
}

fn content(width: u32, height: u32, scale: u32, clock: &str, layout: &str) -> RenderContent {
    RenderContent {
        canvas: Size {
            width: (width * scale) as i32,
            height: (height * scale) as i32,
        },
        scale,
        clock: text_size(clock, scale),
        keyboard: keyboard(layout, scale),
        tray_len: 0,
        drawer_visible: 0,
        workspaces: slots(),
        workspace_labels: [text_size("1", scale); WORKSPACES_PER_OUTPUT],
        tasks: vec![],
        media: None,
    }
}

/// Shows the tray with its drawer open by a share.
fn with_tray(mut content: RenderContent, style: &Style, count: usize, share: f64) -> RenderContent {
    let width = drawer_width(style, content.scale, count);
    content.tray_len = count;
    content.drawer_visible = (f64::from(width) * share).round() as i32;
    content
}

fn picture_color(picture: Picture) -> [u8; 4] {
    match picture {
        Picture::TrayIcon(0) => [255, 0, 0, 255],
        Picture::TrayIcon(_) => [0, 0, 255, 255],
        Picture::TaskIcon(_) => [0, 0, 255, 255],
        Picture::MediaDetail => [10, 20, 30, 255],
        Picture::WorkspaceLabel(place) => [200, 200, place as u8, 255],
        _ => [250, 250, 250, 255],
    }
}

fn run(commands: &[DrawCommand], canvas: &mut Bitmap) {
    for command in commands {
        match *command {
            DrawCommand::Clear { color } => {
                for pixel in canvas.pixels.chunks_exact_mut(4) {
                    pixel.copy_from_slice(&color);
                }
            }
            DrawCommand::Fill { area, color } => blend_rect(
                canvas,
                area.x,
                area.y,
                area.width.max(0) as u32,
                area.height.max(0) as u32,
                color,
            ),
            DrawCommand::Blit {
                picture,
                x,
                y,
                width,
                height,
                clip,
            } => {
                let source = picture_color(picture).repeat((width * height) as usize);
                draw_premultiplied_clipped(
                    canvas,
                    x,
                    y,
                    width as u32,
                    height as u32,
                    &source,
                    clip,
                );
            }
            DrawCommand::DrawerHandle { x, y, size } => {
                blend_rect(canvas, x, y, size as u32, size as u32, [9, 9, 9, 255])
            }
        }
    }
}

fn paint(content: &RenderContent, plan: &BarPlan) -> Bitmap {
    let mut canvas =
        Bitmap::transparent(content.canvas.width as u32, content.canvas.height as u32);
    run(&plan.commands, &mut canvas);
    canvas
}

fn hit_at(hitboxes: &Vec<Hitbox>, scale: u32, x: f64, y: f64) -> Option<HitTarget> {
    let physical = |value: f64| (value * f64::from(scale)).floor() as i32;
    hit_target_at(hitboxes, physical(x), physical(y))
}

fn find(plan: &BarPlan, target: HitTarget) -> Hitbox {
    *plan
        .hitboxes
        .iter()
        .find(|hit| hit.target == target)
        .unwrap()
}

#[test]
fn weather_follows_clock_without_changing_its_center() {
    for scale in [1, 2, 3] {
        let s = scale as i32;
        for centered in [true, false] {
            let config = Config {
                weather_enabled: true,
                network_enabled: true,
                clock_position: if centered {
                    ClockPosition::Center
                } else {
                    ClockPosition::Right
                },
                ..Config::default()
            };
            let renderer = Renderer::new(&config);
            for count in [0, 1, 12] {
                let layout = BarLayout::calculate(
                    (1920 * s, 28 * s),
                    (200 * s, 14 * s),
                    (30 * s, 14 * s),
                    count,
                    scale,
                    &renderer.style,
                );
                if centered {
                    assert_eq!(layout.clock_x, 860 * s);
                }
                let weather_x = layout.weather_x.unwrap();
                assert_eq!(weather_x, layout.clock_x + 206 * s);
                assert!(weather_x + layout.icon_size <= 1920 * s);
                if !centered {
                    assert_eq!(weather_x + layout.icon_size, 1912 * s);
                }
            }
        }
    }
}

#[test]
fn centered_clock_uses_canvas_center_independent_of_side_content() {
    let config = Config {
        clock_position: ClockPosition::Center,
        ..Config::default()
    };
    let renderer = Renderer::new(&config);
    for scale in [1, 2, 3] {
        for tray_len in [0, 1, 20] {
            for keyboard_width in [0, 32, 100] {
                let s = scale as i32;
                let layout = BarLayout::calculate(
                    (1920 * s, 28 * s),
                    (200 * s, 15 * s),
                    (keyboard_width * s, 15 * s),
                    tray_len,
                    scale,
                    &renderer.style,
                );
                assert_eq!(layout.clock_x, 860 * s);
                if tray_len > 0 {
                    assert_eq!(
                        layout.icon_x(tray_len - 1) + layout.icon_size,
                        (1920 - config.padding as i32) * s
                    );
                }
            }
        }
    }
}

#[test]
fn centered_clock_keeps_pixels_and_click_area_clear_when_sides_are_crowded() {
    for (drawer, network_enabled) in [(false, false), (true, false), (false, true), (true, true)] {
        for weather_enabled in [false, true] {
            let config = Config {
                clock_position: ClockPosition::Center,
                tray_drawer: drawer,
                network_enabled,
                weather_enabled,
                workspace_width: 24,
                ..Config::default()
            };
            let renderer = Renderer::new(&config);
            let occupied = |mut content: RenderContent| {
                for slot in &mut content.workspaces {
                    slot.is_occupied = true;
                }
                content
            };
            for scale in [1, 2, 3] {
                for width in [240, 800] {
                    let plain = occupied(content(
                        width,
                        config.height,
                        scale,
                        "Tue Sep 15, 03:45",
                        "EN",
                    ));
                    let plan = renderer.draw(&plain);
                    let clock = find(&plan, HitTarget::Clock);
                    let baseline = paint(&plain, &plan);
                    for reveal in [0.0, 0.5, 1.0] {
                        let mut crowded = with_tray(
                            occupied(content(
                                width,
                                config.height,
                                scale,
                                "Tue Sep 15, 03:45",
                                "EN",
                            )),
                            &renderer.style,
                            40,
                            reveal,
                        );
                        crowded.tasks = vec![TaskItem {
                            is_focused: true,
                            ..task(1, "Window", scale)
                        }];
                        let plan = renderer.draw(&crowded);
                        let canvas = paint(&crowded, &plan);
                        let next = find(&plan, HitTarget::Clock);
                        assert_eq!((next.x, next.width), (clock.x, clock.width));
                        for y in 0..canvas.height {
                            for x in clock.x..clock.x + clock.width {
                                assert_eq!(
                                    canvas.pixel(x as u32, y),
                                    baseline.pixel(x as u32, y)
                                );
                            }
                        }
                        assert!(plan
                            .hitboxes
                            .iter()
                            .filter(|hit| hit.target != HitTarget::Clock && hit.width > 0)
                            .all(|hit| hit.x + hit.width <= clock.x
                                || hit.x >= clock.x + clock.width));
                        assert_eq!(
                            hit_at(&plan.hitboxes, scale, f64::from(width) / 2.0, 1.0),
                            Some(HitTarget::Clock)
                        );
                    }
                }
            }
        }
    }
}

#[test]
fn network_slot_stays_right_of_keyboard_and_does_not_shift_with_tray() {
    for position in [ClockPosition::Center, ClockPosition::Right] {
        let config = Config {
            clock_position: position,
            network_enabled: true,
            ..Config::default()
        };
        let renderer = Renderer::new(&config);
        for scale in [1, 2, 3] {
            let s = scale as i32;
            for tray_len in [0, 1, 20] {
                let layout = BarLayout::calculate(
                    (1920 * s, 28 * s),
                    (200 * s, 15 * s),
                    (32 * s, 15 * s),
                    tray_len,
                    scale,
                    &renderer.style,
                );
                let x = layout.network_x.unwrap();
                assert_eq!(
                    x,
                    if position == ClockPosition::Center {
                        1894 * s
                    } else {
                        1688 * s
                    }
                );
                assert_eq!(
                    layout.keyboard_x + layout.keyboard_width + layout.spacing,
                    x
                );
                assert_eq!(
                    layout.clock_x,
                    if position == ClockPosition::Center {
                        860 * s
                    } else {
                        1712 * s
                    }
                );
                if tray_len > 0 {
                    assert!(layout.icon_x(tray_len - 1) + layout.icon_size < layout.keyboard_x);
                }
            }
        }
    }
}

fn drawer_config() -> Config {
    Config {
        tray_drawer: true,
        clock_position: ClockPosition::Center,
        show_tasks: true,
        ..Config::default()
    }
}

#[test]
fn tray_drawer_hides_icon_pixels_and_click_targets() {
    let config = drawer_config();
    let renderer = Renderer::new(&config);
    let shut = with_tray(content(800, 28, 1, "12:00", "EN"), &renderer.style, 1, 0.0);
    let plan = renderer.draw(&shut);
    let pixmap = paint(&shut, &plan);
    assert!(!plan
        .hitboxes
        .iter()
        .any(|hit| matches!(hit.target, HitTarget::Tray(_))));
    assert!(!pixmap
        .pixels
        .chunks_exact(4)
        .any(|pixel| pixel == [255, 0, 0, 255]));
    assert!(
        !plan.commands.iter().any(|command| matches!(
            command,
            DrawCommand::Blit {
                picture: Picture::TrayIcon(_),
                ..
            }
        )),
        "hidden icons should not be rasterized"
    );
}

#[test]
fn tray_drawer_keeps_handle_fixed_and_clips_icons_at_each_scale() {
    let config = drawer_config();
    let renderer = Renderer::new(&config);
    for scale in [1, 2] {
        let mut handle_right = None;
        for (progress, expected_width, expected_icons) in
            [(0.0, 18, 0), (0.25, 30, 1), (0.5, 42, 1), (1.0, 66, 2)]
        {
            let mut open = with_tray(
                content(800, 28, scale, "12:00", "EN"),
                &renderer.style,
                2,
                progress,
            );
            open.tasks = vec![task(1, "Terminal", scale)];
            let mut plan = renderer.draw(&open);
            // The task's icon is as blue as the second one of the tray.
            plan.commands.retain(|command| {
                !matches!(
                    command,
                    DrawCommand::Blit {
                        picture: Picture::TaskIcon(_),
                        ..
                    }
                )
            });
            let pixmap = paint(&open, &plan);
            let group = find(&plan, HitTarget::TrayDrawer);
            let right = group.x + group.width;
            let keyboard_width = open.keyboard.unwrap().reserved_width;
            assert_eq!(
                right + 2 * config.tray_spacing as i32 * scale as i32 + keyboard_width,
                (800 - config.padding) as i32 * scale as i32
            );
            let task = find(&plan, HitTarget::Window(1));
            assert!(
                task.x + task.width <= group.x,
                "tasks must end before the drawer"
            );
            assert_eq!(group.width, expected_width * scale as i32);
            assert_eq!(*handle_right.get_or_insert(right), right);
            assert_eq!(
                plan.hitboxes
                    .iter()
                    .filter(|hit| matches!(hit.target, HitTarget::Tray(_)))
                    .count(),
                expected_icons
            );
            for hit in plan
                .hitboxes
                .iter()
                .filter(|hit| matches!(hit.target, HitTarget::Tray(_)))
            {
                assert!(hit.x >= group.x);
                assert!(hit.x + hit.width <= right - 24 * scale as i32);
                assert_eq!(
                    hit_at(
                        &plan.hitboxes,
                        scale,
                        f64::from(hit.x) / f64::from(scale),
                        14.0
                    ),
                    Some(hit.target)
                );
            }
            // The entire group, including gaps and padding, stays hoverable.
            for x in group.x..right {
                let logical = f64::from(x) / f64::from(scale);
                assert!(matches!(
                    hit_at(&plan.hitboxes, scale, logical, 14.0),
                    Some(HitTarget::TrayDrawer | HitTarget::Tray(_))
                ));
                assert_eq!(
                    hit_at(&plan.hitboxes, scale, logical, 0.0),
                    Some(HitTarget::TrayDrawer)
                );
            }
            assert!(
                !pixmap
                    .pixels
                    .chunks_exact(4)
                    .any(|pixel| pixel == [0, 0, 255, 255])
                    || progress == 1.0
            );
            let red_pixels = pixmap
                .pixels
                .chunks_exact(4)
                .filter(|pixel| *pixel == [255, 0, 0, 255])
                .count();
            let red_width = if progress == 0.0 {
                0
            } else if progress == 0.25 {
                6
            } else {
                18
            };
            assert_eq!(red_pixels, red_width * 18 * (scale * scale) as usize);
        }
        let empty = with_tray(
            content(800, 28, scale, "12:00", "EN"),
            &renderer.style,
            0,
            1.0,
        );
        assert!(!renderer
            .draw(&empty)
            .hitboxes
            .iter()
            .any(|hit| matches!(hit.target, HitTarget::TrayDrawer | HitTarget::Tray(_))));
    }
}

#[test]
fn icon_scaling_reuses_exact_pixels() {
    let pixels = vec![1, 2, 3, 255];
    assert_eq!(scale_pixels(&pixels, 1, 1, 1), [1, 2, 3, 255]);
    assert_eq!(scale_pixels(&pixels, 1, 1, 2), [1, 2, 3, 255].repeat(4));
}

fn plain_style() -> Style {
    Style {
        font_family: "".into(),
        font_size: 13.0_f32.to_bits(),
        background: [0, 0, 0, 255],
        foreground: [255; 4],
        padding: 8,
        tray_icon_size: 18,
        tray_spacing: 6,
        tray_drawer: false,
        clock_position: ClockPosition::Right,
        calendar_enabled: true,
        weather_enabled: false,
        weather_foreground: [220, 220, 204, 255],
        network_enabled: false,
        network_foreground: [255; 4],
        network_muted: [128; 4],
        workspace_width: 28,
        workspace_focused_background: [0, 0, 0, 255],
        workspace_active_background: [0, 0, 0, 255],
        workspace_active_foreground: [255; 4],
        workspace_occupied_foreground: [200; 4],
        workspace_empty_foreground: [100; 4],
        workspace_urgent_foreground: [255, 0, 0, 255],
        media_enabled: false,
        task_icon_size: 18,
        task_spacing: 2,
        task_padding: 6,
        task_background: [0, 0, 0, 255],
        task_focused_background: [0, 0, 0, 255],
        task_urgent_background: [0, 0, 0, 255],
        task_foreground: [200; 4],
        task_focused_foreground: [255; 4],
    }
}

#[test]
fn layout_places_tray_left_of_clock() {
    let style = plain_style();
    let layout = BarLayout::calculate((1920, 28), (130, 17), (0, 0), 2, 1, &style);
    assert_eq!(layout.clock_x, 1782);
    assert!(layout.icon_x(1) + layout.icon_size < layout.clock_x);
}

#[test]
fn layout_places_keyboard_left_of_tray() {
    let style = plain_style();
    let layout = BarLayout::calculate((1920, 28), (130, 17), (18, 13), 2, 1, &style);

    assert_eq!(
        layout.keyboard_x + layout.keyboard_width + layout.spacing,
        layout.tray_left
    );
    assert!(layout.keyboard_x < layout.tray_left);
}

fn text_bitmap(text: &str, scale: u32) -> Bitmap {
    let size = text_size(text, scale);
    Bitmap {
        width: size.width as u32,
        height: size.height as u32,
        pixels: [200, 200, 200, 255].repeat((size.width * size.height) as usize),
    }
}

#[test]
fn keyboard_layout_reserves_same_width_for_ru_and_en() {
    let mut renderer = Renderer::new(&Config::default());
    let color = renderer.style.foreground;
    let mut reserved = |text: &str, width: u32| {
        let label = renderer
            .keyboard
            .cache_keyboard_layout(text, 1, color)
            .unwrap();
        let bitmap = Bitmap::transparent(width, 14);
        renderer.keyboard.store(label, 1, color, bitmap, 15, 19);
        renderer.keyboard.entry.as_ref().unwrap().reserved_width
    };

    let ru_width = reserved("RU", 15);
    let en_width = reserved(" EN ", 19);

    assert_eq!(ru_width, en_width);
    assert_eq!(en_width, 19);
    assert_eq!(
        renderer.keyboard.cache_keyboard_layout("EN", 1, color),
        None
    );
    assert_eq!(
        renderer.keyboard.cache_keyboard_layout("  ", 1, color),
        None
    );
    assert!(renderer.keyboard.entry.is_none());
}

#[test]
fn task_layout_distributes_all_available_pixels() {
    let layout = TaskLayout::calculate(10, 103, 28, 3, 2).unwrap();
    assert_eq!(layout.item(0).unwrap().width, 30);
    assert_eq!(layout.item(1).unwrap().width, 30);
    let last = layout.item(2).unwrap();
    assert_eq!(last.width, 29);
    assert_eq!(last.x + last.width, 103);
}

#[test]
fn one_task_takes_all_of_the_space() {
    let layout = TaskLayout::calculate(0, i32::MAX, 28, 1, 2).unwrap();
    let only = layout.item(0).unwrap();
    assert_eq!((only.x, only.width, only.height), (0, i32::MAX, 28));
    assert!(layout.item(1).is_none());
}

#[test]
fn tasks_without_room_are_not_laid_out() {
    assert!(TaskLayout::calculate(10, 12, 28, 3, 2).is_none());
    assert!(TaskLayout::calculate(10, 10, 28, 1, 2).is_none());
    assert!(TaskLayout::calculate(10, 100, 28, 0, 2).is_none());
    let layout = TaskLayout::calculate(10, 100, 28, 1, 2).unwrap();
    assert!(layout.item(1).is_none());
}

fn blue_columns(pixmap: &Bitmap, task: Hitbox, row: u32) -> Vec<i32> {
    (task.x..task.x + task.width)
        .filter(|&x| pixmap.pixel(x as u32, row) == [0, 0, 255, 255])
        .collect()
}

#[test]
fn task_icon_and_label_are_centered_as_one_group() {
    let config = Config {
        clock_position: ClockPosition::Center,
        show_tasks: true,
        ..Config::default()
    };
    let renderer = Renderer::new(&config);
    let mut shown = content(1600, config.height, 1, "12:34", "");
    shown.tasks = vec![task(1, "I", 1)];
    let plan = renderer.draw(&shown);
    let pixmap = paint(&shown, &plan);

    let task = find(&plan, HitTarget::Window(1));
    let label_width = shown.tasks[0].label.width;
    let content_width = config.task_icon_size as i32 + config.task_padding as i32 + label_width;
    let expected_icon_x =
        task.x + ((task.width - content_width) / 2).max(config.task_padding as i32);
    let icon_y = (config.height - config.task_icon_size) / 2;
    let actual_icon_x = blue_columns(&pixmap, task, icon_y)[0];

    assert_eq!(actual_icon_x, expected_icon_x);
    assert!(
        (actual_icon_x * 2
            + config.task_icon_size as i32
            + config.task_padding as i32
            + label_width
            - (task.x * 2 + task.width))
            .abs()
            <= 1
    );
}

#[test]
fn task_icon_stays_centered_when_the_label_does_not_fit() {
    let config = Config {
        workspace_width: 16,
        background: "#00000000".into(),
        task_background: "#00000000".into(),
        task_focused_background: "#00000000".into(),
        clock_position: ClockPosition::Center,
        show_tasks: true,
        ..Config::default()
    };
    let renderer = Renderer::new(&config);
    let mut shown = content(400, config.height, 1, "12:34", "");
    shown.tasks = (1..=5).map(|id| task(id, "Terminal", 1)).collect();
    let plan = renderer.draw(&shown);
    let pixmap = paint(&shown, &plan);

    let task = find(&plan, HitTarget::Window(1));
    let icon_y = (config.height - config.task_icon_size) / 2;
    let visible_icon_x = blue_columns(&pixmap, task, icon_y);

    assert!(!visible_icon_x.is_empty());
    let actual_center = visible_icon_x[0] + visible_icon_x[visible_icon_x.len() - 1] + 1;
    let expected_center = task.x * 2 + task.width;
    assert!(
        (actual_center - expected_center).abs() <= 1,
        "visible icon center {actual_center}, task center {expected_center}, task {task:?}, pixels {visible_icon_x:?}"
    );
}

#[test]
fn edge_task_labels_use_the_shorter_edge_width() {
    let config = Config {
        clock_position: ClockPosition::Center,
        show_tasks: true,
        ..Config::default()
    };
    let mut renderer = Renderer::new(&config);
    let labels = [
        "Kitty",
        "The middle application title remains independent",
        "A much longer title on the right edge",
    ];
    let color = renderer.style.task_foreground;
    let cache = &mut renderer.task_labels;
    let places: Vec<usize> = labels
        .iter()
        .enumerate()
        .map(|(index, label)| {
            let id = index as u64 + 1;
            assert_eq!(
                cache.ensure_task_label(id, label, 1, color),
                CacheState::Stale
            );
            cache.store(id, (*label).into(), 1, color, text_bitmap(label, 1))
        })
        .collect();
    let first = cache.entries[places[0]].natural_width;
    let last = cache.entries[places[2]].natural_width;
    for (index, place) in places.iter().enumerate() {
        let limit = label_limit(first, last, index, labels.len());
        if let Some(limit) = cache.cached_task_label(*place, limit) {
            let width = limit.unwrap_or(cache.entries[*place].natural_width);
            cache.store_limited(*place, limit, Bitmap::transparent(width, 14));
        }
        assert_eq!(cache.cached_task_label(*place, limit), None);
    }

    let width = |id| {
        renderer
            .task_labels
            .entries
            .iter()
            .find(|cached| cached.id == id)
            .unwrap()
            .bitmap
            .width
    };
    assert!(width(2) > width(1));
    assert!(width(3) <= width(1));
    assert_eq!(label_limit(first, last, 0, 1), None);
}

#[test]
fn task_text_eviction_removes_every_scale_and_keeps_capacity() {
    let mut renderer = Renderer::new(&Config::default());
    renderer.task_labels.entries.reserve(8);
    for (id, scale) in [(7, 1), (7, 2), (9, 1)] {
        renderer.task_icons.entries.push(TaskIconBitmap {
            id,
            scale,
            revision: 1,
            pixels: vec![255; 4],
        });
        renderer.task_labels.entries.push(TaskTextBitmap {
            id,
            label: format!("window-{id}"),
            scale,
            color: [255; 4],
            natural_width: 1,
            width_limit: None,
            bitmap: Bitmap::transparent(1, 1),
        });
    }
    let capacity = renderer.task_labels.entries.capacity();

    renderer.evict_window(7);

    assert_eq!(
        renderer
            .task_labels
            .entries
            .iter()
            .map(|entry| (entry.id, entry.scale))
            .collect::<Vec<_>>(),
        [(9, 1)]
    );
    assert_eq!(renderer.task_labels.entries.capacity(), capacity);
    assert_eq!(
        renderer
            .task_icons
            .entries
            .iter()
            .map(|entry| (entry.id, entry.scale))
            .collect::<Vec<_>>(),
        [(9, 1)]
    );
}

#[test]
fn tray_removal_evicts_all_scales_without_drawing() {
    let mut renderer = Renderer::new(&Config::default());
    let icon = |id: &str| TrayIcon {
        id: id.into(),
        revision: 1,
        pixels: vec![255; 4],
        width: 1,
        height: 1,
    };
    let removed = icon("removed");
    let retained = icon("retained");
    renderer.icons.cached_icon(&removed, 1, 18);
    renderer.icons.cached_icon(&removed, 2, 36);
    renderer.icons.cached_icon(&retained, 1, 18);
    renderer.retain_tray_icons(&vec![retained]);
    assert_eq!(renderer.icons.entries.len(), 1);
    assert_eq!(renderer.icons.entries[0].id, "retained");
    renderer.retain_tray_icons(&vec![]);
    assert!(renderer.icons.entries.is_empty());
}

#[test]
fn task_list_stays_between_workspaces_and_centered_clock() {
    let config = Config {
        workspace_width: 24,
        task_spacing: 2,
        task_focused_background: "#123456".into(),
        clock_position: ClockPosition::Center,
        show_tasks: true,
        ..Config::default()
    };
    let renderer = Renderer::new(&config);
    let mut shown = content(800, config.height, 1, "Sun Jul 05, 10:42", "");
    shown.tasks = vec![TaskItem {
        is_focused: true,
        ..task(1, "Terminal", 1)
    }];
    let plan = renderer.draw(&shown);
    let pixmap = paint(&shown, &plan);

    let task = find(&plan, HitTarget::Window(1));
    assert_eq!(
        task.x,
        config.workspace_width as i32 * WORKSPACES_PER_OUTPUT as i32
    );
    let task_start = task.x as usize * 4;
    assert_eq!(
        &pixmap.pixels[task_start..task_start + 4],
        &[0x12, 0x34, 0x56, 255]
    );
    assert_eq!(plan.hitboxes.len(), WORKSPACES_PER_OUTPUT + 1 + 1);
    let clock = find(&plan, HitTarget::Clock);
    assert!(task.x >= config.workspace_width as i32 * WORKSPACES_PER_OUTPUT as i32);
    assert_eq!(
        clock.x - task.x - task.width,
        (config.tray_spacing + config.task_spacing) as i32
    );
}

#[test]
fn active_workspace_marker_replaces_labels_and_preserves_occupancy() {
    let config = Config {
        height: 24,
        workspace_width: 24,
        background: "#00000000".into(),
        workspace_focused_background: "#00000000".into(),
        workspace_active_background: "#00000000".into(),
        workspace_active_foreground: "#FFFFFFFF".into(),
        workspace_occupied_foreground: "#FFFFFFFF".into(),
        workspace_empty_foreground: "#FFFFFFFF".into(),
        ..Config::default()
    };
    let renderer = Renderer::new(&config);
    for scale in [1, 2, 3] {
        // Only the first workspace has a label, which is drawn in the color of
        // its index; the mark of a selected one has index zero.
        let render = |workspace: WorkspaceSlot| {
            let mut shown = content(800, 24, scale, "", "");
            shown.workspaces[0] = workspace;
            shown.workspace_labels = [NOWHERE; WORKSPACES_PER_OUTPUT];
            shown.workspace_labels[0] = Size {
                width: 6 * scale as i32,
                height: 6 * scale as i32,
            };
            let plan = renderer.draw(&shown);
            let first = plan.hitboxes[0];
            assert_eq!(first.width, (24 * scale) as i32);
            let mut canvas = Bitmap::transparent(800 * scale, 24 * scale);
            for command in &plan.commands {
                if let DrawCommand::Blit {
                    picture: Picture::WorkspaceLabel(0),
                    x,
                    y,
                    width,
                    height,
                    clip,
                } = *command
                {
                    let shade = [0, 0, workspace_label_index(workspace), 255];
                    draw_premultiplied_clipped(
                        &mut canvas,
                        x,
                        y,
                        width as u32,
                        height as u32,
                        &shade.repeat((width * height) as usize),
                        clip,
                    );
                } else {
                    run(&[*command], &mut canvas);
                }
            }
            let mut cell = Bitmap::transparent(24 * scale, 24 * scale);
            draw_premultiplied_clipped(
                &mut cell,
                0,
                0,
                canvas.width,
                canvas.height,
                &canvas.pixels,
                PixelRect {
                    x: 0,
                    y: 0,
                    width: (24 * scale) as i32,
                    height: (24 * scale) as i32,
                },
            );
            cell
        };
        let first = WorkspaceSlot {
            index: 1,
            ..WorkspaceSlot::default()
        };
        let label = render(first);
        let selected = render(WorkspaceSlot {
            is_focused: true,
            ..first
        });
        let other_selected = render(WorkspaceSlot {
            index: 2,
            is_active: true,
            ..WorkspaceSlot::default()
        });
        assert!(has_visible_pixels(&selected));
        assert_ne!(
            selected.pixels, label.pixels,
            "selection must replace the label"
        );
        assert_eq!(
            selected.pixels, other_selected.pixels,
            "all selected workspaces use the same dot"
        );
        assert_eq!(
            render(first).pixels,
            label.pixels,
            "deselection must restore the cached label"
        );

        for active in [false, true] {
            let empty = render(WorkspaceSlot {
                is_active: active,
                ..first
            });
            let occupied = render(WorkspaceSlot {
                is_active: active,
                is_occupied: true,
                ..first
            });
            let underline_start = (22 * scale * 24 * scale * 4) as usize;
            assert_eq!(
                &empty.pixels[..underline_start],
                &occupied.pixels[..underline_start]
            );
            for y in 22 * scale..24 * scale {
                for x in 0..24 * scale {
                    let expected = if (8 * scale..16 * scale).contains(&x) {
                        255
                    } else {
                        0
                    };
                    assert_eq!(occupied.pixel(x, y)[3], expected);
                    assert_eq!(empty.pixel(x, y)[3], 0);
                }
            }
            assert_eq!(occupied.pixel(0, 0)[3], 0);
        }
    }
}

#[test]
fn workspaces_tasks_and_tray_are_drawn_in_separate_regions() {
    let config = Config {
        workspace_focused_background: "#654321".into(),
        task_focused_background: "#123456".into(),
        clock_position: ClockPosition::Center,
        show_tasks: true,
        ..Config::default()
    };
    let renderer = Renderer::new(&config);
    let mut shown = content(800, config.height, 1, "Sun Jul 05, 10:42", "RU");
    shown.workspaces[0].is_focused = true;
    shown.tray_len = 1;
    shown.tasks = vec![TaskItem {
        is_focused: true,
        ..task(1, "Terminal", 1)
    }];
    let plan = renderer.draw(&shown);
    let pixmap = paint(&shown, &plan);

    assert_eq!(&pixmap.pixels[..4], &[0x65, 0x43, 0x21, 255]);
    let task_offset = find(&plan, HitTarget::Window(1)).x as usize * 4;
    assert_eq!(
        &pixmap.pixels[task_offset..task_offset + 4],
        &[0x12, 0x34, 0x56, 255]
    );
    assert!(pixmap
        .pixels
        .chunks_exact(4)
        .any(|pixel| pixel == [255, 0, 0, 255]));
    assert_eq!(plan.hitboxes.len(), WORKSPACES_PER_OUTPUT + 1 + 1 + 1);
    assert_eq!(plan.hitboxes.last().unwrap().target, HitTarget::Tray(0));
}

#[test]
fn rendered_buttons_hit_the_correct_targets_at_each_scale() {
    let config = Config {
        clock_position: ClockPosition::Center,
        show_tasks: true,
        ..Config::default()
    };
    let renderer = Renderer::new(&config);
    let workspaces: [WorkspaceSlot; WORKSPACES_PER_OUTPUT] =
        std::array::from_fn(|offset| WorkspaceSlot {
            id: Some(100 + offset as u64),
            index: offset as u8 + 6,
            ..WorkspaceSlot::default()
        });

    for scale in [1, 2, 3] {
        let shown = |width: u32, ids: &[u64]| {
            let mut shown = content(width, config.height, scale, "12:34", "RU");
            shown.workspaces = workspaces;
            shown.tasks = ids.iter().map(|id| task(*id, "Terminal", scale)).collect();
            shown
        };
        let hitboxes = renderer.draw(&shown(800, &[42, 99])).hitboxes;

        for (offset, workspace) in workspaces.iter().enumerate() {
            let x = f64::from(config.workspace_width) * (offset as f64 + 0.5);
            assert_eq!(
                hit_at(&hitboxes, scale, x, 0.5),
                Some(HitTarget::Workspace {
                    id: workspace.id,
                    index: offset as u8 + 1
                })
            );
        }
        for hitbox in &hitboxes[WORKSPACES_PER_OUTPUT..] {
            for physical_x in [hitbox.x, hitbox.x + hitbox.width - 1] {
                let x = (f64::from(physical_x) + 0.5) / f64::from(scale);
                assert_eq!(hit_at(&hitboxes, scale, x, 0.5), Some(hitbox.target));
            }
        }
        assert_eq!(
            hitboxes[WORKSPACES_PER_OUTPUT].target,
            HitTarget::Window(42)
        );
        assert_eq!(
            hitboxes[WORKSPACES_PER_OUTPUT + 1].target,
            HitTarget::Window(99)
        );
        let first = hitboxes[WORKSPACES_PER_OUTPUT];
        let gap_x = f64::from(first.x + first.width) / f64::from(scale);
        assert_eq!(hit_at(&hitboxes, scale, gap_x, 0.5), None);
        assert_eq!(hit_at(&hitboxes, scale, -0.1, 0.5), None);
        assert_eq!(
            hit_at(&hitboxes, scale, 0.5, f64::from(config.height)),
            None
        );

        let hitboxes = renderer.draw(&shown(800, &[])).hitboxes;
        assert_eq!(hitboxes.len(), WORKSPACES_PER_OUTPUT + 1);
        assert_eq!(hit_at(&hitboxes, scale, gap_x - 1.0, 0.5), None);

        let hitboxes = renderer
            .draw(&shown(config.workspace_width, &[42, 99]))
            .hitboxes;
        assert!(hitboxes
            .iter()
            .all(|hitbox| !matches!(hitbox.target, HitTarget::Window(_))));
    }
}

fn sample_title() -> String {
    "Artist - A long track title ".repeat(12)
}

const DETAIL: &str = "00:49 / 02:40 (31%) [Paused]";

fn sample_media(scale: u32) -> MediaLabels {
    MediaLabels {
        title: text_size(&sample_title(), scale),
        separator: text_size("  ", scale),
        detail: text_size(DETAIL, scale),
    }
}

#[test]
fn media_truncates_title_before_detail_and_never_draws_outside_its_region() {
    for scale in [1, 2, 3] {
        let media = sample_media(scale);
        let left = 20 * scale as i32;
        let right = 420 * scale as i32;
        let mut canvas = Bitmap::transparent(460 * scale, 28 * scale);
        let mut commands = vec![];
        draw_media(media, left, right, 28 * scale as i32, &mut commands);
        run(&commands, &mut canvas);
        let detail_x = right - media.detail.width;
        let detail_y = (canvas.height as i32 - media.detail.height) / 2;
        assert!(media.title.width > 400 * scale as i32);
        for y in 0..canvas.height {
            for x in 0..canvas.width {
                if (x as i32) < left || x as i32 >= right {
                    assert_eq!(canvas.pixel(x, y)[3], 0);
                }
            }
        }
        for y in 0..media.detail.height {
            for x in 0..media.detail.width {
                assert_eq!(
                    canvas.pixel((detail_x + x) as u32, (detail_y + y) as u32),
                    picture_color(Picture::MediaDetail),
                    "time and state must remain complete"
                );
            }
        }
    }
}

#[test]
fn media_reuses_title_on_ticks_and_releases_cache_without_player() {
    let mut renderer = Renderer::new(&Config::default());
    let title = sample_title();
    let cache = &mut renderer.media;
    assert_eq!(cache.state(1, &title, DETAIL), MediaState::Missing);
    cache.store(MediaBitmap {
        scale: 1,
        title: title.clone(),
        title_bitmap: text_bitmap(&title, 1),
        detail: DETAIL.into(),
        detail_bitmap: text_bitmap(DETAIL, 1),
        separator_bitmap: text_bitmap("  ", 1),
    });
    let title_pixels = cache.entries[0].title_bitmap.pixels.as_ptr();
    assert_eq!(
        cache.state(1, &title, DETAIL),
        MediaState::Kept {
            index: 0,
            title: false,
            detail: false
        }
    );
    let next = "00:50 / 02:40 (31%) [Playing]";
    assert_eq!(
        cache.state(1, &title, next),
        MediaState::Kept {
            index: 0,
            title: false,
            detail: true
        }
    );
    cache.store_detail(0, next.into(), text_bitmap(next, 1));
    assert_eq!(cache.entries[0].title_bitmap.pixels.as_ptr(), title_pixels);
    assert_eq!(cache.entries[0].detail, next);
    cache.clear();
    assert!(cache.entries.is_empty());
}

#[test]
fn media_keeps_clock_workspaces_and_right_status_pixels_unchanged() {
    for position in [ClockPosition::Center, ClockPosition::Right] {
        let config = Config {
            clock_position: position,
            weather_enabled: true,
            network_enabled: true,
            ..Config::default()
        };
        let renderer = Renderer::new(&config);
        for scale in [1, 2, 3] {
            let mut shown = content(1600, config.height, scale, "12:34", "EN");
            let plan = renderer.draw(&shown);
            let baseline = paint(&shown, &plan);
            let clock = find(&plan, HitTarget::Clock);
            let left = if position == ClockPosition::Center {
                find(&plan, HitTarget::Weather).x + config.tray_icon_size as i32 * scale as i32
            } else {
                config.workspace_width as i32 * WORKSPACES_PER_OUTPUT as i32 * scale as i32
            };
            let network_left =
                (1600 - config.padding - config.tray_icon_size) as i32 * scale as i32;
            let anchor = if position == ClockPosition::Center {
                network_left
            } else {
                clock.x - (config.tray_spacing + config.tray_icon_size) as i32 * scale as i32
            };
            let right = anchor
                - config.tray_spacing as i32 * scale as i32
                - shown.keyboard.unwrap().reserved_width;
            shown.media = Some(sample_media(scale));
            let canvas = paint(&shown, &renderer.draw(&shown));
            assert_ne!(canvas.pixels, baseline.pixels);
            for y in 0..canvas.height {
                for x in 0..canvas.width {
                    if (x as i32) < left || x as i32 >= right {
                        assert_eq!(canvas.pixel(x, y), baseline.pixel(x, y));
                    }
                }
            }
            if position == ClockPosition::Center {
                assert!(((clock.x * 2 + clock.width) - canvas.width as i32).abs() <= 1);
            }
        }
    }
}

#[test]
fn pixels_are_laid_over_each_other_exactly() {
    assert_eq!(
        blend_premultiplied([100, 50, 0, 255], [0, 0, 0, 0]),
        [100, 50, 0, 255]
    );
    assert_eq!(
        blend_premultiplied([100, 50, 0, 255], [1, 2, 3, 255]),
        [1, 2, 3, 255]
    );
    assert_eq!(
        blend_premultiplied([100, 50, 0, 255], [64, 0, 0, 128]),
        [113, 24, 0, 255]
    );
    assert_eq!(
        blend_pixel([100, 50, 0, 255], 255, 255, 255, 128),
        [177, 152, 128, 255]
    );
    let mut canvas = Bitmap::transparent(4, 4);
    blend_rect(&mut canvas, -1, 3, 2, 9, [9, 8, 7, 255]);
    assert_eq!(canvas.pixel(0, 3), [9, 8, 7, 255]);
    assert_eq!(canvas.pixel(1, 3), [0; 4]);
    assert_eq!(canvas.pixel(0, 2), [0; 4]);
    canvas.set_pixel(2, 2, [1; 4]);
    assert_eq!(canvas.pixel(2, 2), [1; 4]);
}

#[test]
fn caches_redraw_only_what_has_changed() {
    let mut renderer = Renderer::new(&Config::default());
    assert!(renderer.clocks.stale("12:00", 1));
    renderer
        .clocks
        .store("12:00".into(), 1, text_bitmap("12:00", 1));
    assert!(!renderer.clocks.stale("12:00", 1));
    assert!(renderer.clocks.stale("12:01", 1));
    assert!(renderer.clocks.stale("12:00", 2));

    let color = [1, 2, 3, 255];
    assert_eq!(
        renderer.workspaces.cached_workspace_label(3, 1, color),
        CacheState::Stale
    );
    renderer
        .workspaces
        .store(3, 1, color, text_bitmap("3", 1));
    assert_eq!(
        renderer.workspaces.cached_workspace_label(3, 1, color),
        CacheState::Fresh(0)
    );
    assert_eq!(
        renderer.workspaces.cached_workspace_label(3, 1, [0; 4]),
        CacheState::Stale
    );
    assert_eq!(workspace_label(3, false), "三");
    assert_eq!(workspace_label(3, true), "3");

    let icon = ApplicationIcon {
        revision: 1,
        pixels: vec![1, 2, 3, 255],
        width: 1,
        height: 1,
    };
    let place = renderer.task_icons.cached_task_icon(5, &icon, 1, 2);
    assert_eq!(
        renderer.task_icons.entries[place].pixels,
        [1, 2, 3, 255].repeat(4)
    );
    let changed = ApplicationIcon {
        revision: 2,
        pixels: vec![9, 9, 9, 255],
        ..icon
    };
    assert_eq!(
        renderer.task_icons.cached_task_icon(5, &changed, 1, 2),
        place
    );
    assert_eq!(renderer.task_icons.entries[place].revision, 2);
}

#[test]
fn caches_are_trimmed_when_they_are_full() {
    let mut renderer = Renderer::new(&Config::default());
    let icon = ApplicationIcon {
        revision: 1,
        pixels: vec![255; 4],
        width: 1,
        height: 1,
    };
    for id in 0..513 {
        renderer.task_icons.cached_task_icon(id, &icon, 1, 1);
    }
    assert_eq!(renderer.task_icons.entries.len(), 257);
    assert_eq!(renderer.task_icons.entries[0].id, 256);
    assert_eq!(renderer.task_icons.entries[256].id, 512);
}

#[test]
fn bars_have_a_largest_size() {
    let renderer = Renderer::new(&Config::default());
    let style = &renderer.style;
    assert!(content(800, 28, 1, "12:00", "EN").fits(style));
    assert!(with_tray(content(800, 28, 2, "12:00", ""), style, 3, 1.0).fits(style));

    let mut wide = content(800, 28, 1, "12:00", "EN");
    wide.clock.width = i32::MAX;
    assert!(!wide.fits(style));
    let mut negative = content(800, 28, 1, "12:00", "EN");
    negative.canvas.height = -1;
    assert!(!negative.fits(style));
    let mut crowded = content(800, 28, 1, "12:00", "EN");
    crowded.tray_len = usize::MAX;
    assert!(!crowded.fits(style));
    let mut sharp = content(800, 28, 1, "12:00", "EN");
    sharp.scale = 0x1_0001;
    assert!(!sharp.fits(style));
}
