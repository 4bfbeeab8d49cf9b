//! What holds of workspaces, tasks and keyboard layouts, whatever the compositor tells.

use vstd::prelude::*;

use crate::niri::{
    active_places, app_ids_of, bracketed, concerns_bars, current_layout, entry_at, first_word_chars,
    focused_list, icon_key_of, icons_alike, info_of, infos_alike, key_window, label_text, labelled,
    layout_label, list_of, list_on_output, lists_alike, lists_of, models_alike, occupied, on_output,
    open_key, short_layout, shortened, shown, slot_at, tape_of, task_of, tasks_alike,
    tasks_of_output, wanted_of, window_ids_of, with_icon, with_index, workspace_place,
    workspace_tasks, ApplicationIconCache, EventKind, IconEntry, IconView, KeyboardLayouts,
    ListView, NiriModel, TaskView, WindowState, WorkspaceInfo, WorkspaceState,
};
use crate::order::{in_order, lemma_sorted_contents, sorted};
use crate::text::{alphanumeric, byte_length, lowercase, option_view, trimmed};

verus! {

proof fn lemma_on_output(workspaces: Seq<WorkspaceInfo>, output: Seq<char>, index: u8, start: int)
    requires
        0 <= start,
    ensures
        match on_output(workspaces, output, index, start) {
            Some(place) => start <= place < workspaces.len() && option_view(
                workspaces[place].output,
            ) == Some(output) && workspaces[place].index == index,
            None => forall|i: int|
                start <= i < workspaces.len() && option_view((#[trigger] workspaces[i]).output)
                    == Some(output) ==> workspaces[i].index != index,
        },
    decreases workspaces.len() - start,
{
    if start < workspaces.len() && !(option_view(workspaces[start].output) == Some(output)
        && workspaces[start].index == index) {
        lemma_on_output(workspaces, output, index, start + 1);
    }
}

proof fn lemma_with_index(workspaces: Seq<WorkspaceInfo>, index: u8)
    ensures
        forall|k: int|
            #![trigger with_index(workspaces, index)[k]]
            0 <= k < with_index(workspaces, index).len() ==> 0 <= with_index(workspaces, index)[k]
                < workspaces.len() && workspaces[with_index(workspaces, index)[k]].index == index,
        forall|j: int, k: int|
            #![trigger with_index(workspaces, index)[j], with_index(workspaces, index)[k]]
            0 <= j < k < with_index(workspaces, index).len() ==> with_index(workspaces, index)[j]
                < with_index(workspaces, index)[k],
        forall|i: int|
            0 <= i < workspaces.len() && (#[trigger] workspaces[i]).index == index ==> with_index(
                workspaces,
                index,
            ).contains(i),
    decreases workspaces.len(),
{
    if workspaces.len() > 0 {
        let fewer = workspaces.drop_last();
        lemma_with_index(fewer, index);
        let before = with_index(fewer, index);
        let all = with_index(workspaces, index);
        assert forall|k: int| 0 <= k < all.len() implies 0 <= #[trigger] all[k] < workspaces.len()
            && workspaces[all[k]].index == index by {
            if k < before.len() {
                assert(all[k] == before[k]);
                assert(fewer[before[k]] == workspaces[before[k]]);
            }
        }
        assert forall|j: int, k: int| 0 <= j < k < all.len() implies #[trigger] all[j]
            < #[trigger] all[k] by {
            assert(all[j] == before[j]);
            if k < before.len() {
                assert(all[k] == before[k]);
            }
        }
        assert forall|i: int|
            0 <= i < workspaces.len() && (#[trigger] workspaces[i]).index == index implies all.contains(
            i,
        ) by {
            if i < workspaces.len() - 1 {
                assert(fewer[i] == workspaces[i]);
                let k = choose|k: int| 0 <= k < before.len() && before[k] == i;
                assert(all[k] == i);
            } else {
                assert(all[all.len() - 1] == i);
            }
        }
    }
}

/// A slot of a bar shows a workspace with the number of its place and nothing of another
/// one, and is empty if and only if there is no such workspace.
pub proof fn law_slots_show_one_workspace(
    workspaces: Seq<WorkspaceInfo>,
    offset: int,
    output: Option<Seq<char>>,
    output_group: u8,
)
    requires
        0 <= offset < 5,
    ensures
        ({
            let slot = slot_at(workspaces, offset, output, output_group);
            &&& slot.id is Some ==> exists|i: int|
                0 <= i < workspaces.len() && (#[trigger] workspaces[i]).index == offset + 1
                    && slot.id == Some(workspaces[i].id) && slot.is_active
                    == workspaces[i].is_active && slot.is_focused == workspaces[i].is_focused
                    && slot.is_occupied == workspaces[i].is_occupied && slot.is_urgent
                    == workspaces[i].is_urgent
            &&& slot.id is None ==> !slot.is_active && !slot.is_focused && !slot.is_occupied
                && !slot.is_urgent && forall|i: int|
                0 <= i < workspaces.len() ==> (#[trigger] workspaces[i]).index != offset + 1
        }),
{
    let index = (offset + 1) as u8;
    if let Some(name) = output {
        lemma_on_output(workspaces, name, index, 0);
    }
    lemma_with_index(workspaces, index);
    let slot = slot_at(workspaces, offset, output, output_group);
    let places = with_index(workspaces, index);
    let place = workspace_place(workspaces, index, output, output_group);
    if let Some(place) = place {
        assert(0 <= place < workspaces.len() && workspaces[place].index == offset + 1) by {
            if places.len() > 0 {
                assert(places[0] == places[0]);
            }
            if places.len() > 1 {
                assert(places[1] == places[1]);
            }
        }
    } else {
        assert forall|i: int| 0 <= i < workspaces.len() implies (#[trigger] workspaces[i]).index
            != offset + 1 by {
            if workspaces[i].index == offset + 1 {
                assert(places.contains(i));
            }
        }
    }
}

/// An output without workspaces of its own shows the first workspace with a number if it is
/// in the first group, and the second one otherwise.
pub proof fn law_groups_share_the_workspaces(
    workspaces: Seq<WorkspaceInfo>,
    first: int,
    second: int,
    output_group: u8,
)
    requires
        0 <= first < second < workspaces.len(),
        workspaces[first].index == workspaces[second].index,
        1 <= workspaces[first].index <= 5,
        forall|i: int|
            0 <= i < second && (#[trigger] workspaces[i]).index == workspaces[first].index ==> i
                == first,
    ensures
        ({
            let offset = workspaces[first].index - 1;
            &&& slot_at(workspaces, offset, None, 0).id == Some(workspaces[first].id)
            &&& output_group != 0 ==> slot_at(workspaces, offset, None, output_group).id == Some(
                workspaces[second].id,
            )
        }),
{
    let index = workspaces[first].index;
    lemma_with_index(workspaces, index);
    let places = with_index(workspaces, index);
    let j = choose|j: int| 0 <= j < places.len() && places[j] == first;
    let k = choose|k: int| 0 <= k < places.len() && places[k] == second;
    assert(places.contains(first) && places.contains(second));
    assert(places[0] <= places[j]);
    assert(places[0] == first) by {
        assert(workspaces[places[0]].index == index);
    }
    assert(j == 0) by {
        if j > 0 {
            assert(places[0] < places[j]);
        }
    }
    assert(k > 0);
    assert(places[1] == second) by {
        if k > 1 {
            assert(places[1] < places[k]);
            assert(places[0] < places[1]);
            assert(workspaces[places[1]].index == index);
        }
    }
}

/// A workspace is shown with its own number, place, output and state; it is occupied if and
/// only if there is a window on it.
pub proof fn law_workspaces_tell_their_state(
    workspace: WorkspaceState,
    windows: Seq<WindowState>,
    window: WindowState,
)
    ensures
        ({
            let info = info_of(workspace, windows);
            &&& info.id == workspace.id
            &&& info.index == workspace.idx
            &&& info.output == workspace.output
            &&& info.is_active == workspace.is_active
            &&& info.is_focused == workspace.is_focused
            &&& info.is_urgent == workspace.is_urgent
            &&& windows.len() == 0 ==> !info.is_occupied
        }),
        window.workspace_id == Some(workspace.id) ==> info_of(
            workspace,
            windows.push(window),
        ).is_occupied,
        window.workspace_id != Some(workspace.id) ==> info_of(
            workspace,
            windows.push(window),
        ).is_occupied == info_of(workspace, windows).is_occupied,
{
    let more = windows.push(window);
    assert(more[windows.len() as int] == window);
    if occupied(windows, workspace.id) {
        let i = choose|i: int|
            0 <= i < windows.len() && (#[trigger] windows[i]).workspace_id == Some(workspace.id);
        assert(more[i] == windows[i]);
    }
    if occupied(more, workspace.id) && window.workspace_id != Some(workspace.id) {
        let i = choose|i: int|
            0 <= i < more.len() && (#[trigger] more[i]).workspace_id == Some(workspace.id);
        assert(more[i] == windows[i]);
    }
}

/// Exactly the workspaces numbered 1 to 10 have a label.
pub proof fn law_ten_workspaces_have_labels(
    workspaces: Seq<WorkspaceState>,
    windows: Seq<WindowState>,
    workspace: WorkspaceState,
)
    ensures
        labelled(workspaces.push(workspace), windows) == (if 1 <= workspace.idx <= 10 {
            labelled(workspaces, windows).push(info_of(workspace, windows))
        } else {
            labelled(workspaces, windows)
        }),
        labelled(Seq::empty(), windows).len() == 0,
{
    assert(workspaces.push(workspace).drop_last() =~= workspaces);
    assert(workspaces.push(workspace).last() == workspace);
}

proof fn lemma_tape(windows: Seq<WindowState>, workspace_id: u64, count: int)
    requires
        0 <= count <= windows.len(),
        windows.len() <= usize::MAX,
    ensures
        forall|k: int|
            #![trigger tape_of(windows, workspace_id, count)[k]]
            0 <= k < tape_of(windows, workspace_id, count).len() ==> {
                let entry = tape_of(windows, workspace_id, count)[k];
                &&& entry.place < count
                &&& windows[entry.place as int].workspace_id == Some(workspace_id)
                &&& entry.key == crate::niri::tape_key(
                    windows[entry.place as int].id,
                    windows[entry.place as int].position,
                )
            },
        forall|i: int|
            0 <= i < count && (#[trigger] windows[i]).workspace_id == Some(workspace_id)
                ==> exists|k: int|
                0 <= k < tape_of(windows, workspace_id, count).len() && (#[trigger] tape_of(
                    windows,
                    workspace_id,
                    count,
                )[k]).place == i,
    decreases count,
{
    if count > 0 {
        lemma_tape(windows, workspace_id, count - 1);
        let before = tape_of(windows, workspace_id, count - 1);
        let all = tape_of(windows, workspace_id, count);
        assert forall|k: int| 0 <= k < all.len() implies (#[trigger] all[k]).place < count
            && windows[all[k].place as int].workspace_id == Some(workspace_id) && all[k].key
            == crate::niri::tape_key(
            windows[all[k].place as int].id,
            windows[all[k].place as int].position,
        ) by {
            if k < before.len() {
                assert(all[k] == before[k]);
            }
        }
        assert forall|i: int|
            0 <= i < count && (#[trigger] windows[i]).workspace_id == Some(
                workspace_id,
            ) implies exists|k: int| 0 <= k < all.len() && (#[trigger] all[k]).place == i by {
            if i < count - 1 {
                let k = choose|k: int| 0 <= k < before.len() && (#[trigger] before[k]).place == i;
                assert(all[k] == before[k]);
            } else {
                assert(all[all.len() - 1].place == i);
            }
        }
    }
}

proof fn lemma_sorted_tape(windows: Seq<WindowState>, workspace_id: u64)
    requires
        windows.len() <= usize::MAX,
    ensures
        ({
            let tape = sorted(tape_of(windows, workspace_id, windows.len() as int));
            &&& in_order(tape)
            &&& forall|k: int|
                0 <= k < tape.len() ==> {
                    let entry = #[trigger] tape[k];
                    &&& entry.place < windows.len()
                    &&& windows[entry.place as int].workspace_id == Some(workspace_id)
                    &&& entry.key == crate::niri::tape_key(
                        windows[entry.place as int].id,
                        windows[entry.place as int].position,
                    )
                }
            &&& forall|i: int|
                0 <= i < windows.len() && (#[trigger] windows[i]).workspace_id == Some(workspace_id)
                    ==> exists|k: int| 0 <= k < tape.len() && (#[trigger] tape[k]).place == i
        }),
{
    broadcast use vstd::seq_lib::group_to_multiset_ensures;

    let raw = tape_of(windows, workspace_id, windows.len() as int);
    let tape = sorted(raw);
    crate::niri::law_tape_is_ordered(windows, workspace_id);
    lemma_tape(windows, workspace_id, windows.len() as int);
    assert forall|k: int| 0 <= k < tape.len() implies raw.contains(#[trigger] tape[k]) by {
        assert(tape.contains(tape[k]));
        assert(tape.to_multiset().count(tape[k]) > 0);
        assert(raw.to_multiset().count(tape[k]) > 0);
    }
    assert forall|i: int|
        0 <= i < windows.len() && (#[trigger] windows[i]).workspace_id == Some(
            workspace_id,
        ) implies exists|k: int| 0 <= k < tape.len() && (#[trigger] tape[k]).place == i by {
        let k = choose|k: int| 0 <= k < raw.len() && (#[trigger] raw[k]).place == i;
        assert(raw.contains(raw[k]));
        assert(raw.to_multiset().count(raw[k]) > 0);
        assert(tape.to_multiset().count(raw[k]) > 0);
        assert(tape.contains(raw[k]));
    }
}

/// Every task is of a window on its workspace, and every such window has a task: with the
/// window's own number, application, focus and urgency.
pub proof fn law_tasks_are_the_windows_of_their_workspace(
    windows: Seq<WindowState>,
    workspace_id: u64,
    icons: ApplicationIconCache,
)
    requires
        windows.len() <= usize::MAX,
    ensures
        ({
            let tasks = workspace_tasks(windows, workspace_id, icons);
            &&& forall|k: int|
                0 <= k < tasks.len() ==> exists|i: int|
                    0 <= i < windows.len() && (#[trigger] windows[i]).workspace_id == Some(
                        workspace_id,
                    ) && (#[trigger] tasks[k]).id == windows[i].id && tasks[k].is_focused
                        == windows[i].is_focused && tasks[k].is_urgent == windows[i].is_urgent
                        && tasks[k].app_id == option_view(windows[i].app_id)
            &&& forall|i: int|
                0 <= i < windows.len() && (#[trigger] windows[i]).workspace_id == Some(workspace_id)
                    ==> exists|k: int|
                    0 <= k < tasks.len() && #[trigger] tasks[k] == task_of(windows[i], icons)
        }),
{
    lemma_sorted_tape(windows, workspace_id);
    let tasks = workspace_tasks(windows, workspace_id, icons);
    let tape = sorted(tape_of(windows, workspace_id, windows.len() as int));
    assert forall|k: int| 0 <= k < tasks.len() implies exists|i: int|
        0 <= i < windows.len() && (#[trigger] windows[i]).workspace_id == Some(workspace_id) && (
        #[trigger] tasks[k]).id == windows[i].id && tasks[k].is_focused == windows[i].is_focused
            && tasks[k].is_urgent == windows[i].is_urgent && tasks[k].app_id == option_view(
            windows[i].app_id,
        ) by {
        let i = tape[k].place as int;
        assert(tasks[k] == task_of(windows[i], icons));
        assert(windows[i].workspace_id == Some(workspace_id));
    }
    assert forall|i: int|
        0 <= i < windows.len() && (#[trigger] windows[i]).workspace_id == Some(
            workspace_id,
        ) implies exists|k: int|
        0 <= k < tasks.len() && #[trigger] tasks[k] == task_of(windows[i], icons) by {
        let k = choose|k: int| 0 <= k < tape.len() && (#[trigger] tape[k]).place == i;
        assert(tasks[k] == task_of(windows[i], icons));
    }
}

/// Tasks stand in the order of the columns of their windows, and within a column from top to
/// bottom; floating windows come last.
pub proof fn law_tasks_stand_as_their_windows(
    windows: Seq<WindowState>,
    workspace_id: u64,
    icons: ApplicationIconCache,
    left: int,
    right: int,
)
    requires
        windows.len() <= usize::MAX,
        0 <= left < right < workspace_tasks(windows, workspace_id, icons).len(),
    ensures
        exists|i: int, j: int|
            {
                &&& 0 <= i < windows.len()
                &&& 0 <= j < windows.len()
                &&& workspace_tasks(windows, workspace_id, icons)[left] == #[trigger] task_of(
                    windows[i],
                    icons,
                )
                &&& workspace_tasks(windows, workspace_id, icons)[right] == #[trigger] task_of(
                    windows[j],
                    icons,
                )
                &&& windows[i].position is None ==> windows[j].position is None
                &&& windows[i].position matches Some((column, tile)) ==> (
                windows[j].position matches Some((later, lower)) ==> column < later || (column
                    == later && tile <= lower))
            },
{
    lemma_sorted_tape(windows, workspace_id);
    let tape = sorted(tape_of(windows, workspace_id, windows.len() as int));
    let i = tape[left].place as int;
    let j = tape[right].place as int;
    assert(!crate::order::Ranked::before(tape[right], tape[left]));
    assert(workspace_tasks(windows, workspace_id, icons)[left] == task_of(windows[i], icons));
    assert(workspace_tasks(windows, workspace_id, icons)[right] == task_of(windows[j], icons));
}

proof fn lemma_active(workspaces: Seq<WorkspaceState>, count: int)
    requires
        0 <= count <= workspaces.len(),
        workspaces.len() <= usize::MAX,
    ensures
        forall|k: int|
            #![trigger active_places(workspaces, count)[k]]
            0 <= k < active_places(workspaces, count).len() ==> active_places(
                workspaces,
                count,
            )[k].place < count && workspaces[active_places(
                workspaces,
                count,
            )[k].place as int].is_active,
        forall|i: int|
            0 <= i < count && (#[trigger] workspaces[i]).is_active ==> exists|k: int|
                0 <= k < active_places(workspaces, count).len() && (#[trigger] active_places(
                    workspaces,
                    count,
                )[k]).place == i,
    decreases count,
{
    if count > 0 {
        lemma_active(workspaces, count - 1);
        let before = active_places(workspaces, count - 1);
        let all = active_places(workspaces, count);
        assert forall|k: int| 0 <= k < all.len() implies (#[trigger] all[k]).place < count
            && workspaces[all[k].place as int].is_active by {
            if k < before.len() {
                assert(all[k] == before[k]);
            }
        }
        assert forall|i: int|
            0 <= i < count && (#[trigger] workspaces[i]).is_active implies exists|k: int|
            0 <= k < all.len() && (#[trigger] all[k]).place == i by {
            if i < count - 1 {
                let k = choose|k: int| 0 <= k < before.len() && (#[trigger] before[k]).place == i;
                assert(all[k] == before[k]);
            } else {
                assert(all[all.len() - 1].place == i);
            }
        }
    }
}

/// There is a list of tasks for each active workspace and for no other one, with the
/// workspace's own output, focus and windows.
pub proof fn law_lists_are_of_active_workspaces(
    workspaces: Seq<WorkspaceState>,
    windows: Seq<WindowState>,
    icons: ApplicationIconCache,
)
    requires
        workspaces.len() <= usize::MAX,
    ensures
        ({
            let lists = lists_of(workspaces, windows, icons);
            &&& forall|k: int|
                0 <= k < lists.len() ==> exists|i: int|
                    0 <= i < workspaces.len() && (#[trigger] workspaces[i]).is_active && (
                    #[trigger] lists[k]).output == option_view(workspaces[i].output)
                        && lists[k].is_focused == workspaces[i].is_focused && lists[k].tasks
                        == workspace_tasks(windows, workspaces[i].id, icons)
            &&& forall|i: int|
                0 <= i < workspaces.len() && (#[trigger] workspaces[i]).is_active ==> exists|
                    k: int,
                |
                    0 <= k < lists.len() && #[trigger] lists[k] == list_of(
                        workspaces[i],
                        windows,
                        icons,
                    )
        }),
{
    broadcast use vstd::seq_lib::group_to_multiset_ensures;

    let raw = active_places(workspaces, workspaces.len() as int);
    let order = sorted(raw);
    let lists = lists_of(workspaces, windows, icons);
    lemma_active(workspaces, workspaces.len() as int);
    lemma_sorted_contents(raw);
    assert forall|k: int| 0 <= k < lists.len() implies exists|i: int|
        0 <= i < workspaces.len() && (#[trigger] workspaces[i]).is_active && (
        #[trigger] lists[k]).output == option_view(workspaces[i].output) && lists[k].is_focused
            == workspaces[i].is_focused && lists[k].tasks == workspace_tasks(
            windows,
            workspaces[i].id,
            icons,
        ) by {
        assert(order.contains(order[k]));
        assert(order.to_multiset().count(order[k]) > 0);
        assert(raw.to_multiset().count(order[k]) > 0);
        assert(raw.contains(order[k]));
        let i = order[k].place as int;
        assert(workspaces[i].is_active);
        assert(lists[k] == list_of(workspaces[i], windows, icons));
    }
    assert forall|i: int|
        0 <= i < workspaces.len() && (#[trigger] workspaces[i]).is_active implies exists|k: int|
        0 <= k < lists.len() && #[trigger] lists[k] == list_of(workspaces[i], windows, icons) by {
        let k = choose|k: int| 0 <= k < raw.len() && (#[trigger] raw[k]).place == i;
        assert(raw.contains(raw[k]));
        assert(raw.to_multiset().count(raw[k]) > 0);
        assert(order.to_multiset().count(raw[k]) > 0);
        assert(order.contains(raw[k]));
        let m = choose|m: int| 0 <= m < order.len() && order[m] == raw[k];
        assert(lists[m] == list_of(workspaces[i], windows, icons));
    }
}

proof fn lemma_list_on_output(lists: Seq<ListView>, output: Seq<char>, start: int)
    requires
        0 <= start,
    ensures
        match list_on_output(lists, output, start) {
            Some(place) => start <= place < lists.len() && lists[place].output == Some(output),
            None => forall|i: int|
                start <= i < lists.len() ==> (#[trigger] lists[i]).output != Some(output),
        },
    decreases lists.len() - start,
{
    if start < lists.len() && lists[start].output != Some(output) {
        lemma_list_on_output(lists, output, start + 1);
    }
}

proof fn lemma_focused_list(lists: Seq<ListView>, start: int)
    requires
        0 <= start,
    ensures
        match focused_list(lists, start) {
            Some(place) => start <= place < lists.len() && lists[place].is_focused,
            None => forall|i: int| start <= i < lists.len() ==> !(#[trigger] lists[i]).is_focused,
        },
    decreases lists.len() - start,
{
    if start < lists.len() && !lists[start].is_focused {
        lemma_focused_list(lists, start + 1);
    }
}

/// An output shows the tasks of its own list. Without one, it shows those of the first or
/// the second list, as its group is, and those of the focused list where there is no
/// such list.
pub proof fn law_outputs_show_their_own_tasks(
    lists: Seq<ListView>,
    output: Seq<char>,
    output_group: u8,
    place: int,
)
    requires
        0 <= place < lists.len(),
    ensures
        lists[place].output == Some(output) && (forall|i: int|
            0 <= i < lists.len() && (#[trigger] lists[i]).output == Some(output) ==> i == place)
            ==> tasks_of_output(lists, Some(output), output_group) == lists[place].tasks,
        (forall|i: int| 0 <= i < lists.len() ==> (#[trigger] lists[i]).output != Some(output))
            ==> tasks_of_output(lists, Some(output), output_group) == tasks_of_output(
            lists,
            None,
            output_group,
        ),
        tasks_of_output(lists, None, 0) == lists[0].tasks,
        output_group != 0 && lists.len() >= 2 ==> tasks_of_output(lists, None, output_group)
            == lists[1].tasks,
        output_group != 0 && lists.len() == 1 && lists[0].is_focused ==> tasks_of_output(
            lists,
            None,
            output_group,
        ) == lists[0].tasks,
        output_group != 0 && lists.len() == 1 && !lists[0].is_focused ==> tasks_of_output(
            lists,
            None,
            output_group,
        ).len() == 0,
{
    lemma_list_on_output(lists, output, 0);
    lemma_focused_list(lists, 0);
    reveal_with_fuel(focused_list, 2);
    if lists[place].output == Some(output) {
        assert(list_on_output(lists, output, 0) is Some);
    }
}

/// A task is labelled with the title of its window, without one with its application's id,
/// without either with a word for it; blanks around it do not count.
pub proof fn law_tasks_are_labelled(title: Option<Seq<char>>, app_id: Option<Seq<char>>)
    ensures
        title matches Some(title) ==> trimmed(title).len() > 0 ==> label_text(Some(title), app_id)
            == trimmed(title),
        (title is None || trimmed(title->0).len() == 0) ==> (app_id matches Some(app_id)
            ==> trimmed(app_id).len() > 0 ==> label_text(title, Some(app_id)) == trimmed(app_id)),
        (title is None || trimmed(title->0).len() == 0) && (app_id is None || trimmed(
            app_id->0,
        ).len() == 0) ==> label_text(title, app_id) == "Untitled"@,
{
}

/// A text that is short enough stays, and a longer one is cut with a mark at its end.
pub proof fn law_long_labels_are_cut(text: Seq<char>, limit: int)
    requires
        0 <= limit,
    ensures
        text.len() <= limit ==> shortened(text, limit) == text,
        text.len() > limit ==> {
            &&& shortened(text, limit).len() == limit + 1
            &&& shortened(text, limit).last() == '…'
            &&& forall|i: int| 0 <= i < limit ==> #[trigger] shortened(text, limit)[i] == text[i]
        },
{
}

/// A task has the number, application, focus and urgency of its window, a label of at most
/// 257 characters, and the icon of its application, or one of its own without an
/// application.
pub proof fn law_tasks_tell_their_window(window: WindowState, icons: ApplicationIconCache)
    ensures
        ({
            let task = task_of(window, icons);
            let text = label_text(option_view(window.title), option_view(window.app_id));
            &&& task.id == window.id
            &&& task.app_id == option_view(window.app_id)
            &&& task.is_focused == window.is_focused
            &&& task.is_urgent == window.is_urgent
            &&& task.label.len() <= 257
            &&& text.len() <= 256 ==> task.label == text
            &&& text.len() > 256 ==> task.label == text.take(256).push('…')
            &&& window.app_id matches Some(app_id) ==> app_id@.len() > 0 ==> task.icon
                == icons.icon(app_id@)
            &&& window.app_id is None ==> task.icon == icons.icon(
                "@window:"@ + crate::text::decimal(window.id as nat),
            )
        }),
{
}

/// An application with an id has one icon for all its windows; windows without one have
/// icons of their own.
pub proof fn law_windows_of_an_application_share_its_icon(
    app_id: Seq<char>,
    first: u64,
    second: u64,
)
    requires
        app_id.len() > 0,
    ensures
        icon_key_of(Some(app_id), first) == app_id,
        icon_key_of(Some(app_id), first) == icon_key_of(Some(app_id), second),
        icon_key_of(None, first) == icon_key_of(Some(Seq::empty()), first),
        icon_key_of(None, first) == "@window:"@ + crate::text::decimal(first as nat),
{
}

/// A stored icon is shown; another one for the same key does not replace it.
pub proof fn law_stored_icons_are_kept(
    entries: Seq<(Seq<char>, IconView)>,
    key: Seq<char>,
    icon: IconView,
    other: IconView,
)
    ensures
        with_icon(entries, key, icon).contains((key, icon)) || exists|i: int|
            0 <= i < entries.len() && (#[trigger] entries[i]).0 == key,
        with_icon(with_icon(entries, key, icon), key, other) == with_icon(entries, key, icon),
        entries.len() == 0 ==> with_icon(entries, key, icon) == seq![(key, icon)],
{
    let more = entries.push((key, icon));
    assert(more[entries.len() as int] == (key, icon));
    if entries.len() == 0 {
        assert(more =~= seq![(key, icon)]);
    }
}

proof fn lemma_wanted(
    entries: Seq<IconEntry>,
    windows: Seq<WindowState>,
    workspaces: Seq<WorkspaceState>,
    count: int,
)
    requires
        0 <= count <= windows.len(),
    ensures
        ({
            let wanted = wanted_of(entries, windows, workspaces, count);
            &&& wanted.no_duplicates()
            &&& forall|k: int|
                0 <= k < wanted.len() ==> entry_at(entries, #[trigger] wanted[k], 0) is None
            &&& forall|i: int|
                0 <= i < count && (#[trigger] windows[i]).app_id is Some
                    && windows[i].app_id->0@.len() > 0 && shown(workspaces, windows[i].workspace_id)
                    && entry_at(entries, windows[i].app_id->0@, 0) is None ==> wanted.contains(
                    windows[i].app_id->0@,
                )
        }),
    decreases count,
{
    if count > 0 {
        lemma_wanted(entries, windows, workspaces, count - 1);
        let before = wanted_of(entries, windows, workspaces, count - 1);
        let wanted = wanted_of(entries, windows, workspaces, count);
        if wanted.len() > before.len() {
            assert(wanted =~= before.push(wanted.last()));
        }
        assert forall|i: int|
            0 <= i < count && (#[trigger] windows[i]).app_id is Some && windows[i].app_id->0@.len()
                > 0 && shown(workspaces, windows[i].workspace_id) && entry_at(
                entries,
                windows[i].app_id->0@,
                0,
            ) is None implies wanted.contains(windows[i].app_id->0@) by {
            let key = windows[i].app_id->0@;
            if before.contains(key) {
                let k = choose|k: int| 0 <= k < before.len() && before[k] == key;
                assert(wanted[k] == key);
            } else {
                assert(wanted[wanted.len() - 1] == key);
            }
        }
    }
}

/// An icon is looked for exactly once for each application with a window on an active
/// workspace that has none yet.
pub proof fn law_missing_icons_are_looked_for(
    entries: Seq<IconEntry>,
    windows: Seq<WindowState>,
    workspaces: Seq<WorkspaceState>,
    i: int,
    j: int,
)
    requires
        0 <= i < windows.len(),
        0 <= j < workspaces.len(),
        windows[i].app_id is Some,
        windows[i].app_id->0@.len() > 0,
        windows[i].workspace_id == Some(workspaces[j].id),
        workspaces[j].is_active,
        entry_at(entries, windows[i].app_id->0@, 0) is None,
    ensures
        ({
            let wanted = wanted_of(entries, windows, workspaces, windows.len() as int);
            &&& wanted.contains(windows[i].app_id->0@)
            &&& wanted.no_duplicates()
            &&& forall|k: int|
                0 <= k < wanted.len() ==> entry_at(entries, #[trigger] wanted[k], 0) is None
        }),
{
    lemma_wanted(entries, windows, workspaces, windows.len() as int);
    assert(workspaces[j].is_active);
}

proof fn lemma_first_word_chars(text: Seq<char>, limit: int)
    requires
        0 <= limit,
    ensures
        first_word_chars(text, limit).len() <= limit,
        first_word_chars(text, limit).len() <= text.len(),
        forall|i: int|
            0 <= i < first_word_chars(text, limit).len() ==> alphanumeric(
                #[trigger] first_word_chars(text, limit)[i],
            ),
        text.len() <= limit && (forall|i: int| 0 <= i < text.len() ==> alphanumeric(#[trigger] text[i]))
            ==> first_word_chars(text, limit) == text,
    decreases text.len(),
{
    if text.len() > 0 && limit > 0 {
        let rest = text.drop_first();
        if alphanumeric(text[0]) {
            lemma_first_word_chars(rest, limit - 1);
            if text.len() <= limit && (forall|i: int|
                0 <= i < text.len() ==> alphanumeric(#[trigger] text[i])) {
                assert forall|i: int| 0 <= i < rest.len() implies alphanumeric(
                    #[trigger] rest[i],
                ) by {
                    assert(rest[i] == text[i + 1]);
                }
                assert(seq![text[0]] + rest =~= text);
            }
        } else {
            lemma_first_word_chars(rest, limit);
            assert(!alphanumeric(text[0]));
        }
    } else if text.len() == 0 {
        assert(first_word_chars(text, limit) =~= text);
    }
}

/// The name of a layout is shown as at most four letters or digits, in lower case.
pub proof fn law_layouts_are_short(name: Seq<char>)
    ensures
        exists|short: Seq<char>|
            {
                &&& short_layout(name) == #[trigger] lowercase(short)
                &&& short.len() <= 4
                &&& forall|i: int| 0 <= i < short.len() ==> alphanumeric(#[trigger] short[i])
            },
        ({
            let label = layout_label(trimmed(name));
            label.len() <= 4 && (forall|i: int|
                0 <= i < label.len() ==> alphanumeric(#[trigger] label[i])) ==> short_layout(name)
                == lowercase(label)
        }),
{
    let label = layout_label(trimmed(name));
    lemma_first_word_chars(label, 4);
    assert(short_layout(name) == lowercase(first_word_chars(label, 4)));
}

/// American English and Russian have labels of their own. Another layout is shown by what
/// stands in brackets at the end of its name, if that is short, or else by its name.
pub proof fn law_layouts_are_named_in_brackets(language: Seq<char>, variant: Seq<char>)
    requires
        !variant.contains('('),
        trimmed(variant).len() > 0,
        byte_length(trimmed(variant)) <= 4,
        language + seq!['('] + variant + seq![')'] != "English (US)"@,
        language + seq!['('] + variant + seq![')'] != "Russian"@,
    ensures
        layout_label(language + seq!['('] + variant + seq![')']) == trimmed(variant),
        layout_label("English (US)"@) == "US"@,
        layout_label("Russian"@) == "RU"@,
{
    let name = language + seq!['('] + variant + seq![')'];
    reveal_strlit(")");
    reveal_strlit("English (US)");
    reveal_strlit("Russian");
    assert(")"@ =~= seq![')']);
    assert("English (US)"@.len() == 12 && "Russian"@.len() == 7);
    let start = language.len() + 1;
    lemma_after_last(name, '(', start - 1);
    assert(name[start - 1] == '(');
    let inner = name.skip(start as int);
    assert(inner =~= variant + seq![')']);
    assert(inner.skip(inner.len() - 1) =~= seq![')']);
    assert(crate::text::ends(inner, ")"@));
    assert(inner.take(inner.len() - 1) =~= variant);
    assert(bracketed(name) == Some(trimmed(variant)));
}

proof fn lemma_after_last(text: Seq<char>, wanted: char, place: int)
    requires
        0 <= place < text.len(),
        text[place] == wanted,
        forall|i: int| place < i < text.len() ==> #[trigger] text[i] != wanted,
    ensures
        crate::text::after_last(text, wanted) == place + 1,
    decreases text.len(),
{
    if place < text.len() - 1 {
        assert(text[text.len() - 1] != wanted);
        lemma_after_last(text.drop_last(), wanted, place);
    }
}

/// The layout in use is the one that the compositor counts, and none without layouts.
pub proof fn law_current_layout_is_shown(layouts: KeyboardLayouts)
    ensures
        layouts.current_idx < layouts.names@.len() ==> current_layout(Some(layouts))
            == short_layout(layouts.names@[layouts.current_idx as int]@),
        layouts.current_idx >= layouts.names@.len() ==> current_layout(Some(layouts)).len() == 0,
        current_layout(None).len() == 0,
{
}

/// Every event of workspaces, windows and layouts concerns the bars, but for the time at
/// which a window had the focus.
pub proof fn law_events_of_bars(event: EventKind)
    ensures
        concerns_bars(EventKind::WorkspacesChanged),
        concerns_bars(EventKind::WorkspaceUrgencyChanged),
        concerns_bars(EventKind::WorkspaceActivated),
        concerns_bars(EventKind::WorkspaceActiveWindowChanged),
        concerns_bars(EventKind::WindowsChanged),
        concerns_bars(EventKind::WindowOpenedOrChanged),
        concerns_bars(EventKind::WindowClosed),
        concerns_bars(EventKind::WindowFocusChanged),
        concerns_bars(EventKind::WindowUrgencyChanged),
        concerns_bars(EventKind::WindowLayoutsChanged),
        concerns_bars(EventKind::KeyboardLayoutsChanged),
        concerns_bars(EventKind::KeyboardLayoutSwitched),
        !concerns_bars(EventKind::WindowFocusTimestampChanged),
        !concerns_bars(EventKind::Other),
{
}

/// Two tasks look the same if and only if they are of the same window, with the same label,
/// application, state and icon.
pub proof fn law_tasks_that_look_the_same(left: TaskView, right: TaskView)
    ensures
        tasks_alike(left, left),
        left.id != right.id ==> !tasks_alike(left, right),
        left.label != right.label ==> !tasks_alike(left, right),
        left.app_id != right.app_id ==> !tasks_alike(left, right),
        left.is_focused != right.is_focused ==> !tasks_alike(left, right),
        left.is_urgent != right.is_urgent ==> !tasks_alike(left, right),
        left.icon.revision != right.icon.revision ==> !tasks_alike(left, right),
        left.icon.width != right.icon.width ==> !tasks_alike(left, right),
        left.icon.height != right.icon.height ==> !tasks_alike(left, right),
        left.id == right.id && left.label == right.label && left.app_id == right.app_id
            && left.is_focused == right.is_focused && left.is_urgent == right.is_urgent
            && left.icon == right.icon ==> tasks_alike(left, right),
        icons_alike(left.icon, right.icon) == icons_alike(right.icon, left.icon),
{
}

/// Two lists of tasks look the same only if they are equally long and each task looks the
/// same.
pub proof fn law_lists_that_look_the_same(left: Seq<TaskView>, right: Seq<TaskView>, place: int)
    ensures
        lists_alike(left, left),
        left.len() != right.len() ==> !lists_alike(left, right),
        0 <= place < left.len() && left.len() == right.len() && !tasks_alike(
            left[place],
            right[place],
        ) ==> !lists_alike(left, right),
{
}

/// Two lists of workspaces look the same only if each workspace has the same number, place,
/// output and state.
pub proof fn law_workspaces_that_look_the_same(
    left: Seq<WorkspaceInfo>,
    right: Seq<WorkspaceInfo>,
    place: int,
)
    requires
        0 <= place < left.len(),
    ensures
        infos_alike(left, left),
        left.len() != right.len() ==> !infos_alike(left, right),
        infos_alike(left, right) ==> {
            &&& left[place].id == right[place].id
            &&& left[place].index == right[place].index
            &&& option_view(left[place].output) == option_view(right[place].output)
            &&& left[place].is_active == right[place].is_active
            &&& left[place].is_focused == right[place].is_focused
            &&& left[place].is_occupied == right[place].is_occupied
            &&& left[place].is_urgent == right[place].is_urgent
        },
{
}

/// Two models look the same only if their workspaces, tasks and layouts do.
pub proof fn law_models_that_look_the_same(left: NiriModel, right: NiriModel, place: int)
    requires
        0 <= place < left.task_lists@.len(),
        models_alike(left, right),
    ensures
        infos_alike(left.workspaces.workspaces@, right.workspaces.workspaces@),
        left.task_lists@.len() == right.task_lists@.len(),
        lists_alike(left.task_lists@[place]@.tasks, right.task_lists@[place]@.tasks),
        left.task_lists@[place]@.output == right.task_lists@[place]@.output,
        left.task_lists@[place].is_focused == right.task_lists@[place].is_focused,
        left.keyboard_layout@ == right.keyboard_layout@,
{
}

/// An icon is kept while a window of its application is open, and one of a window without an
/// application while that window is.
pub proof fn law_icons_of_open_windows_are_kept(windows: Seq<WindowState>, i: int)
    requires
        0 <= i < windows.len(),
    ensures
        windows[i].app_id matches Some(app_id) ==> app_id@.len() > 0 && key_window(app_id@) is None
            ==> open_key(app_id@, window_ids_of(windows), app_ids_of(windows)),
        windows[i].app_id is None ==> open_key(
            icon_key_of(None, windows[i].id),
            window_ids_of(windows),
            app_ids_of(windows),
        ),
{
    lemma_app_ids(windows, i);
    let id = windows[i].id;
    let text = crate::text::decimal(id as nat);
    crate::text::laws::law_written_numbers_are_read_back(id as nat);
    crate::text::laws::law_prefixes_and_suffixes_are_taken_off("@window:"@, text);
    assert(window_ids_of(windows)[i] == id);
    assert(key_window("@window:"@ + text) == Some(id as int));
}

proof fn lemma_app_ids(windows: Seq<WindowState>, i: int)
    requires
        0 <= i < windows.len(),
    ensures
        windows[i].app_id matches Some(app_id) ==> app_id@.len() > 0 ==> app_ids_of(
            windows,
        ).contains(app_id@),
    decreases windows.len(),
{
    let fewer = windows.drop_last();
    let before = app_ids_of(fewer);
    let all = app_ids_of(windows);
    if i < windows.len() - 1 {
        lemma_app_ids(fewer, i);
        assert(fewer[i] == windows[i]);
        if windows[i].app_id is Some && windows[i].app_id->0@.len() > 0 {
            let k = choose|k: int| 0 <= k < before.len() && before[k] == windows[i].app_id->0@;
            assert(all[k] == before[k]);
        }
    } else if windows[i].app_id is Some && windows[i].app_id->0@.len() > 0 {
        assert(all[all.len() - 1] == windows[i].app_id->0@);
    }
}

} // verus!
