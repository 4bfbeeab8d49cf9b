//! Workspaces, windows and keyboard layout, as each output's bar shows them.

pub mod laws;

use vstd::prelude::*;
use vstd::slice::slice_subrange;
use vstd::utf8::encode_utf8;

use crate::icons::{fallback_icon, fallback_pixels, image_revision, revision_of};
use crate::order::{
    lemma_option_order, lemma_sorted_contents, lemma_sorted_in_order, option_before,
    option_comes_before, sort, sorted, in_order, is_weak_order, Ranked,
};
use crate::render::pixels::Bitmap;
use crate::text::{
    after_last, after_prefix, alphanumeric, before_suffix, byte_length, chars_of, contains_text,
    copy_option, decimal, find_after_last, fits_bytes, is_alphanumeric, lemma_string_views_push,
    lowercase, option_view, parse_unsigned, push_decimal, same_option, same_text, string_of,
    string_views, strip_prefix, strip_suffix, to_lowercase, trim, trimmed, unsigned_of,
};

verus! {

pub const WORKSPACE_LABELS: [&'static str; 10] = [
    "一",
    "二",
    "三",
    "四",
    "五",
    "六",
    "七",
    "八",
    "九",
    "零",
];

pub const WORKSPACES_PER_OUTPUT: usize = 5;

/// What the compositor tells about a window.
#[derive(Debug)]
pub struct WindowState {
    pub id: u64,
    pub title: Option<String>,
    pub app_id: Option<String>,
    pub workspace_id: Option<u64>,
    pub is_focused: bool,
    pub is_urgent: bool,
    /// Column and tile, for a window in the scrolling layout.
    pub position: Option<(usize, usize)>,
}

/// What the compositor tells about a workspace.
#[derive(Debug)]
pub struct WorkspaceState {
    pub id: u64,
    pub idx: u8,
    pub output: Option<String>,
    pub is_active: bool,
    pub is_focused: bool,
    pub is_urgent: bool,
}

/// The keyboard layouts and the place of the current one among them.
#[derive(Debug)]
pub struct KeyboardLayouts {
    pub names: Vec<String>,
    pub current_idx: u8,
}

/// What the compositor tells about everything that the bar shows. The ids of
/// the windows are distinct, and so are those of the workspaces.
#[derive(Debug)]
pub struct NiriState {
    pub windows: Vec<WindowState>,
    pub workspaces: Vec<WorkspaceState>,
    pub keyboard_layouts: Option<KeyboardLayouts>,
}

/// The kinds of events that the compositor reports.
#[derive(Clone, Copy, Debug, PartialEq, Eq, Structural)]
pub enum EventKind {
    WorkspacesChanged,
    WorkspaceUrgencyChanged,
    WorkspaceActivated,
    WorkspaceActiveWindowChanged,
    WindowsChanged,
    WindowOpenedOrChanged,
    WindowClosed,
    WindowFocusChanged,
    WindowFocusTimestampChanged,
    WindowUrgencyChanged,
    WindowLayoutsChanged,
    KeyboardLayoutsChanged,
    KeyboardLayoutSwitched,
    Other,
}

/// Whether an event is of something that a bar shows.
pub open spec fn concerns_bars(event: EventKind) -> bool {
    !(event is WindowFocusTimestampChanged || event is Other)
}

/// Whether an event can change what the bar shows.
pub fn affects_workspace_view(event: EventKind) -> (result: bool)
    ensures
        result == concerns_bars(event),
{
    match event {
        EventKind::WindowFocusTimestampChanged | EventKind::Other => false,
        _ => true,
    }
}

#[derive(Debug)]
pub struct WorkspaceInfo {
    pub id: u64,
    pub index: u8,
    pub output: Option<String>,
    pub is_active: bool,
    pub is_focused: bool,
    pub is_occupied: bool,
    pub is_urgent: bool,
}

#[derive(Debug)]
pub struct WorkspaceModel {
    /// Ordered by output and index.
    pub workspaces: Vec<WorkspaceInfo>,
}

#[derive(Clone, Copy, Debug, PartialEq, Eq, Structural)]
pub struct WorkspaceSlot {
    pub id: Option<u64>,
    pub index: u8,
    pub is_active: bool,
    pub is_focused: bool,
    pub is_occupied: bool,
    pub is_urgent: bool,
}

impl Default for WorkspaceSlot {
    fn default() -> (result: Self)
        ensures
            result == empty_slot(0),
    {
        WorkspaceSlot {
            id: None,
            index: 0,
            is_active: false,
            is_focused: false,
            is_occupied: false,
            is_urgent: false,
        }
    }
}

/// The slot of a workspace that does not exist.
pub open spec fn empty_slot(index: u8) -> WorkspaceSlot {
    WorkspaceSlot {
        id: None,
        index,
        is_active: false,
        is_focused: false,
        is_occupied: false,
        is_urgent: false,
    }
}

#[derive(Debug)]
pub struct ApplicationIcon {
    pub revision: u64,
    /// Premultiplied RGBA pixels.
    pub pixels: Vec<u8>,
    pub width: u32,
    pub height: u32,
}

/// The view of an icon.
pub ghost struct IconView {
    pub revision: u64,
    pub pixels: Seq<u8>,
    pub width: u32,
    pub height: u32,
}

impl View for ApplicationIcon {
    type V = IconView;

    open spec fn view(&self) -> IconView {
        IconView {
            revision: self.revision,
            pixels: self.pixels@,
            width: self.width,
            height: self.height,
        }
    }
}

impl Clone for ApplicationIcon {
    fn clone(&self) -> (result: Self)
        ensures
            result@ == self@,
    {
        let pixels = self.pixels.clone();
        ApplicationIcon { revision: self.revision, pixels, width: self.width, height: self.height }
    }
}

#[derive(Debug)]
pub struct WindowTask {
    pub id: u64,
    pub label: String,
    pub app_id: Option<String>,
    pub is_focused: bool,
    pub is_urgent: bool,
    pub icon: ApplicationIcon,
}

/// The view of a task.
pub ghost struct TaskView {
    pub id: u64,
    pub label: Seq<char>,
    pub app_id: Option<Seq<char>>,
    pub is_focused: bool,
    pub is_urgent: bool,
    pub icon: IconView,
}

impl View for WindowTask {
    type V = TaskView;

    open spec fn view(&self) -> TaskView {
        TaskView {
            id: self.id,
            label: self.label@,
            app_id: option_view(self.app_id),
            is_focused: self.is_focused,
            is_urgent: self.is_urgent,
            icon: self.icon@,
        }
    }
}

impl Clone for WindowTask {
    fn clone(&self) -> (result: Self)
        ensures
            result@ == self@,
    {
        WindowTask {
            id: self.id,
            label: self.label.clone(),
            app_id: copy_option(&self.app_id),
            is_focused: self.is_focused,
            is_urgent: self.is_urgent,
            icon: self.icon.clone(),
        }
    }
}

/// The views of some tasks.
pub open spec fn task_views(tasks: Seq<WindowTask>) -> Seq<TaskView> {
    Seq::new(tasks.len(), |i: int| tasks[i]@)
}

/// Whether two icons count as the same: the revision stands for the pixels.
pub open spec fn icons_alike(left: IconView, right: IconView) -> bool {
    left.revision == right.revision && left.width == right.width && left.height == right.height
}

/// Whether two tasks look the same.
pub open spec fn tasks_alike(left: TaskView, right: TaskView) -> bool {
    &&& left.id == right.id
    &&& left.label == right.label
    &&& left.app_id == right.app_id
    &&& left.is_focused == right.is_focused
    &&& left.is_urgent == right.is_urgent
    &&& icons_alike(left.icon, right.icon)
}

/// Whether two lists of tasks look the same.
pub open spec fn lists_alike(left: Seq<TaskView>, right: Seq<TaskView>) -> bool {
    left.len() == right.len() && forall|i: int|
        0 <= i < left.len() ==> tasks_alike(#[trigger] left[i], right[i])
}

fn same_tasks(left: &Vec<WindowTask>, right: &Vec<WindowTask>) -> (result: bool)
    ensures
        result == lists_alike(task_views(left@), task_views(right@)),
{
    if left.len() != right.len() {
        return false;
    }
    let mut i: usize = 0;
    while i < left.len()
        invariant
            i <= left@.len(),
            left@.len() == right@.len(),
            forall|k: int|
                0 <= k < i ==> tasks_alike(#[trigger] task_views(left@)[k], task_views(right@)[k]),
        decreases left@.len() - i,
    {
        let a = &left[i];
        let b = &right[i];
        let alike = a.id == b.id && same_text(a.label.as_str(), b.label.as_str()) && same_option(
            &a.app_id,
            &b.app_id,
        ) && a.is_focused == b.is_focused && a.is_urgent == b.is_urgent && a.icon.revision
            == b.icon.revision && a.icon.width == b.icon.width && a.icon.height == b.icon.height;
        assert(alike == tasks_alike(task_views(left@)[i as int], task_views(right@)[i as int]));
        if !alike {
            return false;
        }
        i += 1;
    }
    true
}

fn copy_tasks(tasks: &Vec<WindowTask>) -> (result: Vec<WindowTask>)
    ensures
        task_views(result@) == task_views(tasks@),
{
    let mut result: Vec<WindowTask> = Vec::new();
    let mut i: usize = 0;
    while i < tasks.len()
        invariant
            i <= tasks@.len(),
            result@.len() == i,
            forall|k: int| 0 <= k < i ==> (#[trigger] result@[k])@ == tasks@[k]@,
        decreases tasks@.len() - i,
    {
        result.push(tasks[i].clone());
        i += 1;
    }
    assert(task_views(result@) =~= task_views(tasks@));
    result
}

/// The windows of the active workspace of one output.
#[derive(Debug)]
pub struct TaskList {
    pub output: Option<String>,
    pub is_focused: bool,
    pub tasks: Vec<WindowTask>,
}

/// The view of a task list.
pub ghost struct ListView {
    pub output: Option<Seq<char>>,
    pub is_focused: bool,
    pub tasks: Seq<TaskView>,
}

impl View for TaskList {
    type V = ListView;

    open spec fn view(&self) -> ListView {
        ListView {
            output: option_view(self.output),
            is_focused: self.is_focused,
            tasks: task_views(self.tasks@),
        }
    }
}

/// The views of some task lists.
pub open spec fn list_views(lists: Seq<TaskList>) -> Seq<ListView> {
    Seq::new(lists.len(), |i: int| lists[i]@)
}

/// Everything that the bars show of the compositor.
#[derive(Debug)]
pub struct NiriModel {
    pub workspaces: WorkspaceModel,
    pub task_lists: Vec<TaskList>,
    pub keyboard_layout: String,
}

/// What the bar of one output shows of the compositor.
#[derive(Debug)]
pub struct SurfaceContent {
    pub workspaces: [WorkspaceSlot; WORKSPACES_PER_OUTPUT],
    pub tasks: Vec<WindowTask>,
    pub keyboard_layout: String,
}

/// What the compositor's thread reports.
#[derive(Debug)]
pub enum NiriEvent {
    State(NiriModel),
    WindowClosed(u64),
}

/// The first workspace on an output with an index, from `start` on.
pub open spec fn on_output(
    workspaces: Seq<WorkspaceInfo>,
    output: Seq<char>,
    index: u8,
    start: int,
) -> Option<int>
    decreases workspaces.len() - start,
{
    if start < 0 || start >= workspaces.len() {
        None
    } else if option_view(workspaces[start].output) == Some(output) && workspaces[start].index
        == index {
        Some(start)
    } else {
        on_output(workspaces, output, index, start + 1)
    }
}

/// The places of the workspaces with an index.
pub open spec fn with_index(workspaces: Seq<WorkspaceInfo>, index: u8) -> Seq<int>
    decreases workspaces.len(),
{
    if workspaces.len() == 0 {
        Seq::empty()
    } else if workspaces.last().index == index {
        with_index(workspaces.drop_last(), index).push(workspaces.len() - 1)
    } else {
        with_index(workspaces.drop_last(), index)
    }
}

/// The second group of outputs counts as one.
pub open spec fn group_of(output_group: u8) -> int {
    if output_group == 0 {
        0
    } else {
        1
    }
}

/// The place of the workspace that a slot shows: the one on the output, else
/// the one of the output's group, else the only one with that index.
pub open spec fn workspace_place(
    workspaces: Seq<WorkspaceInfo>,
    index: u8,
    output: Option<Seq<char>>,
    output_group: u8,
) -> Option<int> {
    let found = match output {
        Some(output) => on_output(workspaces, output, index, 0),
        None => None,
    };
    let places = with_index(workspaces, index);
    match found {
        Some(place) => Some(place),
        None => if places.len() > group_of(output_group) {
            Some(places[group_of(output_group)])
        } else if places.len() > 0 {
            Some(places[0])
        } else {
            None
        },
    }
}

/// The slot that shows a workspace.
pub open spec fn slot_of(workspace: WorkspaceInfo, index: u8) -> WorkspaceSlot {
    WorkspaceSlot {
        id: Some(workspace.id),
        index,
        is_active: workspace.is_active,
        is_focused: workspace.is_focused,
        is_occupied: workspace.is_occupied,
        is_urgent: workspace.is_urgent,
    }
}

/// What the slot at an offset shows. The second group's labels count on from the first's.
pub open spec fn slot_at(
    workspaces: Seq<WorkspaceInfo>,
    offset: int,
    output: Option<Seq<char>>,
    output_group: u8,
) -> WorkspaceSlot {
    let label = (offset + 1 + 5 * group_of(output_group)) as u8;
    match workspace_place(workspaces, (offset + 1) as u8, output, output_group) {
        Some(place) => slot_of(workspaces[place], label),
        None => empty_slot(label),
    }
}

/// The view of an optional text.
pub open spec fn str_view(text: Option<&str>) -> Option<Seq<char>> {
    match text {
        Some(text) => Some(text@),
        None => None,
    }
}

impl WorkspaceModel {
    fn workspace_for_output(&self, index: u8, output: &str) -> (result: Option<usize>)
        ensures
            match result {
                Some(place) => place < self.workspaces@.len() && on_output(
                    self.workspaces@,
                    output@,
                    index,
                    0,
                ) == Some(place as int),
                None => on_output(self.workspaces@, output@, index, 0) is None,
            },
    {
        let mut i: usize = 0;
        while i < self.workspaces.len()
            invariant
                i <= self.workspaces@.len(),
                on_output(self.workspaces@, output@, index, 0) == on_output(
                    self.workspaces@,
                    output@,
                    index,
                    i as int,
                ),
            decreases self.workspaces@.len() - i,
        {
            if self.workspaces[i].index == index {
                if let Some(name) = &self.workspaces[i].output {
                    if same_text(name.as_str(), output) {
                        return Some(i);
                    }
                }
            }
            i += 1;
        }
        None
    }

    /// The place of the workspace that a slot shows.
    pub fn workspace_for(&self, index: u8, output: Option<&str>, output_group: u8) -> (result:
        Option<usize>)
        ensures
            match result {
                Some(place) => place < self.workspaces@.len() && workspace_place(
                    self.workspaces@,
                    index,
                    str_view(output),
                    output_group,
                ) == Some(place as int),
                None => workspace_place(
                    self.workspaces@,
                    index,
                    str_view(output),
                    output_group,
                ) is None,
            },
    {
        if let Some(output) = output {
            if let Some(place) = self.workspace_for_output(index, output) {
                return Some(place);
            }
        }
        let mut first: Option<usize> = None;
        let mut i: usize = 0;
        assert(self.workspaces@.take(0) =~= Seq::<WorkspaceInfo>::empty());
        while i < self.workspaces.len()
            invariant
                i <= self.workspaces@.len(),
                match first {
                    None => with_index(self.workspaces@.take(i as int), index).len() == 0,
                    Some(place) => {
                        &&& output_group > 0
                        &&& place < i
                        &&& with_index(self.workspaces@.take(i as int), index) =~= seq![place as int]
                    },
                },
                output matches Some(output) ==> on_output(self.workspaces@, output@, index, 0)
                    is None,
            decreases self.workspaces@.len() - i,
        {
            assert(self.workspaces@.take(i + 1).drop_last() =~= self.workspaces@.take(i as int));
            if self.workspaces[i].index == index {
                proof {
                    lemma_with_index_prefix(self.workspaces@, index, i + 1);
                    let found = with_index(self.workspaces@.take(i + 1), index);
                    let all = with_index(self.workspaces@, index);
                    assert(found =~= with_index(self.workspaces@.take(i as int), index).push(
                        i as int,
                    ));
                    assert(all.subrange(0, found.len() as int) =~= found);
                    assert(all.subrange(0, found.len() as int)[found.len() - 1] == all[found.len()
                        - 1]);
                }
                if output_group == 0 {
                    return Some(i);
                }
                if first.is_some() {
                    return Some(i);
                }
                first = Some(i);
            }
            i += 1;
        }
        assert(self.workspaces@.take(i as int) =~= self.workspaces@);
        first
    }
}

proof fn lemma_with_index_prefix(workspaces: Seq<WorkspaceInfo>, index: u8, length: int)
    requires
        0 <= length <= workspaces.len(),
    ensures
        with_index(workspaces.take(length), index).is_prefix_of(with_index(workspaces, index)),
    decreases workspaces.len(),
{
    if length == workspaces.len() {
        assert(workspaces.take(length) =~= workspaces);
    } else {
        lemma_with_index_prefix(workspaces.drop_last(), index, length);
        assert(workspaces.drop_last().take(length) =~= workspaces.take(length));
    }
}

/// The first task list of an output, from `start` on.
pub open spec fn list_on_output(lists: Seq<ListView>, output: Seq<char>, start: int) -> Option<int>
    decreases lists.len() - start,
{
    if start < 0 || start >= lists.len() {
        None
    } else if lists[start].output == Some(output) {
        Some(start)
    } else {
        list_on_output(lists, output, start + 1)
    }
}

/// The first focused task list, from `start` on.
pub open spec fn focused_list(lists: Seq<ListView>, start: int) -> Option<int>
    decreases lists.len() - start,
{
    if start < 0 || start >= lists.len() {
        None
    } else if lists[start].is_focused {
        Some(start)
    } else {
        focused_list(lists, start + 1)
    }
}

/// The tasks of an output: those of its own list, else of its group's, else of
/// the focused one, else none.
pub open spec fn tasks_of_output(
    lists: Seq<ListView>,
    output: Option<Seq<char>>,
    output_group: u8,
) -> Seq<TaskView> {
    let found = match output {
        Some(output) => list_on_output(lists, output, 0),
        None => None,
    };
    match found {
        Some(place) => lists[place].tasks,
        None => if lists.len() > group_of(output_group) {
            lists[group_of(output_group)].tasks
        } else {
            match focused_list(lists, 0) {
                Some(place) => lists[place].tasks,
                None => Seq::empty(),
            }
        },
    }
}

impl NiriModel {
    /// What the bar of an output shows.
    pub fn surface_content(&self, output: Option<&str>, output_group: u8) -> (result:
        SurfaceContent)
        ensures
            forall|i: int|
                0 <= i < 5 ==> #[trigger] result.workspaces[i] == slot_at(
                    self.workspaces.workspaces@,
                    i,
                    str_view(output),
                    output_group,
                ),
            task_views(result.tasks@) == tasks_of_output(
                list_views(self.task_lists@),
                str_view(output),
                output_group,
            ),
            result.keyboard_layout@ == self.keyboard_layout@,
    {
        SurfaceContent {
            workspaces: self.slots_for(output, output_group),
            tasks: self.tasks_for(output, output_group),
            keyboard_layout: self.keyboard_layout.clone(),
        }
    }

    /// The workspace slots of an output.
    pub fn slots_for(&self, output: Option<&str>, output_group: u8) -> (result: [WorkspaceSlot;
        WORKSPACES_PER_OUTPUT])
        ensures
            forall|i: int|
                0 <= i < 5 ==> #[trigger] result[i] == slot_at(
                    self.workspaces.workspaces@,
                    i,
                    str_view(output),
                    output_group,
                ),
    {
        [
            self.slot_for(0, output, output_group),
            self.slot_for(1, output, output_group),
            self.slot_for(2, output, output_group),
            self.slot_for(3, output, output_group),
            self.slot_for(4, output, output_group),
        ]
    }

    fn slot_for(&self, offset: u8, output: Option<&str>, output_group: u8) -> (result:
        WorkspaceSlot)
        requires
            offset < 5,
        ensures
            result == slot_at(
                self.workspaces.workspaces@,
                offset as int,
                str_view(output),
                output_group,
            ),
    {
        let label: u8 = if output_group == 0 {
            offset + 1
        } else {
            offset + 6
        };
        match self.workspaces.workspace_for(offset + 1, output, output_group) {
            Some(place) => {
                let workspace = &self.workspaces.workspaces[place];
                WorkspaceSlot {
                    id: Some(workspace.id),
                    index: label,
                    is_active: workspace.is_active,
                    is_focused: workspace.is_focused,
                    is_occupied: workspace.is_occupied,
                    is_urgent: workspace.is_urgent,
                }
            },
            None => WorkspaceSlot {
                id: None,
                index: label,
                is_active: false,
                is_focused: false,
                is_occupied: false,
                is_urgent: false,
            },
        }
    }

    fn list_for(&self, output: Option<&str>, output_group: u8) -> (result: Option<usize>)
        ensures
            match result {
                Some(place) => place < self.task_lists@.len() && tasks_of_output(
                    list_views(self.task_lists@),
                    str_view(output),
                    output_group,
                ) == self.task_lists@[place as int]@.tasks,
                None => tasks_of_output(
                    list_views(self.task_lists@),
                    str_view(output),
                    output_group,
                ) == Seq::<TaskView>::empty(),
            },
    {
        let ghost lists = list_views(self.task_lists@);
        if let Some(wanted) = output {
            let mut i: usize = 0;
            while i < self.task_lists.len()
                invariant
                    i <= self.task_lists@.len(),
                    output == Some(wanted),
                    lists == list_views(self.task_lists@),
                    list_on_output(lists, wanted@, 0) == list_on_output(lists, wanted@, i as int),
                decreases self.task_lists@.len() - i,
            {
                if let Some(name) = &self.task_lists[i].output {
                    if same_text(name.as_str(), wanted) {
                        return Some(i);
                    }
                }
                i += 1;
            }
        }
        let group: usize = if output_group == 0 {
            0
        } else {
            1
        };
        if group < self.task_lists.len() {
            return Some(group);
        }
        let mut i: usize = 0;
        while i < self.task_lists.len()
            invariant
                i <= self.task_lists@.len(),
                lists == list_views(self.task_lists@),
                focused_list(lists, 0) == focused_list(lists, i as int),
                group == group_of(output_group),
                group >= self.task_lists@.len(),
                output matches Some(output) ==> list_on_output(lists, output@, 0) is None,
            decreases self.task_lists@.len() - i,
        {
            if self.task_lists[i].is_focused {
                return Some(i);
            }
            i += 1;
        }
        None
    }

    /// The tasks of an output.
    pub fn tasks_for(&self, output: Option<&str>, output_group: u8) -> (result: Vec<WindowTask>)
        ensures
            task_views(result@) == tasks_of_output(
                list_views(self.task_lists@),
                str_view(output),
                output_group,
            ),
    {
        match self.list_for(output, output_group) {
            Some(place) => copy_tasks(&self.task_lists[place].tasks),
            None => {
                let none: Vec<WindowTask> = Vec::new();
                assert(task_views(none@) =~= Seq::<TaskView>::empty());
                none
            },
        }
    }
}

/// Whether some window is on a workspace.
pub open spec fn occupied(windows: Seq<WindowState>, workspace_id: u64) -> bool {
    exists|i: int| 0 <= i < windows.len() && (#[trigger] windows[i]).workspace_id == Some(workspace_id)
}

fn is_occupied(windows: &Vec<WindowState>, workspace_id: u64) -> (result: bool)
    ensures
        result == occupied(windows@, workspace_id),
{
    let mut i: usize = 0;
    while i < windows.len()
        invariant
            i <= windows@.len(),
            forall|k: int|
                0 <= k < i ==> (#[trigger] windows@[k]).workspace_id != Some(workspace_id),
        decreases windows@.len() - i,
    {
        if let Some(id) = windows[i].workspace_id {
            if id == workspace_id {
                assert(windows@[i as int].workspace_id == Some(workspace_id));
                return true;
            }
        }
        i += 1;
    }
    false
}

/// What the bar knows of a workspace.
pub open spec fn info_of(workspace: WorkspaceState, windows: Seq<WindowState>) -> WorkspaceInfo {
    WorkspaceInfo {
        id: workspace.id,
        index: workspace.idx,
        output: workspace.output,
        is_active: workspace.is_active,
        is_focused: workspace.is_focused,
        is_occupied: occupied(windows, workspace.id),
        is_urgent: workspace.is_urgent,
    }
}

/// The workspaces that have a label.
pub open spec fn labelled(workspaces: Seq<WorkspaceState>, windows: Seq<WindowState>) -> Seq<
    WorkspaceInfo,
>
    decreases workspaces.len(),
{
    if workspaces.len() == 0 {
        Seq::empty()
    } else if 1 <= workspaces.last().idx <= 10 {
        labelled(workspaces.drop_last(), windows).push(info_of(workspaces.last(), windows))
    } else {
        labelled(workspaces.drop_last(), windows)
    }
}

impl Ranked for WorkspaceInfo {
    open spec fn before(self, other: Self) -> bool {
        option_before(option_view(self.output), option_view(other.output)) || (option_view(
            self.output,
        ) == option_view(other.output) && self.index < other.index)
    }

    fn is_before(&self, other: &Self) -> (result: bool) {
        option_comes_before(&self.output, &other.output) || (same_option(
            &self.output,
            &other.output,
        ) && self.index < other.index)
    }
}

/// The labelled workspaces, ordered by output and index.
pub fn workspace_model(state: &NiriState) -> (result: WorkspaceModel)
    ensures
        result.workspaces@ == sorted(labelled(state.workspaces@, state.windows@)),
{
    let mut infos: Vec<WorkspaceInfo> = Vec::new();
    let mut i: usize = 0;
    assert(state.workspaces@.take(0) =~= Seq::<WorkspaceState>::empty());
    while i < state.workspaces.len()
        invariant
            i <= state.workspaces@.len(),
            infos@ == labelled(state.workspaces@.take(i as int), state.windows@),
        decreases state.workspaces@.len() - i,
    {
        assert(state.workspaces@.take(i + 1).drop_last() =~= state.workspaces@.take(i as int));
        let workspace = &state.workspaces[i];
        if 1 <= workspace.idx && workspace.idx <= 10 {
            infos.push(
                WorkspaceInfo {
                    id: workspace.id,
                    index: workspace.idx,
                    output: copy_option(&workspace.output),
                    is_active: workspace.is_active,
                    is_focused: workspace.is_focused,
                    is_occupied: is_occupied(&state.windows, workspace.id),
                    is_urgent: workspace.is_urgent,
                },
            );
        }
        i += 1;
    }
    assert(state.workspaces@.take(i as int) =~= state.workspaces@);
    WorkspaceModel { workspaces: sort(infos) }
}

/// The model holds the labelled workspaces, each once, ordered by output and index.
pub proof fn law_workspaces_are_ordered(
    workspaces: Seq<WorkspaceState>,
    windows: Seq<WindowState>,
)
    ensures
        sorted(labelled(workspaces, windows)).to_multiset() == labelled(
            workspaces,
            windows,
        ).to_multiset(),
        in_order(sorted(labelled(workspaces, windows))),
{
    lemma_sorted_contents(labelled(workspaces, windows));
    assert(is_weak_order::<WorkspaceInfo>()) by {
        assert forall|a: WorkspaceInfo, b: WorkspaceInfo| #[trigger] a.before(b) implies !b.before(
            a,
        ) by {
            lemma_option_order(option_view(a.output), option_view(b.output), None);
        }
        assert forall|a: WorkspaceInfo, b: WorkspaceInfo, c: WorkspaceInfo|
            !#[trigger] b.before(a) && !#[trigger] c.before(b) implies !c.before(a) by {
            let (x, y, z) = (option_view(a.output), option_view(b.output), option_view(c.output));
            lemma_option_order(x, y, z);
            lemma_option_order(y, z, x);
            lemma_option_order(z, x, y);
            lemma_option_order(x, z, y);
        }
    }
    lemma_sorted_in_order(labelled(workspaces, windows));
}

/// Where a window stands on the tape of its workspace: tiled windows by column
/// and tile, floating ones behind them by id.
pub fn window_tape_order_key(window_id: u64, position: Option<(usize, usize)>) -> (result: (
    u8,
    usize,
    usize,
    u64,
))
    ensures
        result == tape_key(window_id, position),
{
    match position {
        Some((column, tile)) => (0, column, tile, window_id),
        None => (1, 0, 0, window_id),
    }
}

pub open spec fn tape_key(window_id: u64, position: Option<(usize, usize)>) -> (
    u8,
    usize,
    usize,
    u64,
) {
    match position {
        Some((column, tile)) => (0, column, tile, window_id),
        None => (1, 0, 0, window_id),
    }
}

/// The place of a window, with what it is ordered by.
#[derive(Clone, Copy, Debug)]
pub struct TapePlace {
    pub key: (u8, usize, usize, u64),
    pub place: usize,
}

impl Ranked for TapePlace {
    open spec fn before(self, other: Self) -> bool {
        let (a, b) = (self.key, other.key);
        a.0 < b.0 || (a.0 == b.0 && (a.1 < b.1 || (a.1 == b.1 && (a.2 < b.2 || (a.2 == b.2 && a.3
            < b.3)))))
    }

    fn is_before(&self, other: &Self) -> (result: bool) {
        let (a, b) = (self.key, other.key);
        a.0 < b.0 || (a.0 == b.0 && (a.1 < b.1 || (a.1 == b.1 && (a.2 < b.2 || (a.2 == b.2 && a.3
            < b.3)))))
    }
}

/// The windows of a workspace among the first `count`.
pub open spec fn tape_of(windows: Seq<WindowState>, workspace_id: u64, count: int) -> Seq<TapePlace>
    decreases count,
{
    if count <= 0 {
        Seq::empty()
    } else {
        let window = windows[count - 1];
        let before = tape_of(windows, workspace_id, count - 1);
        if window.workspace_id == Some(workspace_id) {
            before.push(
                TapePlace {
                    key: tape_key(window.id, window.position),
                    place: (count - 1) as usize,
                },
            )
        } else {
            before
        }
    }
}

/// The places of the windows of a workspace, in tape order.
pub fn window_tape(windows: &Vec<WindowState>, workspace_id: u64) -> (result: Vec<TapePlace>)
    ensures
        result@ == sorted(tape_of(windows@, workspace_id, windows@.len() as int)),
        forall|k: int| 0 <= k < result@.len() ==> (#[trigger] result@[k]).place < windows@.len(),
{
    let mut places: Vec<TapePlace> = Vec::new();
    let mut i: usize = 0;
    while i < windows.len()
        invariant
            i <= windows@.len(),
            places@ == tape_of(windows@, workspace_id, i as int),
            forall|k: int| 0 <= k < places@.len() ==> (#[trigger] places@[k]).place < i,
        decreases windows@.len() - i,
    {
        let window = &windows[i];
        if let Some(id) = window.workspace_id {
            if id == workspace_id {
                places.push(
                    TapePlace { key: window_tape_order_key(window.id, window.position), place: i },
                );
            }
        }
        i += 1;
    }
    let ghost all = places@;
    let result = sort(places);
    proof {
        lemma_sorted_contents(all);
        assert forall|k: int| 0 <= k < result@.len() implies (#[trigger] result@[k]).place
            < windows@.len() by {
            broadcast use vstd::seq_lib::group_to_multiset_ensures;

            assert(result@.contains(result@[k]));
            assert(result@.to_multiset().count(result@[k]) > 0);
            assert(all.contains(result@[k]));
        }
    }
    result
}

/// Tiled windows come left to right before the floating ones.
pub proof fn law_tape_is_ordered(windows: Seq<WindowState>, workspace_id: u64)
    ensures
        in_order(sorted(tape_of(windows, workspace_id, windows.len() as int))),
        sorted(tape_of(windows, workspace_id, windows.len() as int)).to_multiset() == tape_of(
            windows,
            workspace_id,
            windows.len() as int,
        ).to_multiset(),
{
    assert(is_weak_order::<TapePlace>());
    lemma_sorted_in_order(tape_of(windows, workspace_id, windows.len() as int));
    lemma_sorted_contents(tape_of(windows, workspace_id, windows.len() as int));
}

/// A window's title, else its application's id, else a word for neither.
pub open spec fn label_text(title: Option<Seq<char>>, app_id: Option<Seq<char>>) -> Seq<char> {
    if title matches Some(title) && trimmed(title).len() > 0 {
        trimmed(title->0)
    } else if app_id matches Some(app_id) && trimmed(app_id).len() > 0 {
        trimmed(app_id->0)
    } else {
        "Untitled"@
    }
}

/// A text that is cut after `limit` characters, with a mark where it was.
pub open spec fn shortened(text: Seq<char>, limit: int) -> Seq<char> {
    if text.len() > limit {
        text.take(limit).push('…')
    } else {
        text
    }
}

/// What a task is labelled with.
pub fn window_label(title: &Option<String>, app_id: &Option<String>) -> (result: String)
    ensures
        result@ == shortened(label_text(option_view(*title), option_view(*app_id)), 256),
{
    if let Some(title) = title {
        let characters = chars_of(title.as_str());
        let text = trim(characters.as_slice());
        if text.len() > 0 {
            return shorten(text, 256);
        }
    }
    if let Some(app_id) = app_id {
        let characters = chars_of(app_id.as_str());
        let text = trim(characters.as_slice());
        if text.len() > 0 {
            return shorten(text, 256);
        }
    }
    let characters = chars_of("Untitled");
    shorten(characters.as_slice(), 256)
}

pub fn shorten(text: &[char], limit: usize) -> (result: String)
    ensures
        result@ == shortened(text@, limit as int),
{
    if text.len() > limit {
        let mut result = string_of(slice_subrange(text, 0, limit));
        assert(result@ =~= text@.take(limit as int));
        result.push('…');
        result
    } else {
        string_of(text)
    }
}

/// The first four letters and numbers of a text.
pub open spec fn first_word_chars(text: Seq<char>, limit: int) -> Seq<char>
    decreases text.len(),
{
    if text.len() == 0 || limit <= 0 {
        Seq::empty()
    } else if alphanumeric(text[0]) {
        seq![text[0]] + first_word_chars(text.drop_first(), limit - 1)
    } else {
        first_word_chars(text.drop_first(), limit)
    }
}

/// The short form in brackets at the end of a layout's name, if there is one.
pub open spec fn bracketed(name: Seq<char>) -> Option<Seq<char>> {
    let start = after_last(name, '(');
    match before_suffix(name.skip(start), ")"@) {
        Some(inner) => if start > 0 && trimmed(inner).len() > 0 && byte_length(trimmed(inner)) <= 4 {
            Some(trimmed(inner))
        } else {
            None
        },
        None => None,
    }
}

/// The part of a layout's name that the bar shows.
pub open spec fn layout_label(name: Seq<char>) -> Seq<char> {
    if name == "English (US)"@ {
        "US"@
    } else if name == "Russian"@ {
        "RU"@
    } else {
        match bracketed(name) {
            Some(label) => label,
            None => name,
        }
    }
}

/// The short form of a layout's name.
pub open spec fn short_layout(name: Seq<char>) -> Seq<char> {
    lowercase(first_word_chars(layout_label(trimmed(name)), 4))
}

fn find_bracketed<'a>(name: &'a [char]) -> (result: Option<&'a [char]>)
    ensures
        crate::text::slice_view(result) == bracketed(name@),
{
    let start = find_after_last(name, '(');
    let suffix = slice_subrange(name, start, name.len());
    assert(suffix@ =~= name@.skip(start as int));
    match strip_suffix(suffix, ")") {
        Some(inner) => {
            let label = trim(inner);
            if start > 0 && label.len() > 0 && fits_bytes(label, 4) {
                Some(label)
            } else {
                None
            }
        },
        None => None,
    }
}

fn first_letters(text: &[char]) -> (result: String)
    ensures
        result@ == first_word_chars(text@, 4),
{
    let mut result = String::new();
    let mut count: usize = 0;
    let mut i: usize = 0;
    assert(text@.skip(0) =~= text@);
    assert(result@ + first_word_chars(text@, 4) =~= first_word_chars(text@, 4));
    while i < text.len() && count < 4
        invariant
            i <= text@.len(),
            count <= 4,
            result@ + first_word_chars(text@.skip(i as int), 4 - count) == first_word_chars(
                text@,
                4,
            ),
        decreases text@.len() - i,
    {
        let ghost rest = text@.skip(i as int);
        assert(rest.drop_first() =~= text@.skip(i + 1));
        if is_alphanumeric(text[i]) {
            assert(result@ + (seq![rest[0]] + first_word_chars(rest.drop_first(), 4 - count - 1))
                =~= result@.push(rest[0]) + first_word_chars(rest.drop_first(), 4 - count - 1));
            result.push(text[i]);
            count += 1;
        }
        i += 1;
    }
    assert(first_word_chars(text@.skip(i as int), 4 - count) =~= Seq::<char>::empty());
    assert(result@ + Seq::<char>::empty() =~= result@);
    result
}

/// The short form of a layout's name: at most four letters, in lower case.
pub fn short_keyboard_layout(name: &str) -> (result: String)
    ensures
        result@ == short_layout(name@),
{
    let characters = chars_of(name);
    let trimmed_name = trim(characters.as_slice());
    let text = string_of(trimmed_name);
    let letters = if same_text(text.as_str(), "English (US)") {
        let label = chars_of("US");
        first_letters(label.as_slice())
    } else if same_text(text.as_str(), "Russian") {
        let label = chars_of("RU");
        first_letters(label.as_slice())
    } else {
        match find_bracketed(trimmed_name) {
            Some(label) => first_letters(label),
            None => first_letters(trimmed_name),
        }
    };
    to_lowercase(letters.as_str())
}

/// The short form of the current layout, or nothing where none is known.
pub open spec fn current_layout(layouts: Option<KeyboardLayouts>) -> Seq<char> {
    match layouts {
        Some(layouts) => if layouts.current_idx < layouts.names@.len() {
            short_layout(layouts.names@[layouts.current_idx as int]@)
        } else {
            Seq::empty()
        },
        None => Seq::empty(),
    }
}

pub fn keyboard_layout(state: &NiriState) -> (result: String)
    ensures
        result@ == current_layout(state.keyboard_layouts),
{
    match &state.keyboard_layouts {
        Some(layouts) => {
            let current: usize = layouts.current_idx as usize;
            if current < layouts.names.len() {
                short_keyboard_layout(layouts.names[current].as_str())
            } else {
                String::new()
            }
        },
        None => String::new(),
    }
}

/// The icon of an image.
pub open spec fn icon_of(width: u32, height: u32, pixels: Seq<u8>) -> IconView {
    IconView { revision: revision_of(width, height, pixels), pixels, width, height }
}

/// The icon of an image, with the number that tells it from others.
pub fn application_icon(image: Bitmap) -> (result: ApplicationIcon)
    ensures
        result@ == icon_of(image.width, image.height, image.pixels@),
{
    let revision = image_revision(&image);
    ApplicationIcon { revision, pixels: image.pixels, width: image.width, height: image.height }
}

/// The placeholder for what is known by a key.
pub open spec fn fallback_view(key: Seq<char>, size: u32) -> IconView {
    let side = if size > 0 {
        size
    } else {
        1
    };
    icon_of(side, side, fallback_pixels(encode_utf8(key), side as int))
}

/// The key of a window's icon: its application's id, else one of its own.
pub open spec fn icon_key_of(app_id: Option<Seq<char>>, window_id: u64) -> Seq<char> {
    match app_id {
        Some(app_id) => if app_id.len() > 0 {
            app_id
        } else {
            "@window:"@ + decimal(window_id as nat)
        },
        None => "@window:"@ + decimal(window_id as nat),
    }
}

fn icon_key(app_id: &Option<String>, window_id: u64) -> (result: String)
    ensures
        result@ == icon_key_of(option_view(*app_id), window_id),
{
    if let Some(app_id) = app_id {
        if !app_id.as_str().is_empty() {
            return app_id.clone();
        }
    }
    let mut key = "@window:".to_owned();
    push_decimal(&mut key, window_id);
    key
}

#[derive(Debug)]
pub struct IconEntry {
    pub key: String,
    pub icon: ApplicationIcon,
}

/// The icons of open applications.
#[derive(Debug)]
pub struct ApplicationIconCache {
    pub target_size: u32,
    pub icons: Vec<IconEntry>,
}

/// The first entry with a key, from `start` on.
pub open spec fn entry_at(entries: Seq<IconEntry>, key: Seq<char>, start: int) -> Option<int>
    decreases entries.len() - start,
{
    if start < 0 || start >= entries.len() {
        None
    } else if entries[start].key@ == key {
        Some(start)
    } else {
        entry_at(entries, key, start + 1)
    }
}

proof fn lemma_entry_at(entries: Seq<IconEntry>, key: Seq<char>, start: int)
    requires
        0 <= start,
    ensures
        match entry_at(entries, key, start) {
            Some(place) => start <= place < entries.len() && entries[place].key@ == key,
            None => forall|k: int|
                start <= k < entries.len() ==> (#[trigger] entries[k]).key@ != key,
        },
    decreases entries.len() - start,
{
    if start < entries.len() && entries[start].key@ != key {
        lemma_entry_at(entries, key, start + 1);
    }
}

proof fn lemma_has_key(entries: Seq<IconEntry>, key: Seq<char>)
    ensures
        has_key(entry_views(entries), key) <==> entry_at(entries, key, 0) is Some,
{
    lemma_entry_at(entries, key, 0);
    match entry_at(entries, key, 0) {
        Some(place) => {
            assert(entry_views(entries)[place].0 == key);
        },
        None => {
            assert forall|k: int| 0 <= k < entries.len() implies (#[trigger] entry_views(
                entries,
            )[k]).0 != key by {
                assert(entries[k].key@ != key);
            }
        },
    }
}

proof fn lemma_entry_at_push(entries: Seq<IconEntry>, entry: IconEntry, key: Seq<char>, start: int)
    requires
        0 <= start <= entries.len(),
    ensures
        entry_at(entries.push(entry), key, start) == match entry_at(entries, key, start) {
            Some(place) => Some(place),
            None => if entry.key@ == key {
                Some(entries.len() as int)
            } else {
                None
            },
        },
    decreases entries.len() - start,
{
    let longer = entries.push(entry);
    if start < entries.len() {
        assert(longer[start] == entries[start]);
        lemma_entry_at_push(entries, entry, key, start + 1);
    } else {
        assert(longer[start] == entry);
        assert(entry_at(longer, key, start + 1) is None);
    }
}

impl ApplicationIconCache {
    /// Icons are small enough to be drawn.
    pub open spec fn wf(&self) -> bool {
        self.target_size * self.target_size * 4 <= u32::MAX
    }

    /// The icon that a key stands for: the stored one, else a placeholder.
    pub open spec fn icon(&self, key: Seq<char>) -> IconView {
        match entry_at(self.icons@, key, 0) {
            Some(place) => self.icons@[place].icon@,
            None => fallback_view(key, self.target_size),
        }
    }

    pub fn new(target_size: u32) -> (result: Self)
        ensures
            result.target_size == target_size,
            result.icons@.len() == 0,
    {
        ApplicationIconCache { target_size, icons: Vec::new() }
    }

    fn find(&self, key: &str) -> (result: Option<usize>)
        ensures
            match result {
                Some(place) => place < self.icons@.len() && entry_at(self.icons@, key@, 0) == Some(
                    place as int,
                ),
                None => entry_at(self.icons@, key@, 0) is None,
            },
    {
        let mut i: usize = 0;
        while i < self.icons.len()
            invariant
                i <= self.icons@.len(),
                entry_at(self.icons@, key@, 0) == entry_at(self.icons@, key@, i as int),
            decreases self.icons@.len() - i,
        {
            if same_text(self.icons[i].key.as_str(), key) {
                return Some(i);
            }
            i += 1;
        }
        None
    }

    /// Stores what was loaded for an application: its icon, or a placeholder
    /// where none was found. An application that is known keeps its icon.
    pub fn store(&mut self, key: &str, image: Option<Bitmap>)
        requires
            old(self).wf(),
        ensures
            final(self).wf(),
            final(self).target_size == old(self).target_size,
            entry_at(final(self).icons@, key@, 0) is Some,
            entry_views(final(self).icons@) == with_icon(
                entry_views(old(self).icons@),
                key@,
                match image {
                    Some(image) => icon_of(image.width, image.height, image.pixels@),
                    None => fallback_view(key@, old(self).target_size),
                },
            ),
            forall|other: Seq<char>| #[trigger]
                final(self).icon(other) == (if other == key@ && entry_at(old(self).icons@, key@, 0)
                    is None && image is Some {
                    icon_of(image->0.width, image->0.height, image->0.pixels@)
                } else {
                    old(self).icon(other)
                }),
    {
        proof {
            lemma_has_key(self.icons@, key@);
        }
        if self.find(key).is_some() {
            return;
        }
        let icon = match image {
            Some(image) => application_icon(image),
            None => application_icon(fallback_icon(key, self.target_size)),
        };
        let entry = IconEntry { key: key.to_owned(), icon };
        proof {
            assert forall|other: Seq<char>| true implies #[trigger] entry_at(
                self.icons@.push(entry),
                other,
                0,
            ) == match entry_at(self.icons@, other, 0) {
                Some(place) => Some(place),
                None => if entry.key@ == other {
                    Some(self.icons@.len() as int)
                } else {
                    None
                },
            } by {
                lemma_entry_at_push(self.icons@, entry, other, 0);
                lemma_entry_at(self.icons@, other, 0);
            }
        }
        let ghost before = self.icons@;
        self.icons.push(entry);
        assert(entry_views(self.icons@) =~= entry_views(before).push((key@, entry.icon@)));
        proof {
            assert forall|other: Seq<char>| #[trigger]
                self.icon(other) == (if other == key@ && image is Some {
                icon_of(image->0.width, image->0.height, image->0.pixels@)
            } else {
                old(self).icon(other)
            }) by {
                lemma_entry_at(before, other, 0);
            }
        }
    }

    /// The icon of a window. A window without a stored one gets a placeholder,
    /// which is stored.
    pub fn icon_for(&mut self, app_id: &Option<String>, window_id: u64) -> (result:
        ApplicationIcon)
        requires
            old(self).wf(),
        ensures
            final(self).wf(),
            final(self).target_size == old(self).target_size,
            result@ == old(self).icon(icon_key_of(option_view(*app_id), window_id)),
            ({
                let key = icon_key_of(option_view(*app_id), window_id);
                entry_views(final(self).icons@) == with_icon(
                    entry_views(old(self).icons@),
                    key,
                    fallback_view(key, old(self).target_size),
                )
            }),
            forall|key: Seq<char>| #[trigger] final(self).icon(key) == old(self).icon(key),
    {
        let key = icon_key(app_id, window_id);
        self.store(key.as_str(), None);
        match self.find(key.as_str()) {
            Some(place) => {
                assert(self.icon(key@) == self.icons@[place as int].icon@);
                self.icons[place].icon.clone()
            },
            None => application_icon(fallback_icon(key.as_str(), self.target_size)),
        }
    }

    /// Forgets the icons of windows and applications that are no longer open.
    pub fn retain_open_applications(&mut self, state: &NiriState)
        ensures
            final(self).target_size == old(self).target_size,
            entry_views(final(self).icons@) == open_entries(
                entry_views(old(self).icons@),
                state.windows@,
            ),
    {
        let (window_ids, app_ids) = open_application_keys(state);
        let mut kept: Vec<IconEntry> = Vec::new();
        let mut i: usize = 0;
        let ghost all = entry_views(self.icons@);
        assert(all.take(0) =~= Seq::<(Seq<char>, IconView)>::empty());
        assert(entry_views(kept@) =~= Seq::<(Seq<char>, IconView)>::empty());
        while i < self.icons.len()
            invariant
                i <= self.icons@.len(),
                all == entry_views(self.icons@),
                window_ids@ == window_ids_of(state.windows@),
                string_views(app_ids@) == app_ids_of(state.windows@),
                entry_views(kept@) == open_entries(all.take(i as int), state.windows@),
            decreases self.icons@.len() - i,
        {
            assert(all.take(i + 1).drop_last() =~= all.take(i as int));
            assert(all.take(i + 1).last() == all[i as int]);
            let entry = &self.icons[i];
            if is_open_icon_key(entry.key.as_str(), &window_ids, &app_ids) {
                let copy = IconEntry { key: entry.key.clone(), icon: entry.icon.clone() };
                assert(entry_views(kept@.push(copy)) =~= entry_views(kept@).push(all[i as int]));
                kept.push(copy);
            }
            i += 1;
        }
        assert(all.take(i as int) =~= all);
        self.icons = kept;
    }

    /// The applications whose icons are shown but not known yet.
    pub fn wanted(&self, state: &NiriState) -> (result: Vec<String>)
        ensures
            string_views(result@) == wanted_of(
                self.icons@,
                state.windows@,
                state.workspaces@,
                state.windows@.len() as int,
            ),
    {
        let mut result: Vec<String> = Vec::new();
        let mut i: usize = 0;
        assert(string_views(result@) =~= Seq::<Seq<char>>::empty());
        while i < state.windows.len()
            invariant
                i <= state.windows@.len(),
                string_views(result@) == wanted_of(
                    self.icons@,
                    state.windows@,
                    state.workspaces@,
                    i as int,
                ),
            decreases state.windows@.len() - i,
        {
            let window = &state.windows[i];
            if is_shown(&state.workspaces, window.workspace_id) {
                if let Some(app_id) = &window.app_id {
                    if !app_id.as_str().is_empty() && self.find(app_id.as_str()).is_none()
                        && !contains_text(&result, app_id.as_str()) {
                        let copy = app_id.clone();
                        proof {
                            lemma_string_views_push(result@, copy);
                        }
                        result.push(copy);
                    }
                }
            }
            i += 1;
        }
        result
    }
}

/// Whether windows of a workspace are shown.
pub open spec fn shown(workspaces: Seq<WorkspaceState>, workspace_id: Option<u64>) -> bool {
    exists|i: int|
        0 <= i < workspaces.len() && (#[trigger] workspaces[i]).is_active && workspace_id == Some(
            workspaces[i].id,
        )
}

fn is_shown(workspaces: &Vec<WorkspaceState>, workspace_id: Option<u64>) -> (result: bool)
    ensures
        result == shown(workspaces@, workspace_id),
{
    let id: u64 = match workspace_id {
        Some(id) => id,
        None => return false,
    };
    let mut i: usize = 0;
    while i < workspaces.len()
        invariant
            i <= workspaces@.len(),
            workspace_id == Some(id),
            forall|k: int|
                0 <= k < i ==> !((#[trigger] workspaces@[k]).is_active && id == workspaces@[k].id),
        decreases workspaces@.len() - i,
    {
        if workspaces[i].is_active && workspaces[i].id == id {
            assert(workspaces@[i as int].is_active);
            return true;
        }
        i += 1;
    }
    false
}

/// The applications of the first `count` windows that are shown without a stored icon.
pub open spec fn wanted_of(
    entries: Seq<IconEntry>,
    windows: Seq<WindowState>,
    workspaces: Seq<WorkspaceState>,
    count: int,
) -> Seq<Seq<char>>
    decreases count,
{
    if count <= 0 {
        Seq::empty()
    } else {
        let window = windows[count - 1];
        let before = wanted_of(entries, windows, workspaces, count - 1);
        match option_view(window.app_id) {
            Some(app_id) => if shown(workspaces, window.workspace_id) && app_id.len() > 0
                && entry_at(entries, app_id, 0) is None && !before.contains(app_id) {
                before.push(app_id)
            } else {
                before
            },
            None => before,
        }
    }
}

/// The views of some entries.
pub open spec fn entry_views(entries: Seq<IconEntry>) -> Seq<(Seq<char>, IconView)> {
    Seq::new(entries.len(), |i: int| (entries[i].key@, entries[i].icon@))
}

/// Whether an icon is stored for a key.
pub open spec fn has_key(entries: Seq<(Seq<char>, IconView)>, key: Seq<char>) -> bool {
    exists|i: int| 0 <= i < entries.len() && (#[trigger] entries[i]).0 == key
}

/// Some entries with one for a key: the one that they have, or else a new one.
pub open spec fn with_icon(
    entries: Seq<(Seq<char>, IconView)>,
    key: Seq<char>,
    icon: IconView,
) -> Seq<(Seq<char>, IconView)> {
    if has_key(entries, key) {
        entries
    } else {
        entries.push((key, icon))
    }
}

/// Some entries with one for each of the first `count` windows of a tape:
/// windows whose icon is not stored get a placeholder.
pub open spec fn with_tape(
    entries: Seq<(Seq<char>, IconView)>,
    windows: Seq<WindowState>,
    tape: Seq<TapePlace>,
    count: int,
    size: u32,
) -> Seq<(Seq<char>, IconView)>
    decreases count,
{
    if count <= 0 {
        entries
    } else {
        let window = windows[tape[count - 1].place as int];
        let key = icon_key_of(option_view(window.app_id), window.id);
        with_icon(
            with_tape(entries, windows, tape, count - 1, size),
            key,
            fallback_view(key, size),
        )
    }
}

/// Some entries with one for each window of a workspace.
pub open spec fn with_workspace(
    entries: Seq<(Seq<char>, IconView)>,
    windows: Seq<WindowState>,
    workspace_id: u64,
    size: u32,
) -> Seq<(Seq<char>, IconView)> {
    let tape = sorted(tape_of(windows, workspace_id, windows.len() as int));
    with_tape(entries, windows, tape, tape.len() as int, size)
}

/// Some entries with one for each window of the first `count` workspaces.
pub open spec fn with_workspaces(
    entries: Seq<(Seq<char>, IconView)>,
    workspaces: Seq<WorkspaceState>,
    windows: Seq<WindowState>,
    order: Seq<OutputPlace>,
    count: int,
    size: u32,
) -> Seq<(Seq<char>, IconView)>
    decreases count,
{
    if count <= 0 {
        entries
    } else {
        with_workspace(
            with_workspaces(entries, workspaces, windows, order, count - 1, size),
            windows,
            workspaces[order[count - 1].place as int].id,
            size,
        )
    }
}

/// Some entries with one for each window that is shown.
pub open spec fn with_shown(
    entries: Seq<(Seq<char>, IconView)>,
    workspaces: Seq<WorkspaceState>,
    windows: Seq<WindowState>,
    size: u32,
) -> Seq<(Seq<char>, IconView)> {
    let order = sorted(active_places(workspaces, workspaces.len() as int));
    with_workspaces(entries, workspaces, windows, order, order.len() as int, size)
}

/// The ids of some windows.
pub open spec fn window_ids_of(windows: Seq<WindowState>) -> Seq<u64> {
    Seq::new(windows.len(), |i: int| windows[i].id)
}

/// The ids of the applications of some windows.
pub open spec fn app_ids_of(windows: Seq<WindowState>) -> Seq<Seq<char>>
    decreases windows.len(),
{
    if windows.len() == 0 {
        Seq::empty()
    } else {
        let before = app_ids_of(windows.drop_last());
        match option_view(windows.last().app_id) {
            Some(app_id) => if app_id.len() > 0 {
                before.push(app_id)
            } else {
                before
            },
            None => before,
        }
    }
}

/// The windows and applications that are open.
pub fn open_application_keys(state: &NiriState) -> (result: (Vec<u64>, Vec<String>))
    ensures
        result.0@ == window_ids_of(state.windows@),
        string_views(result.1@) == app_ids_of(state.windows@),
{
    let mut window_ids: Vec<u64> = Vec::new();
    let mut app_ids: Vec<String> = Vec::new();
    let mut i: usize = 0;
    assert(state.windows@.take(0) =~= Seq::<WindowState>::empty());
    assert(string_views(app_ids@) =~= Seq::<Seq<char>>::empty());
    while i < state.windows.len()
        invariant
            i <= state.windows@.len(),
            window_ids@ =~= window_ids_of(state.windows@.take(i as int)),
            string_views(app_ids@) == app_ids_of(state.windows@.take(i as int)),
        decreases state.windows@.len() - i,
    {
        assert(state.windows@.take(i + 1).drop_last() =~= state.windows@.take(i as int));
        let window = &state.windows[i];
        window_ids.push(window.id);
        if let Some(app_id) = &window.app_id {
            if !app_id.as_str().is_empty() {
                let copy = app_id.clone();
                proof {
                    lemma_string_views_push(app_ids@, copy);
                }
                app_ids.push(copy);
            }
        }
        i += 1;
    }
    assert(state.windows@.take(i as int) =~= state.windows@);
    (window_ids, app_ids)
}

/// The window that a key of the form `@window:` names, if it is one.
pub open spec fn key_window(key: Seq<char>) -> Option<int> {
    match after_prefix(key, "@window:"@) {
        Some(id) => unsigned_of(id, 10, u64::MAX as int),
        None => None,
    }
}

/// Whether a key stands for something that is open.
pub open spec fn open_key(key: Seq<char>, window_ids: Seq<u64>, app_ids: Seq<Seq<char>>) -> bool {
    match key_window(key) {
        Some(id) => window_ids.contains(id as u64),
        None => app_ids.contains(key),
    }
}

/// The entries of what is open.
pub open spec fn open_entries(entries: Seq<(Seq<char>, IconView)>, windows: Seq<WindowState>) -> Seq<
    (Seq<char>, IconView),
>
    decreases entries.len(),
{
    if entries.len() == 0 {
        Seq::empty()
    } else {
        let before = open_entries(entries.drop_last(), windows);
        if open_key(entries.last().0, window_ids_of(windows), app_ids_of(windows)) {
            before.push(entries.last())
        } else {
            before
        }
    }
}

pub fn is_open_icon_key(key: &str, window_ids: &Vec<u64>, app_ids: &Vec<String>) -> (result: bool)
    ensures
        result == open_key(key@, window_ids@, string_views(app_ids@)),
{
    let characters = chars_of(key);
    if let Some(id) = strip_prefix(characters.as_slice(), "@window:") {
        if let Some(id) = parse_unsigned(id, 10, u64::MAX) {
            let mut i: usize = 0;
            while i < window_ids.len()
                invariant
                    i <= window_ids@.len(),
                    key_window(key@) == Some(id as int),
                    forall|k: int| 0 <= k < i ==> window_ids@[k] != id,
                decreases window_ids@.len() - i,
            {
                if window_ids[i] == id {
                    assert(window_ids@[i as int] == id);
                    return true;
                }
                i += 1;
            }
            return false;
        }
    }
    contains_text(app_ids, key)
}

/// The output of an active workspace, with its place.
#[derive(Debug)]
pub struct OutputPlace {
    pub output: Option<String>,
    pub place: usize,
}

impl Ranked for OutputPlace {
    open spec fn before(self, other: Self) -> bool {
        option_before(option_view(self.output), option_view(other.output))
    }

    fn is_before(&self, other: &Self) -> (result: bool) {
        option_comes_before(&self.output, &other.output)
    }
}

/// The active ones of the first `count` workspaces.
pub open spec fn active_places(workspaces: Seq<WorkspaceState>, count: int) -> Seq<OutputPlace>
    decreases count,
{
    if count <= 0 {
        Seq::empty()
    } else {
        let before = active_places(workspaces, count - 1);
        if workspaces[count - 1].is_active {
            before.push(
                OutputPlace {
                    output: workspaces[count - 1].output,
                    place: (count - 1) as usize,
                },
            )
        } else {
            before
        }
    }
}

fn active_workspaces(workspaces: &Vec<WorkspaceState>) -> (result: Vec<OutputPlace>)
    ensures
        result@ == sorted(active_places(workspaces@, workspaces@.len() as int)),
        forall|k: int| 0 <= k < result@.len() ==> (#[trigger] result@[k]).place < workspaces@.len(),
{
    let mut places: Vec<OutputPlace> = Vec::new();
    let mut i: usize = 0;
    while i < workspaces.len()
        invariant
            i <= workspaces@.len(),
            places@ == active_places(workspaces@, i as int),
            forall|k: int| 0 <= k < places@.len() ==> (#[trigger] places@[k]).place < i,
        decreases workspaces@.len() - i,
    {
        if workspaces[i].is_active {
            places.push(OutputPlace { output: copy_option(&workspaces[i].output), place: i });
        }
        i += 1;
    }
    let ghost all = places@;
    let result = sort(places);
    proof {
        lemma_sorted_contents(all);
        assert forall|k: int| 0 <= k < result@.len() implies (#[trigger] result@[k]).place
            < workspaces@.len() by {
            broadcast use vstd::seq_lib::group_to_multiset_ensures;

            assert(result@.contains(result@[k]));
            assert(result@.to_multiset().count(result@[k]) > 0);
            assert(all.contains(result@[k]));
        }
    }
    result
}

/// The task of a window, with the icon that the cache has for it.
pub open spec fn task_of(window: WindowState, icons: ApplicationIconCache) -> TaskView {
    TaskView {
        id: window.id,
        label: shortened(label_text(option_view(window.title), option_view(window.app_id)), 256),
        app_id: option_view(window.app_id),
        is_focused: window.is_focused,
        is_urgent: window.is_urgent,
        icon: icons.icon(icon_key_of(option_view(window.app_id), window.id)),
    }
}

/// The tasks of a workspace, in tape order.
pub open spec fn workspace_tasks(
    windows: Seq<WindowState>,
    workspace_id: u64,
    icons: ApplicationIconCache,
) -> Seq<TaskView> {
    let tape = sorted(tape_of(windows, workspace_id, windows.len() as int));
    Seq::new(tape.len(), |i: int| task_of(windows[tape[i].place as int], icons))
}

/// The task list of a workspace.
pub open spec fn list_of(
    workspace: WorkspaceState,
    windows: Seq<WindowState>,
    icons: ApplicationIconCache,
) -> ListView {
    ListView {
        output: option_view(workspace.output),
        is_focused: workspace.is_focused,
        tasks: workspace_tasks(windows, workspace.id, icons),
    }
}

/// The task lists of the active workspaces, ordered by output.
pub open spec fn lists_of(
    workspaces: Seq<WorkspaceState>,
    windows: Seq<WindowState>,
    icons: ApplicationIconCache,
) -> Seq<ListView> {
    let order = sorted(active_places(workspaces, workspaces.len() as int));
    Seq::new(order.len(), |i: int| list_of(workspaces[order[i].place as int], windows, icons))
}

fn tasks_on(state: &NiriState, workspace_id: u64, icons: &mut ApplicationIconCache) -> (result: Vec<
    WindowTask,
>)
    requires
        old(icons).wf(),
    ensures
        final(icons).wf(),
        final(icons).target_size == old(icons).target_size,
        forall|key: Seq<char>| #[trigger] final(icons).icon(key) == old(icons).icon(key),
        entry_views(final(icons).icons@) == with_workspace(
            entry_views(old(icons).icons@),
            state.windows@,
            workspace_id,
            old(icons).target_size,
        ),
        task_views(result@) == workspace_tasks(state.windows@, workspace_id, *old(icons)),
{
    let tape = window_tape(&state.windows, workspace_id);
    let mut tasks: Vec<WindowTask> = Vec::new();
    let mut i: usize = 0;
    while i < tape.len()
        invariant
            i <= tape@.len(),
            icons.wf(),
            icons.target_size == old(icons).target_size,
            forall|k: int| 0 <= k < tape@.len() ==> (#[trigger] tape@[k]).place < state.windows@.len(),
            forall|key: Seq<char>| #[trigger] icons.icon(key) == old(icons).icon(key),
            entry_views(icons.icons@) == with_tape(
                entry_views(old(icons).icons@),
                state.windows@,
                tape@,
                i as int,
                old(icons).target_size,
            ),
            tasks@.len() == i,
            forall|k: int|
                0 <= k < i ==> (#[trigger] tasks@[k])@ == task_of(
                    state.windows@[tape@[k].place as int],
                    *old(icons),
                ),
        decreases tape@.len() - i,
    {
        let window = &state.windows[tape[i].place];
        let icon = icons.icon_for(&window.app_id, window.id);
        let task = WindowTask {
            id: window.id,
            label: window_label(&window.title, &window.app_id),
            app_id: copy_option(&window.app_id),
            is_focused: window.is_focused,
            is_urgent: window.is_urgent,
            icon,
        };
        assert(task@ == task_of(*window, *old(icons)));
        tasks.push(task);
        i += 1;
    }
    assert(task_views(tasks@) =~= workspace_tasks(state.windows@, workspace_id, *old(icons)));
    tasks
}

/// The task lists of the active workspaces, ordered by output.
pub fn task_lists(state: &NiriState, icons: &mut ApplicationIconCache) -> (result: Vec<TaskList>)
    requires
        old(icons).wf(),
    ensures
        final(icons).wf(),
        final(icons).target_size == old(icons).target_size,
        forall|key: Seq<char>| #[trigger] final(icons).icon(key) == old(icons).icon(key),
        entry_views(final(icons).icons@) == with_shown(
            entry_views(old(icons).icons@),
            state.workspaces@,
            state.windows@,
            old(icons).target_size,
        ),
        list_views(result@) == lists_of(state.workspaces@, state.windows@, *old(icons)),
{
    let order = active_workspaces(&state.workspaces);
    let mut lists: Vec<TaskList> = Vec::new();
    let mut i: usize = 0;
    while i < order.len()
        invariant
            i <= order@.len(),
            icons.wf(),
            icons.target_size == old(icons).target_size,
            forall|k: int|
                0 <= k < order@.len() ==> (#[trigger] order@[k]).place < state.workspaces@.len(),
            forall|key: Seq<char>| #[trigger] icons.icon(key) == old(icons).icon(key),
            entry_views(icons.icons@) == with_workspaces(
                entry_views(old(icons).icons@),
                state.workspaces@,
                state.windows@,
                order@,
                i as int,
                old(icons).target_size,
            ),
            lists@.len() == i,
            forall|k: int|
                0 <= k < i ==> (#[trigger] lists@[k])@ == list_of(
                    state.workspaces@[order@[k].place as int],
                    state.windows@,
                    *old(icons),
                ),
        decreases order@.len() - i,
    {
        let workspace = &state.workspaces[order[i].place];
        let ghost cache = *icons;
        let tasks = tasks_on(state, workspace.id, icons);
        assert(workspace_tasks(state.windows@, workspace.id, cache) =~= workspace_tasks(
            state.windows@,
            workspace.id,
            *old(icons),
        )) by {
            assert forall|k: int|
                0 <= k < workspace_tasks(
                    state.windows@,
                    workspace.id,
                    cache,
                ).len() implies #[trigger] workspace_tasks(state.windows@, workspace.id, cache)[k]
                == workspace_tasks(state.windows@, workspace.id, *old(icons))[k] by {
                let tape = sorted(tape_of(state.windows@, workspace.id, state.windows@.len() as int));
                let window = state.windows@[tape[k].place as int];
                assert(cache.icon(icon_key_of(option_view(window.app_id), window.id)) == old(
                    icons,
                ).icon(icon_key_of(option_view(window.app_id), window.id)));
            }
        }
        let list = TaskList {
            output: copy_option(&workspace.output),
            is_focused: workspace.is_focused,
            tasks,
        };
        assert(list@ == list_of(*workspace, state.windows@, *old(icons)));
        lists.push(list);
        i += 1;
    }
    assert(list_views(lists@) =~= lists_of(state.workspaces@, state.windows@, *old(icons)));
    lists
}

/// What the bars show of a state of the compositor. The icons of all shown windows
/// are stored, and those of what is no longer open are forgotten.
pub fn niri_model(state: &NiriState, icons: &mut ApplicationIconCache) -> (result: NiriModel)
    requires
        old(icons).wf(),
    ensures
        final(icons).wf(),
        final(icons).target_size == old(icons).target_size,
        result.workspaces.workspaces@ == sorted(labelled(state.workspaces@, state.windows@)),
        list_views(result.task_lists@) == lists_of(
            state.workspaces@,
            state.windows@,
            *old(icons),
        ),
        result.keyboard_layout@ == current_layout(state.keyboard_layouts),
        entry_views(final(icons).icons@) == open_entries(
            with_shown(
                entry_views(old(icons).icons@),
                state.workspaces@,
                state.windows@,
                old(icons).target_size,
            ),
            state.windows@,
        ),
{
    let workspaces = workspace_model(state);
    let task_lists = task_lists(state, icons);
    icons.retain_open_applications(state);
    NiriModel { workspaces, task_lists, keyboard_layout: keyboard_layout(state) }
}

/// What the bars show where tasks are shown or hidden. Hidden tasks need neither
/// titles nor icons: there are no task lists then, and the stored icons stay.
pub fn bar_model(state: &NiriState, show_tasks: bool, icons: &mut ApplicationIconCache) -> (result:
    NiriModel)
    requires
        old(icons).wf(),
    ensures
        final(icons).wf(),
        result.workspaces.workspaces@ == sorted(labelled(state.workspaces@, state.windows@)),
        result.keyboard_layout@ == current_layout(state.keyboard_layouts),
        list_views(result.task_lists@) == (if show_tasks {
            lists_of(state.workspaces@, state.windows@, *old(icons))
        } else {
            Seq::empty()
        }),
        final(icons).target_size == old(icons).target_size,
        if show_tasks {
            entry_views(final(icons).icons@) == open_entries(
                with_shown(
                    entry_views(old(icons).icons@),
                    state.workspaces@,
                    state.windows@,
                    old(icons).target_size,
                ),
                state.windows@,
            )
        } else {
            *final(icons) == *old(icons)
        },
{
    if show_tasks {
        return niri_model(state, icons);
    }
    let task_lists: Vec<TaskList> = Vec::new();
    assert(list_views(task_lists@) =~= Seq::<ListView>::empty());
    NiriModel {
        workspaces: workspace_model(state),
        task_lists,
        keyboard_layout: keyboard_layout(state),
    }
}

/// The applications whose icons are to be loaded: none where tasks are hidden.
pub fn icons_to_load(state: &NiriState, show_tasks: bool, icons: &ApplicationIconCache) -> (result:
    Vec<String>)
    ensures
        string_views(result@) == (if show_tasks {
            wanted_of(
                icons.icons@,
                state.windows@,
                state.workspaces@,
                state.windows@.len() as int,
            )
        } else {
            Seq::empty()
        }),
{
    if show_tasks {
        return icons.wanted(state);
    }
    let none: Vec<String> = Vec::new();
    assert(string_views(none@) =~= Seq::<Seq<char>>::empty());
    none
}

/// Icons are kept for what is open alone.
pub proof fn law_kept_icons_are_of_open_windows(
    entries: Seq<(Seq<char>, IconView)>,
    windows: Seq<WindowState>,
    place: int,
)
    requires
        0 <= place < open_entries(entries, windows).len(),
    ensures
        open_key(
            open_entries(entries, windows)[place].0,
            window_ids_of(windows),
            app_ids_of(windows),
        ),
        entries.contains(open_entries(entries, windows)[place]),
    decreases entries.len(),
{
    let before = open_entries(entries.drop_last(), windows);
    let all = open_entries(entries, windows);
    if place < before.len() {
        assert(all[place] == before[place]);
        law_kept_icons_are_of_open_windows(entries.drop_last(), windows, place);
        let k = choose|k: int|
            0 <= k < entries.drop_last().len() && entries.drop_last()[k] == before[place];
        assert(entries[k] == all[place]);
    } else {
        assert(all[place] == entries.last());
        assert(entries[entries.len() - 1] == entries.last());
    }
}

/// What is open keeps its icon.
pub proof fn law_open_windows_keep_their_icons(
    entries: Seq<(Seq<char>, IconView)>,
    windows: Seq<WindowState>,
    place: int,
)
    requires
        0 <= place < entries.len(),
        open_key(entries[place].0, window_ids_of(windows), app_ids_of(windows)),
    ensures
        open_entries(entries, windows).contains(entries[place]),
    decreases entries.len(),
{
    let before = open_entries(entries.drop_last(), windows);
    let all = open_entries(entries, windows);
    if place < entries.len() - 1 {
        law_open_windows_keep_their_icons(entries.drop_last(), windows, place);
        let k = choose|k: int| 0 <= k < before.len() && before[k] == entries[place];
        assert(all[k] == entries[place]);
    } else {
        assert(all[all.len() - 1] == entries[place]);
    }
}

/// Whether two contents look the same.
pub open spec fn contents_alike(left: &SurfaceContent, right: &SurfaceContent) -> bool {
    &&& left.workspaces@ == right.workspaces@
    &&& lists_alike(task_views(left.tasks@), task_views(right.tasks@))
    &&& left.keyboard_layout@ == right.keyboard_layout@
}

/// Whether a bar has to be drawn anew for its next content.
pub fn content_changed(current: Option<&SurfaceContent>, next: &SurfaceContent) -> (result: bool)
    ensures
        result == (current matches Some(current) ==> !contents_alike(current, next)),
{
    match current {
        Some(current) => {
            let slots = current.workspaces[0] == next.workspaces[0] && current.workspaces[1]
                == next.workspaces[1] && current.workspaces[2] == next.workspaces[2]
                && current.workspaces[3] == next.workspaces[3] && current.workspaces[4]
                == next.workspaces[4];
            assert(slots == (current.workspaces@ =~= next.workspaces@));
            !(slots && same_tasks(&current.tasks, &next.tasks) && same_text(
                current.keyboard_layout.as_str(),
                next.keyboard_layout.as_str(),
            ))
        },
        None => true,
    }
}

/// Whether two models look the same on every output.
pub open spec fn models_alike(left: NiriModel, right: NiriModel) -> bool {
    &&& infos_alike(left.workspaces.workspaces@, right.workspaces.workspaces@)
    &&& left.task_lists@.len() == right.task_lists@.len()
    &&& forall|i: int|
        0 <= i < left.task_lists@.len() ==> {
            &&& (#[trigger] left.task_lists@[i])@.output == right.task_lists@[i]@.output
            &&& left.task_lists@[i].is_focused == right.task_lists@[i].is_focused
            &&& lists_alike(left.task_lists@[i]@.tasks, right.task_lists@[i]@.tasks)
        }
    &&& left.keyboard_layout@ == right.keyboard_layout@
}

/// Whether two lists of workspaces are the same.
pub open spec fn infos_alike(left: Seq<WorkspaceInfo>, right: Seq<WorkspaceInfo>) -> bool {
    left.len() == right.len() && forall|i: int|
        0 <= i < left.len() ==> {
            &&& (#[trigger] left[i]).id == right[i].id
            &&& left[i].index == right[i].index
            &&& option_view(left[i].output) == option_view(right[i].output)
            &&& left[i].is_active == right[i].is_active
            &&& left[i].is_focused == right[i].is_focused
            &&& left[i].is_occupied == right[i].is_occupied
            &&& left[i].is_urgent == right[i].is_urgent
        }
}

fn same_infos(left: &Vec<WorkspaceInfo>, right: &Vec<WorkspaceInfo>) -> (result: bool)
    ensures
        result == infos_alike(left@, right@),
{
    if left.len() != right.len() {
        return false;
    }
    let mut i: usize = 0;
    while i < left.len()
        invariant
            i <= left@.len(),
            left@.len() == right@.len(),
            infos_alike(left@.take(i as int), right@.take(i as int)),
        decreases left@.len() - i,
    {
        let a = &left[i];
        let b = &right[i];
        if !(a.id == b.id && a.index == b.index && same_option(&a.output, &b.output) && a.is_active
            == b.is_active && a.is_focused == b.is_focused && a.is_occupied == b.is_occupied
            && a.is_urgent == b.is_urgent) {
            assert(!infos_alike(left@, right@)) by {
                assert(left@[i as int] == *a);
            }
            return false;
        }
        proof {
            let (x, y) = (left@.take(i + 1), right@.take(i + 1));
            assert forall|k: int| 0 <= k < x.len() implies {
                &&& (#[trigger] x[k]).id == y[k].id
                &&& x[k].index == y[k].index
                &&& option_view(x[k].output) == option_view(y[k].output)
                &&& x[k].is_active == y[k].is_active
                &&& x[k].is_focused == y[k].is_focused
                &&& x[k].is_occupied == y[k].is_occupied
                &&& x[k].is_urgent == y[k].is_urgent
            } by {
                if k < i {
                    assert(x[k] == left@.take(i as int)[k]);
                    assert(y[k] == right@.take(i as int)[k]);
                }
            }
        }
        i += 1;
    }
    assert(left@.take(i as int) =~= left@);
    assert(right@.take(i as int) =~= right@);
    true
}

impl NiriModel {
    /// Whether the model looks the same as another one.
    pub fn same_as(&self, other: &NiriModel) -> (result: bool)
        ensures
            result == models_alike(*self, *other),
    {
        if !same_infos(&self.workspaces.workspaces, &other.workspaces.workspaces)
            || self.task_lists.len() != other.task_lists.len() || !same_text(
            self.keyboard_layout.as_str(),
            other.keyboard_layout.as_str(),
        ) {
            return false;
        }
        let mut i: usize = 0;
        while i < self.task_lists.len()
            invariant
                i <= self.task_lists@.len(),
                self.task_lists@.len() == other.task_lists@.len(),
                infos_alike(self.workspaces.workspaces@, other.workspaces.workspaces@),
                self.keyboard_layout@ == other.keyboard_layout@,
                forall|k: int|
                    0 <= k < i ==> {
                        &&& (#[trigger] self.task_lists@[k])@.output == other.task_lists@[k]@.output
                        &&& self.task_lists@[k].is_focused == other.task_lists@[k].is_focused
                        &&& lists_alike(
                            self.task_lists@[k]@.tasks,
                            other.task_lists@[k]@.tasks,
                        )
                    },
            decreases self.task_lists@.len() - i,
        {
            let a = &self.task_lists[i];
            let b = &other.task_lists[i];
            if !(same_option(&a.output, &b.output) && a.is_focused == b.is_focused && same_tasks(
                &a.tasks,
                &b.tasks,
            )) {
                assert(self.task_lists@[i as int] == *a);
                return false;
            }
            i += 1;
        }
        true
    }
}

/// Equal contents never cause a redraw, and the order of comparison does not matter.
pub proof fn law_content_comparison_is_symmetric(left: &SurfaceContent, right: &SurfaceContent)
    ensures
        contents_alike(left, left),
        contents_alike(left, right) == contents_alike(right, left),
{
    assert(lists_alike(task_views(left.tasks@), task_views(right.tasks@)) ==> lists_alike(
        task_views(right.tasks@),
        task_views(left.tasks@),
    )) by {
        if lists_alike(task_views(left.tasks@), task_views(right.tasks@)) {
            assert forall|i: int| 0 <= i < task_views(right.tasks@).len() implies tasks_alike(
                #[trigger] task_views(right.tasks@)[i],
                task_views(left.tasks@)[i],
            ) by {
                assert(tasks_alike(task_views(left.tasks@)[i], task_views(right.tasks@)[i]));
            }
        }
    }
    assert(lists_alike(task_views(right.tasks@), task_views(left.tasks@)) ==> lists_alike(
        task_views(left.tasks@),
        task_views(right.tasks@),
    )) by {
        if lists_alike(task_views(right.tasks@), task_views(left.tasks@)) {
            assert forall|i: int| 0 <= i < task_views(left.tasks@).len() implies tasks_alike(
                #[trigger] task_views(left.tasks@)[i],
                task_views(right.tasks@)[i],
            ) by {
                assert(tasks_alike(task_views(right.tasks@)[i], task_views(left.tasks@)[i]));
            }
        }
    }
}

/// Every slot of an output carries the label of its place: 1 to 5 on the first
/// group of outputs, 6 to 10 on the others.
pub proof fn law_slot_labels(
    workspaces: Seq<WorkspaceInfo>,
    offset: int,
    output: Option<Seq<char>>,
    output_group: u8,
)
    requires
        0 <= offset < 5,
    ensures
        slot_at(workspaces, offset, output, output_group).index == offset + 1 + (
        if output_group == 0 {
            0int
        } else {
            5
        }),
{
}

/// The workspaces of another output do not matter where an output has its own.
pub proof fn law_own_workspace_is_shown(
    workspaces: Seq<WorkspaceInfo>,
    place: int,
    output: Seq<char>,
    output_group: u8,
)
    requires
        0 <= place < workspaces.len(),
        1 <= workspaces[place].index <= 5,
        option_view(workspaces[place].output) == Some(output),
        forall|i: int|
            0 <= i < workspaces.len() && option_view((#[trigger] workspaces[i]).output) == Some(
                output,
            ) && workspaces[i].index == workspaces[place].index ==> i == place,
    ensures
        slot_at(workspaces, workspaces[place].index - 1, Some(output), output_group).id == Some(
            workspaces[place].id,
        ),
{
    lemma_on_output(workspaces, output, workspaces[place].index, place, 0);
}

proof fn lemma_on_output(
    workspaces: Seq<WorkspaceInfo>,
    output: Seq<char>,
    index: u8,
    place: int,
    start: int,
)
    requires
        0 <= start <= place < workspaces.len(),
        workspaces[place].index == index,
        option_view(workspaces[place].output) == Some(output),
        forall|i: int|
            start <= i < workspaces.len() && option_view((#[trigger] workspaces[i]).output) == Some(
                output,
            ) && workspaces[i].index == index ==> i == place,
    ensures
        on_output(workspaces, output, index, start) == Some(place),
    decreases place - start,
{
    if start < place {
        lemma_on_output(workspaces, output, index, place, start + 1);
    }
}

} // verus!
