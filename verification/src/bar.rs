//! The bars of the outputs and what clicks on them do.

pub mod drawer;
pub mod frame;
pub mod laws;
pub mod popup;
pub mod popup_laws;

use vstd::prelude::*;

use crate::niri::{
    content_changed, contents_alike, list_views, lists_alike, slot_at, task_views,
    tasks_of_output, NiriModel, SurfaceContent,
};
use crate::order::{
    lemma_text_order, lemma_text_transitive, option_before, option_comes_before, text_before,
};
use crate::render::layout::{HitTarget, Hitbox};
use crate::text::{copy_option, option_view, same_option};
use crate::tray::{BTN_LEFT, BTN_RIGHT};

verus! {

/// What the compositor tells of an output.
#[derive(Debug)]
pub struct OutputInfo {
    pub name: Option<String>,
    pub position: Option<(i32, i32)>,
    pub size: Option<(i32, i32)>,
    pub scale: i32,
}

/// The scale of an output, at least one.
pub open spec fn output_scale(scale: i32) -> u32 {
    if scale > 1 {
        scale as u32
    } else {
        1
    }
}

pub fn scale_factor(scale: i32) -> (result: u32)
    ensures
        result == output_scale(scale),
{
    if scale > 1 {
        scale as u32
    } else {
        1
    }
}

pub open spec fn position_or_origin(position: Option<(i32, i32)>) -> (i32, i32) {
    match position {
        Some(position) => position,
        None => (0, 0),
    }
}

/// The size of an output without negative lengths; zero where it is unknown.
pub open spec fn known_size(size: Option<(i32, i32)>) -> (u32, u32) {
    match size {
        Some((width, height)) => (
            if width > 0 {
                width as u32
            } else {
                0
            },
            if height > 0 {
                height as u32
            } else {
                0
            },
        ),
        None => (0, 0),
    }
}

fn size_of_output(size: Option<(i32, i32)>) -> (result: (u32, u32))
    ensures
        result == known_size(size),
{
    match size {
        Some((width, height)) => (
            if width > 0 {
                width as u32
            } else {
                0
            },
            if height > 0 {
                height as u32
            } else {
                0
            },
        ),
        None => (0, 0),
    }
}

fn position_of_output(position: Option<(i32, i32)>) -> (result: (i32, i32))
    ensures
        result == position_or_origin(position),
{
    match position {
        Some(position) => position,
        None => (0, 0),
    }
}

/// Where an output is, and its name.
pub ghost struct OutputPlace {
    pub position: (i32, i32),
    pub name: Option<Seq<char>>,
}

/// Whether an output comes before another one: further left, further up, or
/// with an earlier name.
pub open spec fn place_before(left: OutputPlace, right: OutputPlace) -> bool {
    let a = left.position;
    let b = right.position;
    a.0 < b.0 || (a.0 == b.0 && (a.1 < b.1 || (a.1 == b.1 && option_before(
        left.name,
        right.name,
    ))))
}

/// Whether no output comes before one; of equal ones the first is first.
pub open spec fn is_first(outputs: Seq<OutputPlace>, index: int) -> bool {
    forall|i: int|
        0 <= i < outputs.len() && i != index ==> {
            let other = #[trigger] outputs[i];
            !place_before(other, outputs[index]) && (i < index ==> place_before(
                outputs[index],
                other,
            ))
        }
}

/// The group of workspaces of an output: the first output has the first group,
/// all others have the second.
pub open spec fn group_of(outputs: Seq<OutputPlace>, index: int) -> u8 {
    if is_first(outputs, index) {
        0
    } else {
        1
    }
}

/// The surface of a bar and the state of its buffers.
#[derive(Clone, Copy, Debug, PartialEq, Eq, Structural)]
pub struct BarFrame {
    pub logical_width: u32,
    pub logical_height: u32,
    pub scale: u32,
    pub configured: bool,
    pub dirty: bool,
    pub frame_pending: bool,
}

impl BarFrame {
    /// The surface once the compositor has given its size.
    pub open spec fn resized(self, width: u32, height: u32) -> BarFrame {
        BarFrame {
            logical_width: width,
            logical_height: height,
            configured: width > 0,
            dirty: true,
            ..self
        }
    }

    /// The surface at another scale.
    pub open spec fn rescaled(self, scale: u32) -> BarFrame {
        BarFrame { scale, dirty: true, ..self }
    }

    /// The surface once it was drawn.
    pub open spec fn after_drawing(self) -> BarFrame {
        BarFrame { dirty: false, frame_pending: true, ..self }
    }

    /// The surface once what was drawn is shown.
    pub open spec fn after_showing(self) -> BarFrame {
        BarFrame { frame_pending: false, ..self }
    }

    /// Whether the surface is to be drawn.
    pub open spec fn is_due(self) -> bool {
        self.configured && self.dirty && !self.frame_pending
    }
}

/// The bar of an output.
#[derive(Debug)]
pub struct BarState {
    pub output: u64,
    pub output_name: Option<String>,
    pub output_position: (i32, i32),
    pub output_size: (u32, u32),
    pub workspace_group: u8,
    pub content: SurfaceContent,
    pub frame: BarFrame,
    pub hitboxes: Vec<Hitbox>,
}

/// Whether a content is what a model shows on an output.
pub open spec fn content_shows(
    content: SurfaceContent,
    model: NiriModel,
    name: Option<Seq<char>>,
    group: u8,
) -> bool {
    &&& forall|i: int|
        0 <= i < 5 ==> #[trigger] content.workspaces[i] == slot_at(
            model.workspaces.workspaces@,
            i,
            name,
            group,
        )
    &&& lists_alike(
        task_views(content.tasks@),
        tasks_of_output(list_views(model.task_lists@), name, group),
    )
    &&& content.keyboard_layout@ == model.keyboard_layout@
}

impl BarState {
    /// Whether the bar shows what a model tells of its output.
    pub open spec fn shows(&self, model: NiriModel) -> bool {
        content_shows(self.content, model, option_view(self.output_name), self.workspace_group)
    }

    pub open spec fn place(&self) -> OutputPlace {
        OutputPlace { position: self.output_position, name: option_view(self.output_name) }
    }

    /// Whether the bar is another one with another content, and drawn anew if asked.
    pub open spec fn same_but_content(&self, other: &BarState, redraw: bool) -> bool {
        &&& self.output == other.output
        &&& self.output_name == other.output_name
        &&& self.output_position == other.output_position
        &&& self.output_size == other.output_size
        &&& self.hitboxes == other.hitboxes
        &&& self.frame == (BarFrame { dirty: other.frame.dirty || redraw, ..other.frame })
    }

    /// Whether the bar is another one with another group of workspaces.
    pub open spec fn regrouped(&self, other: &BarState, group: u8, model: NiriModel) -> bool {
        &&& self.workspace_group == group
        &&& self.same_but_content(other, group != other.workspace_group)
        &&& if group == other.workspace_group {
            self.content == other.content
        } else {
            self.shows(model)
        }
    }

    /// Whether the bar is another one that shows a model; one that looks the
    /// same is left alone.
    pub open spec fn refreshed(&self, other: &BarState, model: NiriModel) -> bool {
        if other.shows(model) {
            *self == *other
        } else {
            &&& self.workspace_group == other.workspace_group
            &&& self.same_but_content(other, true)
            &&& self.shows(model)
        }
    }

    fn content_of(&self, model: &NiriModel) -> (result: SurfaceContent)
        ensures
            content_shows(
                result,
                *model,
                option_view(self.output_name),
                self.workspace_group,
            ),
            contents_alike(&self.content, &result) == self.shows(*model),
    {
        let name: Option<&str> = match &self.output_name {
            Some(name) => Some(name.as_str()),
            None => None,
        };
        let content = model.surface_content(name, self.workspace_group);
        proof {
            let tasks = tasks_of_output(
                list_views(model.task_lists@),
                option_view(self.output_name),
                self.workspace_group,
            );
            assert(lists_alike(tasks, tasks));
            if contents_alike(&self.content, &content) {
                assert forall|i: int| 0 <= i < 5 implies #[trigger] self.content.workspaces[i]
                    == content.workspaces[i] by {
                    assert(self.content.workspaces@[i] == content.workspaces@[i]);
                }
            }
            if self.shows(*model) {
                assert forall|i: int| 0 <= i < 5 implies #[trigger] self.content.workspaces@[i]
                    == content.workspaces@[i] by {
                    assert(self.content.workspaces[i] == content.workspaces[i]);
                }
                assert(self.content.workspaces@ =~= content.workspaces@);
            }
        }
        content
    }

    fn regroup(self, group: u8, model: &NiriModel) -> (result: BarState)
        ensures
            result.regrouped(&self, group, *model),
    {
        let mut bar = self;
        if bar.workspace_group != group {
            bar.workspace_group = group;
            bar.content = bar.content_of(model);
            bar.frame.dirty = true;
        }
        bar
    }

    fn refresh(self, model: &NiriModel) -> (result: BarState)
        ensures
            result.refreshed(&self, *model),
    {
        let mut bar = self;
        let next = bar.content_of(model);
        if content_changed(Some(&bar.content), &next) {
            bar.content = next;
            bar.frame.dirty = true;
        }
        bar
    }

    /// Whether the bar is to be drawn.
    pub fn needs_drawing(&self) -> (result: bool)
        ensures
            result == self.frame.is_due(),
    {
        self.frame.configured && self.frame.dirty && !self.frame.frame_pending
    }
}

/// What an output is ordered by.
#[derive(Debug)]
pub struct OutputKey {
    pub position: (i32, i32),
    pub name: Option<String>,
}

impl OutputKey {
    pub open spec fn place(&self) -> OutputPlace {
        OutputPlace { position: self.position, name: option_view(self.name) }
    }
}

/// Where outputs are.
pub open spec fn places(outputs: Seq<OutputKey>) -> Seq<OutputPlace> {
    Seq::new(outputs.len(), |i: int| outputs[i].place())
}

proof fn lemma_option_weak(
    a: Option<Seq<char>>,
    b: Option<Seq<char>>,
    c: Option<Seq<char>>,
)
    ensures
        option_before(a, b) && !option_before(c, b) ==> option_before(a, c),
        !option_before(a, a),
        option_before(a, b) ==> !option_before(b, a),
{
    match (a, b) {
        (Some(left), Some(right)) => {
            lemma_text_order(left, right);
            lemma_text_order(left, left);
            if let Some(other) = c {
                lemma_text_order(other, right);
                if text_before(left, right) && text_before(right, other) {
                    lemma_text_transitive(left, right, other);
                }
            }
        },
        (Some(left), None) => {
            lemma_text_order(left, left);
        },
        _ => {},
    }
}

proof fn lemma_place_weak(a: OutputPlace, b: OutputPlace, c: OutputPlace)
    ensures
        place_before(a, b) && !place_before(c, b) ==> place_before(a, c),
        !place_before(a, a),
        place_before(a, b) ==> !place_before(b, a),
{
    lemma_option_weak(a.name, b.name, c.name);
}

fn key_before(left: &OutputKey, right: &OutputKey) -> (result: bool)
    ensures
        result == place_before(left.place(), right.place()),
{
    if left.position.0 != right.position.0 {
        return left.position.0 < right.position.0;
    }
    if left.position.1 != right.position.1 {
        return left.position.1 < right.position.1;
    }
    option_comes_before(&left.name, &right.name)
}

/// The groups of workspaces of outputs, in the order of their places.
pub fn workspace_groups(outputs: &Vec<OutputKey>) -> (result: Vec<u8>)
    ensures
        result@.len() == outputs@.len(),
        forall|i: int|
            0 <= i < outputs@.len() ==> #[trigger] result@[i] == group_of(places(outputs@), i),
{
    let ghost all = places(outputs@);
    let mut groups: Vec<u8> = Vec::new();
    if outputs.len() == 0 {
        return groups;
    }
    let mut first: usize = 0;
    let mut i: usize = 1;
    while i < outputs.len()
        invariant
            1 <= i <= outputs@.len(),
            first < i,
            all == places(outputs@),
            forall|j: int|
                0 <= j < i && j != first ==> {
                    let other = #[trigger] all[j];
                    !place_before(other, all[first as int]) && (j < first ==> place_before(
                        all[first as int],
                        other,
                    ))
                },
        decreases outputs@.len() - i,
    {
        let earlier = key_before(&outputs[i], &outputs[first]);
        proof {
            assert(all[i as int] == outputs@[i as int].place());
            assert(all[first as int] == outputs@[first as int].place());
            if earlier {
                assert forall|j: int| 0 <= j < i + 1 && j != i implies {
                    let other = #[trigger] all[j];
                    !place_before(other, all[i as int]) && (j < i ==> place_before(
                        all[i as int],
                        other,
                    ))
                } by {
                    lemma_place_weak(all[i as int], all[first as int], all[j]);
                    lemma_place_weak(all[i as int], all[j], all[j]);
                }
            }
        }
        if earlier {
            first = i;
        }
        i += 1;
    }
    assert(is_first(all, first as int));
    let mut k: usize = 0;
    while k < outputs.len()
        invariant
            k <= outputs@.len(),
            first < outputs@.len(),
            all == places(outputs@),
            is_first(all, first as int),
            groups@.len() == k,
            forall|j: int| 0 <= j < k ==> #[trigger] groups@[j] == group_of(all, j),
        decreases outputs@.len() - k,
    {
        proof {
            if k != first {
                let ahead = all[first as int];
                let other = all[k as int];
                assert(!place_before(other, ahead));
                if k < first {
                    assert(place_before(ahead, other));
                }
                assert(!is_first(all, k as int));
            }
        }
        groups.push(
            if k == first {
                0
            } else {
                1
            },
        );
        k += 1;
    }
    groups
}

/// Exactly one output has the first group.
pub proof fn law_one_output_is_first(outputs: Seq<OutputPlace>, first: int, second: int)
    requires
        0 <= first < outputs.len(),
        0 <= second < outputs.len(),
        group_of(outputs, first) == 0,
        group_of(outputs, second) == 0,
    ensures
        first == second,
{
    if first != second {
        lemma_place_weak(outputs[first], outputs[second], outputs[first]);
        assert(!place_before(outputs[first], outputs[second]));
        assert(!place_before(outputs[second], outputs[first]));
    }
}

/// Where the outputs of bars are.
pub open spec fn bar_places(bars: Seq<BarState>) -> Seq<OutputPlace> {
    Seq::new(bars.len(), |i: int| bars[i].place())
}

/// Whether bars are others with the groups of workspaces of their places.
pub open spec fn grouped(after: Seq<BarState>, before: Seq<BarState>, model: NiriModel) -> bool {
    &&& after.len() == before.len()
    &&& forall|i: int|
        0 <= i < after.len() ==> (#[trigger] after[i]).regrouped(
            &before[i],
            group_of(bar_places(before), i),
            model,
        )
}

/// Where the bar of an output is, from a place of the list on.
pub open spec fn bar_of(bars: Seq<BarState>, output: u64, start: int) -> Option<int>
    decreases bars.len() - start,
{
    if start < 0 || start >= bars.len() {
        None
    } else if bars[start].output == output {
        Some(start)
    } else {
        bar_of(bars, output, start + 1)
    }
}

/// The bar of an output that has just been added.
pub open spec fn is_new_bar(
    bar: BarState,
    output: u64,
    info: Option<OutputInfo>,
    height: u32,
    model: NiriModel,
) -> bool {
    &&& bar.output == output
    &&& option_view(bar.output_name) == (match info {
        Some(info) => option_view(info.name),
        None => None,
    })
    &&& bar.output_position == (match info {
        Some(info) => position_or_origin(info.position),
        None => (0i32, 0i32),
    })
    &&& bar.output_size == (match info {
        Some(info) => known_size(info.size),
        None => (0u32, 0u32),
    })
    &&& bar.workspace_group == 0
    &&& bar.shows(model)
    &&& bar.frame == BarFrame {
        logical_width: 0,
        logical_height: height,
        scale: match info {
            Some(info) => output_scale(info.scale),
            None => 1,
        },
        configured: false,
        dirty: true,
        frame_pending: false,
    }
    &&& bar.hitboxes@.len() == 0
}

impl BarState {
    /// Whether the bar is another one once its output has changed.
    pub open spec fn updated(&self, other: &BarState, info: OutputInfo, model: NiriModel) -> bool {
        let renamed = option_view(other.output_name) != option_view(info.name);
        let scale = output_scale(info.scale);
        &&& self.output == other.output
        &&& option_view(self.output_name) == option_view(info.name)
        &&& self.output_position == position_or_origin(info.position)
        &&& self.output_size == known_size(info.size)
        &&& self.workspace_group == other.workspace_group
        &&& if renamed {
            self.shows(model)
        } else {
            self.content == other.content
        }
        &&& self.frame == BarFrame {
            scale,
            dirty: other.frame.dirty || renamed || scale != other.frame.scale,
            ..other.frame
        }
        &&& self.hitboxes == other.hitboxes
    }

    fn update(self, info: &OutputInfo, model: &NiriModel) -> (result: BarState)
        ensures
            result.updated(&self, *info, *model),
    {
        let mut bar = self;
        bar.output_position = position_of_output(info.position);
        bar.output_size = size_of_output(info.size);
        let renamed = !same_option(&bar.output_name, &info.name);
        bar.output_name = copy_option(&info.name);
        if renamed {
            bar.content = bar.content_of(model);
            bar.frame.dirty = true;
        }
        let scale: u32 = scale_factor(info.scale);
        if bar.frame.scale != scale {
            bar.frame.scale = scale;
            bar.frame.dirty = true;
        }
        bar
    }
}

/// What becomes of the bars when their visibility is set.
#[derive(Clone, Copy, Debug, PartialEq, Eq, Structural)]
pub enum VisibilityChange {
    Unchanged,
    /// All bars are gone, and with them the space they took.
    Hidden,
    /// The outputs are to be given their bars.
    Shown,
}

/// The bars of all outputs.
#[derive(Debug)]
pub struct Bars {
    pub bars: Vec<BarState>,
    pub hidden: bool,
    /// The configured height of a bar.
    pub height: u32,
}

impl Bars {
    /// No output has two bars, and hidden bars are gone.
    pub open spec fn wf(&self) -> bool {
        &&& forall|i: int, j: int|
            0 <= i < j < self.bars@.len() ==> (#[trigger] self.bars@[i]).output != (
            #[trigger] self.bars@[j]).output
        &&& self.hidden ==> self.bars@.len() == 0
    }

    pub open spec fn same_settings(&self, other: &Bars) -> bool {
        self.hidden == other.hidden && self.height == other.height
    }

    pub fn new(height: u32) -> (result: Self)
        ensures
            result.wf(),
            result.bars@.len() == 0,
            !result.hidden,
            result.height == height,
    {
        Bars { bars: Vec::new(), hidden: false, height }
    }

    pub fn find(&self, output: u64) -> (result: Option<usize>)
        ensures
            match result {
                Some(index) => index < self.bars@.len() && bar_of(self.bars@, output, 0) == Some(
                    index as int,
                ) && self.bars@[index as int].output == output,
                None => bar_of(self.bars@, output, 0) is None && forall|i: int|
                    0 <= i < self.bars@.len() ==> (#[trigger] self.bars@[i]).output != output,
            },
    {
        let mut i: usize = 0;
        while i < self.bars.len()
            invariant
                i <= self.bars@.len(),
                forall|k: int| 0 <= k < i ==> (#[trigger] self.bars@[k]).output != output,
                bar_of(self.bars@, output, 0) == bar_of(self.bars@, output, i as int),
            decreases self.bars@.len() - i,
        {
            if self.bars[i].output == output {
                return Some(i);
            }
            i += 1;
        }
        None
    }

    fn assign_workspace_groups(&mut self, model: &NiriModel)
        requires
            old(self).wf(),
        ensures
            final(self).wf(),
            final(self).same_settings(old(self)),
            grouped(final(self).bars@, old(self).bars@, *model),
    {
        let mut keys: Vec<OutputKey> = Vec::new();
        let mut i: usize = 0;
        while i < self.bars.len()
            invariant
                i <= self.bars@.len(),
                *self == *old(self),
                keys@.len() == i,
                forall|k: int| 0 <= k < i ==> (#[trigger] keys@[k]).place() == self.bars@[k].place(),
            decreases self.bars@.len() - i,
        {
            let bar = &self.bars[i];
            keys.push(
                OutputKey { position: bar.output_position, name: copy_option(&bar.output_name) },
            );
            i += 1;
        }
        assert(places(keys@) =~= bar_places(self.bars@));
        let groups = workspace_groups(&keys);
        let ghost before = self.bars@;
        let mut k: usize = 0;
        while k < self.bars.len()
            invariant
                k <= self.bars@.len(),
                self.bars@.len() == before.len(),
                before == old(self).bars@,
                self.same_settings(old(self)),
                groups@.len() == before.len(),
                forall|j: int|
                    0 <= j < before.len() ==> #[trigger] groups@[j] == group_of(
                        bar_places(before),
                        j,
                    ),
                forall|j: int|
                    0 <= j < k ==> (#[trigger] self.bars@[j]).regrouped(
                        &before[j],
                        group_of(bar_places(before), j),
                        *model,
                    ),
                forall|j: int| k <= j < before.len() ==> #[trigger] self.bars@[j] == before[j],
            decreases self.bars@.len() - k,
        {
            let ghost current = self.bars@;
            let bar = self.bars.remove(k);
            let next = bar.regroup(groups[k], model);
            self.bars.insert(k, next);
            assert(self.bars@ =~= current.update(k as int, next));
            k += 1;
        }
        assert forall|i: int, j: int| 0 <= i < j < self.bars@.len() implies (
        #[trigger] self.bars@[i]).output != (#[trigger] self.bars@[j]).output by {
            assert(self.bars@[i].output == before[i].output);
            assert(self.bars@[j].output == before[j].output);
        }
    }

    /// Gives an output its bar, unless it has one or bars are hidden, and tells
    /// whether it got one.
    pub fn add_output(&mut self, output: u64, info: Option<&OutputInfo>, model: &NiriModel) -> (result:
        bool)
        requires
            old(self).wf(),
        ensures
            final(self).wf(),
            final(self).same_settings(old(self)),
            result == (!old(self).hidden && bar_of(old(self).bars@, output, 0) is None),
            if result {
                exists|bar: BarState|
                    is_new_bar(
                        bar,
                        output,
                        (match info {
                            Some(info) => Some(*info),
                            None => None,
                        }),
                        old(self).height,
                        *model,
                    ) && #[trigger] grouped(
                        final(self).bars@,
                        old(self).bars@.push(bar),
                        *model,
                    )
            } else {
                *final(self) == *old(self)
            },
    {
        if self.hidden || self.find(output).is_some() {
            return false;
        }
        let (name, position, size, scale) = match info {
            Some(info) => (
                copy_option(&info.name),
                position_of_output(info.position),
                size_of_output(info.size),
                scale_factor(info.scale),
            ),
            None => (None, (0, 0), (0, 0), 1),
        };
        let content = {
            let output_name: Option<&str> = match &name {
                Some(name) => Some(name.as_str()),
                None => None,
            };
            model.surface_content(output_name, 0)
        };
        let bar = BarState {
            output,
            output_name: name,
            output_position: position,
            output_size: size,
            workspace_group: 0,
            content,
            frame: BarFrame {
                logical_width: 0,
                logical_height: self.height,
                scale,
                configured: false,
                dirty: true,
                frame_pending: false,
            },
            hitboxes: Vec::new(),
        };
        let ghost new_bar = bar;
        proof {
            let tasks = tasks_of_output(
                list_views(model.task_lists@),
                option_view(bar.output_name),
                0,
            );
            assert(lists_alike(tasks, tasks));
        }
        self.bars.push(bar);
        self.assign_workspace_groups(model);
        true
    }

    /// Takes over what has changed of an output, and tells whether its bar has
    /// another scale.
    pub fn update_output_info(&mut self, output: u64, info: &OutputInfo, model: &NiriModel) -> (result:
        bool)
        requires
            old(self).wf(),
        ensures
            final(self).wf(),
            final(self).same_settings(old(self)),
            match bar_of(old(self).bars@, output, 0) {
                Some(index) => {
                    &&& result == (old(self).bars@[index].frame.scale != output_scale(info.scale))
                    &&& exists|bar: BarState|
                        bar.updated(&old(self).bars@[index], *info, *model)
                            && #[trigger] grouped(
                            final(self).bars@,
                            old(self).bars@.update(index, bar),
                            *model,
                        )
                },
                None => !result && grouped(final(self).bars@, old(self).bars@, *model),
            },
    {
        let mut rescaled = false;
        if let Some(index) = self.find(output) {
            rescaled = self.bars[index].frame.scale != scale_factor(info.scale);
            let ghost current = self.bars@;
            let bar = self.bars.remove(index);
            let next = bar.update(info, model);
            self.bars.insert(index, next);
            assert(self.bars@ =~= current.update(index as int, next));
        }
        self.assign_workspace_groups(model);
        rescaled
    }

    /// Takes the bar of an output away.
    pub fn remove_output(&mut self, output: u64, model: &NiriModel)
        requires
            old(self).wf(),
        ensures
            final(self).wf(),
            final(self).same_settings(old(self)),
            match bar_of(old(self).bars@, output, 0) {
                Some(index) => grouped(
                    final(self).bars@,
                    old(self).bars@.remove(index),
                    *model,
                ),
                None => grouped(final(self).bars@, old(self).bars@, *model),
            },
    {
        if let Some(index) = self.find(output) {
            let ghost before = self.bars@;
            self.bars.remove(index);
            assert(self.bars@ =~= before.remove(index as int));
            assert forall|i: int, j: int| 0 <= i < j < self.bars@.len() implies (
            #[trigger] self.bars@[i]).output != (#[trigger] self.bars@[j]).output by {
                let a: int = if i < index {
                    i
                } else {
                    i + 1
                };
                let b: int = if j < index {
                    j
                } else {
                    j + 1
                };
                assert(self.bars@[i] == before[a] && self.bars@[j] == before[b]);
            }
        }
        self.assign_workspace_groups(model);
    }

    /// Shows what a model tells of the outputs; only bars that look different
    /// are drawn anew.
    pub fn update_niri_model(&mut self, model: &NiriModel)
        requires
            old(self).wf(),
        ensures
            final(self).wf(),
            final(self).same_settings(old(self)),
            final(self).bars@.len() == old(self).bars@.len(),
            forall|i: int|
                0 <= i < final(self).bars@.len() ==> (#[trigger] final(self).bars@[i]).refreshed(
                    &old(self).bars@[i],
                    *model,
                ),
    {
        let ghost before = self.bars@;
        let mut k: usize = 0;
        while k < self.bars.len()
            invariant
                k <= self.bars@.len(),
                self.bars@.len() == before.len(),
                before == old(self).bars@,
                self.same_settings(old(self)),
                forall|j: int|
                    0 <= j < k ==> (#[trigger] self.bars@[j]).refreshed(&before[j], *model),
                forall|j: int| k <= j < before.len() ==> #[trigger] self.bars@[j] == before[j],
            decreases self.bars@.len() - k,
        {
            let ghost current = self.bars@;
            let bar = self.bars.remove(k);
            let next = bar.refresh(model);
            self.bars.insert(k, next);
            assert(self.bars@ =~= current.update(k as int, next));
            k += 1;
        }
        assert forall|i: int, j: int| 0 <= i < j < self.bars@.len() implies (
        #[trigger] self.bars@[i]).output != (#[trigger] self.bars@[j]).output by {
            assert(self.bars@[i].output == before[i].output);
            assert(self.bars@[j].output == before[j].output);
        }
    }

    /// Hides or shows all bars.
    pub fn set_bars_hidden(&mut self, hidden: bool) -> (result: VisibilityChange)
        requires
            old(self).wf(),
        ensures
            final(self).wf(),
            final(self).height == old(self).height,
            final(self).hidden == hidden,
            result == (if hidden == old(self).hidden {
                VisibilityChange::Unchanged
            } else if hidden {
                VisibilityChange::Hidden
            } else {
                VisibilityChange::Shown
            }),
            final(self).bars@ == (if hidden && !old(self).hidden {
                Seq::empty()
            } else {
                old(self).bars@
            }),
    {
        if self.hidden == hidden {
            return VisibilityChange::Unchanged;
        }
        self.hidden = hidden;
        if hidden {
            self.bars.clear();
            VisibilityChange::Hidden
        } else {
            VisibilityChange::Shown
        }
    }
}

/// Every bar goes on showing the model, whatever happens to the outputs.
pub proof fn law_bars_stay_current(
    before: BarState,
    updated: BarState,
    after: BarState,
    info: OutputInfo,
    group: u8,
    model: NiriModel,
)
    requires
        before.shows(model),
        updated.updated(&before, info, model),
        after.regrouped(&updated, group, model),
    ensures
        updated.shows(model),
        after.shows(model),
{
}

/// A new model is shown by every bar, and a bar that already looks like it is
/// not drawn anew.
pub proof fn law_models_are_shown(before: BarState, after: BarState, model: NiriModel)
    requires
        after.refreshed(&before, model),
    ensures
        after.shows(model),
        before.shows(model) ==> after.frame == before.frame,
        !before.shows(model) ==> after.frame.dirty,
{
}

/// A length that the compositor gave, or else another one.
pub open spec fn given_or(given: u32, other: u32) -> u32 {
    if given > 0 {
        given
    } else {
        other
    }
}

/// What a popup is opened below.
#[derive(Clone, Copy, Debug, PartialEq, Eq, Structural)]
pub struct MenuTarget {
    pub bar: usize,
    pub scale: u32,
    pub logical_width: u32,
    /// The height of the output; zero where it is unknown.
    pub logical_height: u32,
    pub local_x: i32,
}

/// Whether a bar covers a point of the desktop.
pub open spec fn covers(bar: BarState, x: int, y: int) -> bool {
    let local_x = x - bar.output_position.0;
    let local_y = y - bar.output_position.1;
    bar.frame.configured && 0 <= local_x < bar.frame.logical_width && 0 <= local_y
        < bar.frame.logical_height
}

/// The distance of a bar's output from a column of the desktop.
pub open spec fn distance(bar: BarState, x: int) -> int {
    let offset = bar.output_position.0 - x;
    if offset < 0 {
        -offset
    } else {
        offset
    }
}

/// Whether a bar is the one below which a popup for a point opens: the first
/// that covers the point, or else the first of the nearest ones.
pub open spec fn is_target(bars: Seq<BarState>, index: int, x: int, y: int) -> bool {
    &&& 0 <= index < bars.len()
    &&& bars[index].frame.configured
    &&& if exists|i: int| 0 <= i < bars.len() && covers(#[trigger] bars[i], x, y) {
        &&& covers(bars[index], x, y)
        &&& forall|i: int| 0 <= i < index ==> !covers(#[trigger] bars[i], x, y)
    } else {
        forall|i: int|
            0 <= i < bars.len() && (#[trigger] bars[i]).frame.configured ==> distance(
                bars[index],
                x,
            ) <= distance(bars[i], x) && (i < index ==> distance(bars[index], x) < distance(
                bars[i],
                x,
            ))
    }
}

/// What is told of a target.
pub open spec fn target_of(bars: Seq<BarState>, index: int, x: int) -> MenuTarget {
    MenuTarget {
        bar: index as usize,
        scale: bars[index].frame.scale,
        logical_width: bars[index].frame.logical_width,
        logical_height: bars[index].output_size.1,
        local_x: (x - bars[index].output_position.0) as i32,
    }
}

/// What the compositor is asked to focus.
#[derive(Debug)]
pub enum FocusCommand {
    Workspace { id: Option<u64>, index: u8, output: Option<String> },
    Window(u64),
}

/// What a click on a bar does.
#[derive(Debug)]
pub enum BarAction {
    Nothing,
    Focus(FocusCommand),
    /// The tray icon at a place was clicked, at a point of the desktop.
    Tray { index: usize, x: i32, y: i32 },
    OpenCalendar,
    OpenWeather,
    OpenNetwork,
}

/// Whether a click at a target of a bar does an action.
pub open spec fn is_action(
    action: BarAction,
    bar: BarState,
    target: Option<HitTarget>,
    button: u32,
    point: (int, int),
    tray_len: int,
    calendar: bool,
) -> bool {
    match target {
        Some(HitTarget::Workspace { id, index }) => if button == BTN_LEFT {
            action matches BarAction::Focus(
                FocusCommand::Workspace { id: focused, index: place, output },
            ) && focused == id && place == index && option_view(output) == option_view(
                bar.output_name,
            )
        } else {
            action is Nothing
        },
        Some(HitTarget::Window(id)) => if button == BTN_LEFT {
            action == BarAction::Focus(FocusCommand::Window(id))
        } else {
            action is Nothing
        },
        Some(HitTarget::Tray(index)) => if index < tray_len {
            action == BarAction::Tray { index, x: point.0 as i32, y: point.1 as i32 }
        } else {
            action is Nothing
        },
        Some(HitTarget::Clock) => if button == BTN_LEFT && calendar {
            action is OpenCalendar
        } else {
            action is Nothing
        },
        Some(HitTarget::Weather) => if button == BTN_LEFT {
            action is OpenWeather
        } else {
            action is Nothing
        },
        Some(HitTarget::Network) => if button == BTN_LEFT {
            action is OpenNetwork
        } else {
            action is Nothing
        },
        _ => action is Nothing,
    }
}

impl BarState {
    /// Whether a point of the bar is a point of the desktop.
    pub open spec fn on_desktop(&self, x: i32, y: i32) -> bool {
        &&& i32::MIN <= self.output_position.0 + x <= i32::MAX
        &&& i32::MIN <= self.output_position.1 + y <= i32::MAX
    }

    /// What a click on the bar does. The point is in logical pixels; `target` is
    /// what it hit, `tray_len` the number of tray icons, and `calendar` whether
    /// the clock opens the calendar.
    pub fn click(
        &self,
        target: Option<HitTarget>,
        button: u32,
        x: i32,
        y: i32,
        tray_len: usize,
        calendar: bool,
    ) -> (result: BarAction)
        requires
            self.on_desktop(x, y),
        ensures
            is_action(
                result,
                *self,
                target,
                button,
                (self.output_position.0 + x, self.output_position.1 + y),
                tray_len as int,
                calendar,
            ),
    {
        match target {
            Some(HitTarget::Workspace { id, index }) => if button == BTN_LEFT {
                BarAction::Focus(
                    FocusCommand::Workspace { id, index, output: copy_option(&self.output_name) },
                )
            } else {
                BarAction::Nothing
            },
            Some(HitTarget::Window(id)) => if button == BTN_LEFT {
                BarAction::Focus(FocusCommand::Window(id))
            } else {
                BarAction::Nothing
            },
            Some(HitTarget::Tray(index)) => if index < tray_len {
                BarAction::Tray {
                    index,
                    x: self.output_position.0 + x,
                    y: self.output_position.1 + y,
                }
            } else {
                BarAction::Nothing
            },
            Some(HitTarget::Clock) => if button == BTN_LEFT && calendar {
                BarAction::OpenCalendar
            } else {
                BarAction::Nothing
            },
            Some(HitTarget::Weather) => if button == BTN_LEFT {
                BarAction::OpenWeather
            } else {
                BarAction::Nothing
            },
            Some(HitTarget::Network) => if button == BTN_LEFT {
                BarAction::OpenNetwork
            } else {
                BarAction::Nothing
            },
            _ => BarAction::Nothing,
        }
    }
}

impl Bars {
    /// Whether only the surface of one bar has changed.
    pub open spec fn reframed(&self, other: &Bars, index: int, frame: BarFrame) -> bool {
        &&& self.same_settings(other)
        &&& self.bars@ == other.bars@.update(index, BarState { frame, ..other.bars@[index] })
    }

    fn set_frame(&mut self, index: usize, frame: BarFrame)
        requires
            old(self).wf(),
            index < old(self).bars@.len(),
        ensures
            final(self).wf(),
            final(self).reframed(old(self), index as int, frame),
    {
        let ghost before = self.bars@;
        let mut bar = self.bars.remove(index);
        bar.frame = frame;
        self.bars.insert(index, bar);
        assert(self.bars@ =~= before.update(
            index as int,
            BarState { frame, ..before[index as int] },
        ));
        assert forall|i: int, j: int| 0 <= i < j < self.bars@.len() implies (
        #[trigger] self.bars@[i]).output != (#[trigger] self.bars@[j]).output by {
            assert(self.bars@[i].output == before[i].output);
            assert(self.bars@[j].output == before[j].output);
        }
    }

    /// The compositor has given a bar its size; zero leaves a length to the bar.
    /// Tells whether the buffers no longer fit.
    pub fn configure(&mut self, index: usize, width: u32, height: u32) -> (result: bool)
        requires
            old(self).wf(),
            index < old(self).bars@.len(),
        ensures
            final(self).wf(),
            ({
                let frame = old(self).bars@[index as int].frame;
                let new_width = given_or(width, frame.logical_width);
                let new_height = given_or(height, old(self).height);
                &&& result == (frame.logical_width != new_width || frame.logical_height
                    != new_height)
                &&& final(self).reframed(
                    old(self),
                    index as int,
                    frame.resized(new_width, new_height),
                )
            }),
    {
        let mut frame = self.bars[index].frame;
        let new_width: u32 = if width > 0 {
            width
        } else {
            frame.logical_width
        };
        let new_height: u32 = if height > 0 {
            height
        } else {
            self.height
        };
        let resized = frame.logical_width != new_width || frame.logical_height != new_height;
        frame.logical_width = new_width;
        frame.logical_height = new_height;
        frame.configured = new_width > 0;
        frame.dirty = true;
        self.set_frame(index, frame);
        resized
    }

    /// A bar has another scale; its buffers no longer fit.
    pub fn rescale(&mut self, index: usize, factor: i32)
        requires
            old(self).wf(),
            index < old(self).bars@.len(),
        ensures
            final(self).wf(),
            final(self).reframed(
                old(self),
                index as int,
                old(self).bars@[index as int].frame.rescaled(output_scale(factor)),
            ),
    {
        let mut frame = self.bars[index].frame;
        frame.scale = scale_factor(factor);
        frame.dirty = true;
        self.set_frame(index, frame);
    }

    /// A bar was drawn; the next drawing waits until it was shown.
    pub fn drawn(&mut self, index: usize)
        requires
            old(self).wf(),
            index < old(self).bars@.len(),
        ensures
            final(self).wf(),
            final(self).reframed(
                old(self),
                index as int,
                old(self).bars@[index as int].frame.after_drawing(),
            ),
    {
        let mut frame = self.bars[index].frame;
        frame.dirty = false;
        frame.frame_pending = true;
        self.set_frame(index, frame);
    }

    /// What was drawn of a bar is shown.
    pub fn frame_done(&mut self, index: usize)
        requires
            old(self).wf(),
            index < old(self).bars@.len(),
        ensures
            final(self).wf(),
            final(self).reframed(
                old(self),
                index as int,
                old(self).bars@[index as int].frame.after_showing(),
            ),
    {
        let mut frame = self.bars[index].frame;
        frame.frame_pending = false;
        self.set_frame(index, frame);
    }

    /// All bars are to be drawn anew.
    pub fn mark_bars_dirty(&mut self)
        requires
            old(self).wf(),
        ensures
            final(self).wf(),
            final(self).same_settings(old(self)),
            final(self).bars@ == Seq::new(
                old(self).bars@.len(),
                |i: int|
                    BarState {
                        frame: BarFrame { dirty: true, ..old(self).bars@[i].frame },
                        ..old(self).bars@[i]
                    },
            ),
    {
        let ghost before = self.bars@;
        let mut i: usize = 0;
        while i < self.bars.len()
            invariant
                i <= self.bars@.len(),
                self.wf(),
                self.same_settings(old(self)),
                before == old(self).bars@,
                self.bars@.len() == before.len(),
                forall|k: int|
                    0 <= k < i ==> #[trigger] self.bars@[k] == (BarState {
                        frame: BarFrame { dirty: true, ..before[k].frame },
                        ..before[k]
                    }),
                forall|k: int| i <= k < before.len() ==> #[trigger] self.bars@[k] == before[k],
            decreases self.bars@.len() - i,
        {
            let mut frame = self.bars[i].frame;
            frame.dirty = true;
            self.set_frame(i, frame);
            i += 1;
        }
        assert(self.bars@ =~= Seq::new(
            before.len(),
            |i: int|
                BarState {
                    frame: BarFrame { dirty: true, ..before[i].frame },
                    ..before[i]
                },
        ));
    }

    /// Whether a point of the desktop is not too far from any output.
    pub open spec fn in_reach(&self, x: i32, y: i32) -> bool {
        forall|i: int|
            0 <= i < self.bars@.len() ==> {
                let position = (#[trigger] self.bars@[i]).output_position;
                &&& -i32::MAX <= x - position.0 <= i32::MAX
                &&& -i32::MAX <= y - position.1 <= i32::MAX
            }
    }

    fn first_cover(&self, x: i32, y: i32) -> (result: Option<usize>)
        ensures
            match result {
                Some(index) => {
                    &&& index < self.bars@.len()
                    &&& covers(self.bars@[index as int], x as int, y as int)
                    &&& forall|i: int|
                        0 <= i < index ==> !covers(#[trigger] self.bars@[i], x as int, y as int)
                },
                None => forall|i: int|
                    0 <= i < self.bars@.len() ==> !covers(
                        #[trigger] self.bars@[i],
                        x as int,
                        y as int,
                    ),
            },
    {
        let mut i: usize = 0;
        while i < self.bars.len()
            invariant
                i <= self.bars@.len(),
                forall|k: int|
                    0 <= k < i ==> !covers(#[trigger] self.bars@[k], x as int, y as int),
            decreases self.bars@.len() - i,
        {
            let bar = &self.bars[i];
            let local_x: i64 = x as i64 - bar.output_position.0 as i64;
            let local_y: i64 = y as i64 - bar.output_position.1 as i64;
            if bar.frame.configured && local_x >= 0 && local_y >= 0 && local_x
                < bar.frame.logical_width as i64 && local_y < bar.frame.logical_height as i64 {
                return Some(i);
            }
            i += 1;
        }
        None
    }

    fn nearest(&self, x: i32) -> (result: Option<usize>)
        ensures
            match result {
                Some(index) => {
                    &&& index < self.bars@.len()
                    &&& self.bars@[index as int].frame.configured
                    &&& forall|i: int|
                        0 <= i < self.bars@.len() && (#[trigger] self.bars@[i]).frame.configured
                            ==> distance(self.bars@[index as int], x as int) <= distance(
                            self.bars@[i],
                            x as int,
                        ) && (i < index ==> distance(self.bars@[index as int], x as int)
                            < distance(self.bars@[i], x as int))
                },
                None => forall|i: int|
                    0 <= i < self.bars@.len() ==> !(#[trigger] self.bars@[i]).frame.configured,
            },
    {
        let mut best: Option<usize> = None;
        let mut least: i64 = 0;
        let mut i: usize = 0;
        while i < self.bars.len()
            invariant
                i <= self.bars@.len(),
                match best {
                    Some(index) => {
                        &&& index < i
                        &&& self.bars@[index as int].frame.configured
                        &&& least == distance(self.bars@[index as int], x as int)
                        &&& forall|k: int|
                            0 <= k < i && (#[trigger] self.bars@[k]).frame.configured ==> least
                                <= distance(self.bars@[k], x as int) && (k < index ==> least
                                < distance(self.bars@[k], x as int))
                    },
                    None => forall|k: int|
                        0 <= k < i ==> !(#[trigger] self.bars@[k]).frame.configured,
                },
            decreases self.bars@.len() - i,
        {
            let bar = &self.bars[i];
            if bar.frame.configured {
                let offset: i64 = bar.output_position.0 as i64 - x as i64;
                let away: i64 = if offset < 0 {
                    -offset
                } else {
                    offset
                };
                if best.is_none() || away < least {
                    best = Some(i);
                    least = away;
                }
            }
            i += 1;
        }
        best
    }

    /// The bar below which a popup for a point of the desktop opens.
    pub fn menu_target(&self, x: i32, y: i32) -> (result: Option<MenuTarget>)
        requires
            self.in_reach(x, y),
        ensures
            match result {
                Some(target) => is_target(self.bars@, target.bar as int, x as int, y as int)
                    && target == target_of(self.bars@, target.bar as int, x as int),
                None => forall|i: int|
                    0 <= i < self.bars@.len() ==> !(#[trigger] self.bars@[i]).frame.configured,
            },
    {
        let index = match self.first_cover(x, y) {
            Some(index) => {
                assert(covers(self.bars@[index as int], x as int, y as int));
                index
            },
            None => match self.nearest(x) {
                Some(index) => index,
                None => return None,
            },
        };
        let bar = &self.bars[index];
        assert(self.bars@[index as int].output_position == bar.output_position);
        Some(
            MenuTarget {
                bar: index,
                scale: bar.frame.scale,
                logical_width: bar.frame.logical_width,
                logical_height: bar.output_size.1,
                local_x: x - bar.output_position.0,
            },
        )
    }
}

/// A press that may be followed by a tray menu.
#[derive(Clone, Copy, Debug, PartialEq, Eq, Structural)]
pub struct PendingGrab {
    pub serial: u32,
    pub x: i32,
    pub y: i32,
}

/// Whether a tray menu belongs to the last press.
#[derive(Clone, Copy, Debug, PartialEq, Eq, Structural)]
pub enum GrabCheck {
    Missing,
    Stale,
    /// It does; the press can be used for one menu only.
    Matching(u32),
}

/// The press that may be followed by a menu, after a button was pressed.
pub open spec fn grab_of(button: u32, serial: u32, point: Option<(i32, i32)>) -> Option<
    PendingGrab,
> {
    match point {
        Some((x, y)) => if button == BTN_RIGHT {
            Some(PendingGrab { serial, x, y })
        } else {
            None
        },
        None => None,
    }
}

/// What the last press was once a button was pressed: only one of the right
/// button on a bar, at a point of the desktop, can be followed by a menu.
pub fn pending_grab(button: u32, serial: u32, point: Option<(i32, i32)>) -> (result: Option<
    PendingGrab,
>)
    ensures
        result == grab_of(button, serial, point),
{
    match point {
        Some((x, y)) => if button == BTN_RIGHT {
            Some(PendingGrab { serial, x, y })
        } else {
            None
        },
        None => None,
    }
}

/// What a tray menu for a point is to the last press.
pub open spec fn grab_at(pending: Option<PendingGrab>, x: i32, y: i32) -> GrabCheck {
    match pending {
        None => GrabCheck::Missing,
        Some(grab) => if grab.x == x && grab.y == y {
            GrabCheck::Matching(grab.serial)
        } else {
            GrabCheck::Stale
        },
    }
}

/// Whether a tray menu for a point belongs to the last press.
pub fn check_grab(pending: Option<PendingGrab>, x: i32, y: i32) -> (result: GrabCheck)
    ensures
        result == grab_at(pending, x, y),
{
    match pending {
        None => GrabCheck::Missing,
        Some(grab) => if grab.x == x && grab.y == y {
            GrabCheck::Matching(grab.serial)
        } else {
            GrabCheck::Stale
        },
    }
}

} // verus!
