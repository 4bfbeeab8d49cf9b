//! What is kept of texts and icons that have been drawn.

use std::collections::HashMap;

use vstd::prelude::*;

use crate::config::Config;
use crate::network::NetworkKind;
use crate::niri::{ApplicationIcon, WORKSPACE_LABELS};
use crate::render::bar::{draw, BarPlan, RenderContent};
use crate::render::layout::{has_colors, larger, Style};
use crate::render::pixels::{can_scale, is_scaled, scale_pixels, Bitmap};
use crate::text::{chars_of, option_view, same_text, string_of, trim, trimmed};
use crate::tray::TrayIcon;
use crate::weather::Condition;

verus! {

/// The most entries of a cache; when it is full, the older half is dropped.
pub const MAX_CACHE_ITEMS: usize = 512;

/// A cache with room for one more entry.
pub open spec fn roomy<T>(entries: Seq<T>) -> Seq<T> {
    if entries.len() >= MAX_CACHE_ITEMS {
        entries.skip(MAX_CACHE_ITEMS as int / 2)
    } else {
        entries
    }
}

pub fn trim_cache<T>(cache: &mut Vec<T>)
    ensures
        final(cache)@ == roomy(old(cache)@),
{
    if cache.len() >= MAX_CACHE_ITEMS {
        let ghost all = cache@;
        let mut rest = cache.split_off(MAX_CACHE_ITEMS / 2);
        assert(rest@ =~= all.skip(MAX_CACHE_ITEMS as int / 2));
        std::mem::swap(cache, &mut rest);
    }
}

/// A cache with room never holds more than its most entries, and keeps the
/// newer ones in order.
pub proof fn law_caches_stay_small<T>(entries: Seq<T>, entry: T)
    requires
        entries.len() <= MAX_CACHE_ITEMS,
    ensures
        roomy(entries).push(entry).len() <= MAX_CACHE_ITEMS,
        roomy(entries).push(entry).last() == entry,
{
}

fn same_color(left: [u8; 4], right: [u8; 4]) -> (result: bool)
    ensures
        result == (left@ == right@),
{
    let same = left[0] == right[0] && left[1] == right[1] && left[2] == right[2] && left[3]
        == right[3];
    assert(same == (left@ =~= right@));
    same
}

/// Something that is kept of a window.
pub trait OfWindow: Sized {
    spec fn window(&self) -> u64;

    fn window_id(&self) -> (result: u64)
        ensures
            result == self.window(),
    ;
}

/// The entries of other windows, among the first `count`.
pub open spec fn of_others<T: OfWindow>(entries: Seq<T>, id: u64, count: int) -> Seq<T>
    decreases count,
{
    if count <= 0 {
        Seq::empty()
    } else {
        let before = of_others(entries, id, count - 1);
        if entries[count - 1].window() != id {
            before.push(entries[count - 1])
        } else {
            before
        }
    }
}

/// Drops what is kept of a window.
pub fn evict<T: OfWindow>(entries: &mut Vec<T>, id: u64)
    ensures
        final(entries)@ == of_others(old(entries)@, id, old(entries)@.len() as int),
{
    let ghost all = entries@;
    let ghost mut seen: int = 0;
    let mut i: usize = 0;
    assert(Seq::<T>::empty() + all.skip(0) =~= all);
    while i < entries.len()
        invariant
            all == old(entries)@,
            0 <= seen <= all.len(),
            i == of_others(all, id, seen).len(),
            i <= entries@.len(),
            entries@ == of_others(all, id, seen) + all.skip(seen),
        decreases all.len() - seen,
    {
        let ghost before = of_others(all, id, seen);
        assert(entries@[i as int] == all[seen]);
        if entries[i].window_id() == id {
            entries.remove(i);
            assert(entries@ =~= before + all.skip(seen + 1));
        } else {
            assert(before + all.skip(seen) =~= before.push(all[seen]) + all.skip(seen + 1));
            i += 1;
        }
        proof {
            seen = seen + 1;
        }
    }
    assert(seen == all.len());
    assert(entries@ =~= of_others(all, id, seen));
}

/// Nothing is left of a window that was evicted, and nothing else is lost.
pub proof fn law_evicted_windows_are_gone<T: OfWindow>(entries: Seq<T>, id: u64, count: int, i: int)
    requires
        0 <= count <= entries.len(),
    ensures
        0 <= i < of_others(entries, id, count).len() ==> of_others(entries, id, count)[i].window()
            != id,
        0 <= i < count && entries[i].window() != id ==> of_others(entries, id, count).contains(
            entries[i],
        ),
    decreases count,
{
    if count > 0 {
        law_evicted_windows_are_gone(entries, id, count - 1, i);
        let before = of_others(entries, id, count - 1);
        let after = of_others(entries, id, count);
        if 0 <= i < count && entries[i].window() != id {
            if i == count - 1 {
                assert(after.last() == entries[i]);
                assert(after.contains(entries[i]));
            } else {
                let place = choose|k: int| 0 <= k < before.len() && before[k] == entries[i];
                assert(after[place] == entries[i]);
            }
        }
    }
}

/// The label of a task, drawn for a scale.
#[derive(Debug)]
pub struct TaskTextBitmap {
    pub id: u64,
    pub label: String,
    pub scale: u32,
    pub color: [u8; 4],
    pub natural_width: u32,
    /// The width that the label was shortened for.
    pub width_limit: Option<u32>,
    pub bitmap: Bitmap,
}

impl OfWindow for TaskTextBitmap {
    open spec fn window(&self) -> u64 {
        self.id
    }

    fn window_id(&self) -> (result: u64) {
        self.id
    }
}

/// Where the label of a task is, from a place of the cache on.
pub open spec fn label_place(
    entries: Seq<TaskTextBitmap>,
    id: u64,
    scale: u32,
    start: int,
) -> Option<int>
    decreases entries.len() - start,
{
    if start < 0 || start >= entries.len() {
        None
    } else if entries[start].id == id && entries[start].scale == scale {
        Some(start)
    } else {
        label_place(entries, id, scale, start + 1)
    }
}

/// Whether a label can be used as it is.
#[derive(Clone, Copy, Debug, PartialEq, Eq, Structural)]
pub enum CacheState {
    Fresh(usize),
    /// It is to be drawn and stored anew.
    Stale,
}

/// The drawn labels of tasks.
#[derive(Debug)]
pub struct TaskLabels {
    pub entries: Vec<TaskTextBitmap>,
}

impl TaskLabels {
    fn find(&self, id: u64, scale: u32) -> (result: Option<usize>)
        ensures
            match result {
                Some(index) => index < self.entries@.len() && label_place(
                    self.entries@,
                    id,
                    scale,
                    0,
                ) == Some(index as int),
                None => label_place(self.entries@, id, scale, 0) is None,
            },
    {
        let mut i: usize = 0;
        while i < self.entries.len()
            invariant
                i <= self.entries@.len(),
                label_place(self.entries@, id, scale, 0) == label_place(
                    self.entries@,
                    id,
                    scale,
                    i as int,
                ),
            decreases self.entries@.len() - i,
        {
            if self.entries[i].id == id && self.entries[i].scale == scale {
                return Some(i);
            }
            i += 1;
        }
        None
    }

    /// Whether the label of a task is drawn with its text and color.
    pub fn ensure_task_label(&self, id: u64, label: &str, scale: u32, color: [u8; 4]) -> (result:
        CacheState)
        ensures
            result == (match label_place(self.entries@, id, scale, 0) {
                Some(index) => if self.entries@[index].label@ == label@
                    && self.entries@[index].color@ == color@ {
                    CacheState::Fresh(index as usize)
                } else {
                    CacheState::Stale
                },
                None => CacheState::Stale,
            }),
    {
        match self.find(id, scale) {
            Some(index) => {
                let entry = &self.entries[index];
                if same_text(entry.label.as_str(), label) && same_color(entry.color, color) {
                    CacheState::Fresh(index)
                } else {
                    CacheState::Stale
                }
            },
            None => CacheState::Stale,
        }
    }

    /// Keeps a drawn label in place of an older one of its task.
    pub fn store(&mut self, id: u64, label: String, scale: u32, color: [u8; 4], bitmap: Bitmap) -> (result:
        usize)
        ensures
            ({
                let entry = TaskTextBitmap {
                    id,
                    label,
                    scale,
                    color,
                    natural_width: bitmap.width,
                    width_limit: None,
                    bitmap,
                };
                match label_place(old(self).entries@, id, scale, 0) {
                    Some(index) => {
                        &&& result == index
                        &&& final(self).entries@ == old(self).entries@.update(index, entry)
                    },
                    None => {
                        &&& result == roomy(old(self).entries@).len()
                        &&& final(self).entries@ == roomy(old(self).entries@).push(entry)
                    },
                }
            }),
    {
        let entry = TaskTextBitmap {
            id,
            label,
            scale,
            color,
            natural_width: bitmap.width,
            width_limit: None,
            bitmap,
        };
        match self.find(id, scale) {
            Some(index) => {
                self.entries.set(index, entry);
                index
            },
            None => {
                trim_cache(&mut self.entries);
                self.entries.push(entry);
                self.entries.len() - 1
            },
        }
    }

    /// The width that a label is to be shortened for: the given one, if the
    /// label is wider.
    pub open spec fn limit_for(&self, index: int, limit: Option<u32>) -> Option<u32> {
        match limit {
            Some(limit) => if self.entries@[index].natural_width > limit {
                Some(limit)
            } else {
                None
            },
            None => None,
        }
    }

    /// The width that a label is to be drawn for, unless it is drawn for it:
    /// nothing is left to do, or the label is to be drawn whole or shortened.
    pub fn cached_task_label(&self, index: usize, limit: Option<u32>) -> (result: Option<Option<u32>>)
        requires
            index < self.entries@.len(),
        ensures
            result == (if self.entries@[index as int].width_limit == self.limit_for(
                index as int,
                limit,
            ) {
                None
            } else {
                Some(self.limit_for(index as int, limit))
            }),
    {
        let wanted = match limit {
            Some(limit) => if self.entries[index].natural_width > limit {
                Some(limit)
            } else {
                None
            },
            None => None,
        };
        let drawn = match (self.entries[index].width_limit, wanted) {
            (Some(drawn), Some(wanted)) => drawn == wanted,
            (None, None) => true,
            _ => false,
        };
        if drawn {
            None
        } else {
            Some(wanted)
        }
    }

    /// Keeps a label that was drawn for a width.
    pub fn store_limited(&mut self, index: usize, limit: Option<u32>, bitmap: Bitmap)
        requires
            index < old(self).entries@.len(),
        ensures
            final(self).entries@ == old(self).entries@.update(
                index as int,
                (TaskTextBitmap {
                    width_limit: limit,
                    bitmap,
                    ..old(self).entries@[index as int]
                }),
            ),
    {
        let ghost before = self.entries@;
        let mut entry = self.entries.remove(index);
        entry.width_limit = limit;
        entry.bitmap = bitmap;
        self.entries.insert(index, entry);
        assert(self.entries@ =~= before.update(index as int, entry));
    }
}

/// The width that the label of a task is limited to: the first and the last
/// task are no wider than the narrower of the two, so that they are balanced.
pub open spec fn edge_limit(first_width: u32, last_width: u32, index: int, count: int) -> Option<
    u32,
> {
    if count > 1 && (index == 0 || index + 1 == count) {
        Some(
            if first_width < last_width {
                first_width
            } else {
                last_width
            },
        )
    } else {
        None
    }
}

pub fn label_limit(first_width: u32, last_width: u32, index: usize, count: usize) -> (result: Option<
    u32,
>)
    requires
        index < count,
    ensures
        result == edge_limit(first_width, last_width, index as int, count as int),
{
    if count > 1 && (index == 0 || index == count - 1) {
        Some(
            if first_width < last_width {
                first_width
            } else {
                last_width
            },
        )
    } else {
        None
    }
}

/// The labels of the first and the last task get the same limit, which one of
/// them meets as it is; the labels between have none.
pub proof fn law_edge_labels_are_balanced(
    first_width: u32,
    last_width: u32,
    index: int,
    count: int,
)
    requires
        count > 1,
        0 <= index < count,
    ensures
        edge_limit(first_width, last_width, 0, count) == edge_limit(
            first_width,
            last_width,
            count - 1,
            count,
        ),
        edge_limit(first_width, last_width, 0, count) == Some(first_width) || edge_limit(
            first_width,
            last_width,
            0,
            count,
        ) == Some(last_width),
        0 < index < count - 1 ==> edge_limit(first_width, last_width, index, count) is None,
{
}

/// The icon of a task, scaled.
#[derive(Debug)]
pub struct TaskIconBitmap {
    pub id: u64,
    pub scale: u32,
    pub revision: u64,
    pub pixels: Vec<u8>,
}

impl OfWindow for TaskIconBitmap {
    open spec fn window(&self) -> u64 {
        self.id
    }

    fn window_id(&self) -> (result: u64) {
        self.id
    }
}

/// Where the icon of a task is, from a place of the cache on.
pub open spec fn task_icon_place(
    entries: Seq<TaskIconBitmap>,
    id: u64,
    scale: u32,
    start: int,
) -> Option<int>
    decreases entries.len() - start,
{
    if start < 0 || start >= entries.len() {
        None
    } else if entries[start].id == id && entries[start].scale == scale {
        Some(start)
    } else {
        task_icon_place(entries, id, scale, start + 1)
    }
}

/// The scaled icons of tasks.
#[derive(Debug)]
pub struct TaskIcons {
    pub entries: Vec<TaskIconBitmap>,
}

/// Whether an entry is the icon of a task, scaled.
pub open spec fn holds_icon(
    entry: TaskIconBitmap,
    id: u64,
    scale: u32,
    icon: ApplicationIcon,
    target_size: u32,
) -> bool {
    &&& entry.id == id
    &&& entry.scale == scale
    &&& entry.revision == icon.revision
    &&& is_scaled(entry.pixels@, icon.pixels@, icon.width, icon.height, target_size)
}

impl TaskIcons {
    /// The place of the scaled icon of a task; it is scaled only if it is not
    /// there with its revision.
    pub fn cached_task_icon(&mut self, id: u64, icon: &ApplicationIcon, scale: u32, target_size: u32) -> (result:
        usize)
        requires
            can_scale(icon.pixels@, icon.width, icon.height, target_size),
        ensures
            result < final(self).entries@.len(),
            match task_icon_place(old(self).entries@, id, scale, 0) {
                Some(index) => {
                    &&& result == index
                    &&& if old(self).entries@[index].revision == icon.revision {
                        final(self).entries@ == old(self).entries@
                    } else {
                        &&& holds_icon(
                            final(self).entries@[index],
                            id,
                            scale,
                            *icon,
                            target_size,
                        )
                        &&& final(self).entries@ == old(self).entries@.update(
                            index,
                            final(self).entries@[index],
                        )
                    }
                },
                None => {
                    &&& result == roomy(old(self).entries@).len()
                    &&& holds_icon(
                        final(self).entries@[result as int],
                        id,
                        scale,
                        *icon,
                        target_size,
                    )
                    &&& final(self).entries@ == roomy(old(self).entries@).push(
                        final(self).entries@[result as int],
                    )
                },
            },
    {
        let mut i: usize = 0;
        while i < self.entries.len()
            invariant
                i <= self.entries@.len(),
                *self == *old(self),
                can_scale(icon.pixels@, icon.width, icon.height, target_size),
                task_icon_place(self.entries@, id, scale, 0) == task_icon_place(
                    self.entries@,
                    id,
                    scale,
                    i as int,
                ),
            decreases self.entries@.len() - i,
        {
            if self.entries[i].id == id && self.entries[i].scale == scale {
                if self.entries[i].revision != icon.revision {
                    let pixels = scale_pixels(&icon.pixels, icon.width, icon.height, target_size);
                    let ghost before = self.entries@;
                    let entry = TaskIconBitmap { id, scale, revision: icon.revision, pixels };
                    self.entries.set(i, entry);
                    assert(self.entries@ =~= before.update(i as int, entry));
                }
                return i;
            }
            i += 1;
        }
        let pixels = scale_pixels(&icon.pixels, icon.width, icon.height, target_size);
        trim_cache(&mut self.entries);
        self.entries.push(TaskIconBitmap { id, scale, revision: icon.revision, pixels });
        self.entries.len() - 1
    }
}

/// A tray icon, scaled.
#[derive(Debug)]
pub struct IconBitmap {
    pub id: String,
    pub scale: u32,
    pub revision: u64,
    pub pixels: Vec<u8>,
}

/// Where a tray icon is, from a place of the cache on.
pub open spec fn tray_icon_place(
    entries: Seq<IconBitmap>,
    id: Seq<char>,
    scale: u32,
    start: int,
) -> Option<int>
    decreases entries.len() - start,
{
    if start < 0 || start >= entries.len() {
        None
    } else if entries[start].id@ == id && entries[start].scale == scale {
        Some(start)
    } else {
        tray_icon_place(entries, id, scale, start + 1)
    }
}

/// Whether an entry is a tray icon, scaled.
pub open spec fn holds_tray_icon(
    entry: IconBitmap,
    scale: u32,
    icon: TrayIcon,
    target_size: u32,
) -> bool {
    &&& entry.id@ == icon.id@
    &&& entry.scale == scale
    &&& entry.revision == icon.revision
    &&& is_scaled(entry.pixels@, icon.pixels@, icon.width, icon.height, target_size)
}

/// Whether a tray has an icon.
pub open spec fn in_tray(tray: Seq<TrayIcon>, id: Seq<char>) -> bool {
    exists|i: int| 0 <= i < tray.len() && (#[trigger] tray[i]).id@ == id
}

/// The entries of icons that are in a tray, among the first `count`.
pub open spec fn still_in_tray(
    entries: Seq<IconBitmap>,
    tray: Seq<TrayIcon>,
    count: int,
) -> Seq<IconBitmap>
    decreases count,
{
    if count <= 0 {
        Seq::empty()
    } else {
        let before = still_in_tray(entries, tray, count - 1);
        if in_tray(tray, entries[count - 1].id@) {
            before.push(entries[count - 1])
        } else {
            before
        }
    }
}

fn tray_has(tray: &Vec<TrayIcon>, id: &str) -> (result: bool)
    ensures
        result == in_tray(tray@, id@),
{
    let mut i: usize = 0;
    while i < tray.len()
        invariant
            i <= tray@.len(),
            forall|k: int| 0 <= k < i ==> (#[trigger] tray@[k]).id@ != id@,
        decreases tray@.len() - i,
    {
        if same_text(tray[i].id.as_str(), id) {
            return true;
        }
        i += 1;
    }
    false
}

/// The scaled tray icons.
#[derive(Debug)]
pub struct TrayIcons {
    pub entries: Vec<IconBitmap>,
}

impl TrayIcons {
    /// The place of a scaled tray icon; it is scaled only if it is not there
    /// with its revision.
    pub fn cached_icon(&mut self, icon: &TrayIcon, scale: u32, target_size: u32) -> (result: usize)
        requires
            can_scale(icon.pixels@, icon.width, icon.height, target_size),
        ensures
            result < final(self).entries@.len(),
            match tray_icon_place(old(self).entries@, icon.id@, scale, 0) {
                Some(index) => {
                    &&& result == index
                    &&& if old(self).entries@[index].revision == icon.revision {
                        final(self).entries@ == old(self).entries@
                    } else {
                        &&& holds_tray_icon(
                            final(self).entries@[index],
                            scale,
                            *icon,
                            target_size,
                        )
                        &&& final(self).entries@ == old(self).entries@.update(
                            index,
                            final(self).entries@[index],
                        )
                    }
                },
                None => {
                    &&& result == old(self).entries@.len()
                    &&& holds_tray_icon(
                        final(self).entries@[result as int],
                        scale,
                        *icon,
                        target_size,
                    )
                    &&& final(self).entries@ == old(self).entries@.push(
                        final(self).entries@[result as int],
                    )
                },
            },
    {
        let mut i: usize = 0;
        while i < self.entries.len()
            invariant
                i <= self.entries@.len(),
                *self == *old(self),
                can_scale(icon.pixels@, icon.width, icon.height, target_size),
                tray_icon_place(self.entries@, icon.id@, scale, 0) == tray_icon_place(
                    self.entries@,
                    icon.id@,
                    scale,
                    i as int,
                ),
            decreases self.entries@.len() - i,
        {
            if same_text(self.entries[i].id.as_str(), icon.id.as_str()) && self.entries[i].scale
                == scale {
                if self.entries[i].revision != icon.revision {
                    let pixels = scale_pixels(&icon.pixels, icon.width, icon.height, target_size);
                    let ghost before = self.entries@;
                    let entry = IconBitmap {
                        id: icon.id.clone(),
                        scale,
                        revision: icon.revision,
                        pixels,
                    };
                    self.entries.set(i, entry);
                    assert(self.entries@ =~= before.update(i as int, entry));
                }
                return i;
            }
            i += 1;
        }
        let pixels = scale_pixels(&icon.pixels, icon.width, icon.height, target_size);
        self.entries.push(
            IconBitmap { id: icon.id.clone(), scale, revision: icon.revision, pixels },
        );
        self.entries.len() - 1
    }

    /// Drops the icons that have left the tray, of every scale.
    pub fn retain(&mut self, tray: &Vec<TrayIcon>)
        ensures
            final(self).entries@ == still_in_tray(
                old(self).entries@,
                tray@,
                old(self).entries@.len() as int,
            ),
    {
        let ghost all = self.entries@;
        let ghost mut seen: int = 0;
        let mut i: usize = 0;
        assert(Seq::<IconBitmap>::empty() + all.skip(0) =~= all);
        while i < self.entries.len()
            invariant
                all == old(self).entries@,
                0 <= seen <= all.len(),
                i == still_in_tray(all, tray@, seen).len(),
                i <= self.entries@.len(),
                self.entries@ == still_in_tray(all, tray@, seen) + all.skip(seen),
            decreases all.len() - seen,
        {
            let ghost before = still_in_tray(all, tray@, seen);
            assert(self.entries@[i as int] == all[seen]);
            if tray_has(tray, self.entries[i].id.as_str()) {
                assert(before + all.skip(seen) =~= before.push(all[seen]) + all.skip(seen + 1));
                i += 1;
            } else {
                self.entries.remove(i);
                assert(self.entries@ =~= before + all.skip(seen + 1));
            }
            proof {
                seen = seen + 1;
            }
        }
        assert(self.entries@ =~= still_in_tray(all, tray@, seen));
    }
}

/// Every kept icon is in the tray.
pub proof fn law_kept_icons_are_in_the_tray(
    entries: Seq<IconBitmap>,
    tray: Seq<TrayIcon>,
    count: int,
    i: int,
)
    requires
        0 <= i < still_in_tray(entries, tray, count).len(),
    ensures
        in_tray(tray, still_in_tray(entries, tray, count)[i].id@),
    decreases count,
{
    if count > 0 && i < still_in_tray(entries, tray, count - 1).len() {
        law_kept_icons_are_in_the_tray(entries, tray, count - 1, i);
    }
}

/// The clock, drawn for a scale.
#[derive(Debug)]
pub struct ClockBitmap {
    pub text: String,
    pub bitmap: Bitmap,
}

/// The drawn clocks, by their scale.
#[derive(Debug)]
pub struct Clocks {
    pub entries: HashMap<u32, ClockBitmap>,
}

impl Clocks {
    /// Whether the clock of a scale is to be drawn.
    pub fn stale(&self, text: &str, scale: u32) -> (result: bool)
        ensures
            result == !(self.entries@.contains_key(scale) && self.entries@[scale].text@ == text@),
    {
        broadcast use vstd::std_specs::hash::group_hash_axioms;

        match self.entries.get(&scale) {
            Some(clock) => !same_text(clock.text.as_str(), text),
            None => true,
        }
    }

    pub fn store(&mut self, text: String, scale: u32, bitmap: Bitmap)
        ensures
            final(self).entries@ == old(self).entries@.insert(
                scale,
                (ClockBitmap { text, bitmap }),
            ),
    {
        broadcast use vstd::std_specs::hash::group_hash_axioms;

        self.entries.insert(scale, ClockBitmap { text, bitmap });
    }
}

/// The keyboard layout, drawn.
#[derive(Debug)]
pub struct KeyboardBitmap {
    pub text: String,
    pub scale: u32,
    pub color: [u8; 4],
    /// The width that is kept free for any layout.
    pub reserved_width: u32,
    pub bitmap: Bitmap,
}

/// The drawn keyboard layout.
#[derive(Debug)]
pub struct KeyboardCache {
    pub entry: Option<KeyboardBitmap>,
}

/// Whether a keyboard layout is drawn.
pub open spec fn layout_drawn(
    entry: Option<KeyboardBitmap>,
    text: Seq<char>,
    scale: u32,
    color: [u8; 4],
) -> bool {
    entry matches Some(entry) && entry.text@ == text && entry.scale == scale && entry.color@
        == color@
}

impl KeyboardCache {
    /// The text that is to be drawn for a layout, if any: a blank one is not
    /// shown, and one that is drawn need not be drawn again.
    pub fn cache_keyboard_layout(&mut self, text: &str, scale: u32, color: [u8; 4]) -> (result:
        Option<String>)
        ensures
            if trimmed(text@).len() == 0 {
                result is None && final(self).entry is None
            } else {
                &&& *final(self) == *old(self)
                &&& option_view(result) == (if layout_drawn(
                    old(self).entry,
                    trimmed(text@),
                    scale,
                    color,
                ) {
                    None
                } else {
                    Some(trimmed(text@))
                })
            },
    {
        let characters = chars_of(text);
        let bare = trim(characters.as_slice());
        if bare.len() == 0 {
            self.entry = None;
            return None;
        }
        let label = string_of(bare);
        let drawn = match &self.entry {
            Some(entry) => same_text(entry.text.as_str(), label.as_str()) && entry.scale == scale
                && same_color(entry.color, color),
            None => false,
        };
        if drawn {
            None
        } else {
            Some(label)
        }
    }

    /// Keeps a drawn layout. The widths are those of the layouts that are usual.
    pub fn store(
        &mut self,
        text: String,
        scale: u32,
        color: [u8; 4],
        bitmap: Bitmap,
        ru_width: u32,
        en_width: u32,
    )
        ensures
            final(self).entry == Some(
                (KeyboardBitmap {
                    text,
                    scale,
                    color,
                    reserved_width: larger(
                        larger(ru_width as int, en_width as int),
                        bitmap.width as int,
                    ) as u32,
                    bitmap,
                }),
            ),
    {
        let usual: u32 = if ru_width > en_width {
            ru_width
        } else {
            en_width
        };
        let reserved_width: u32 = if usual > bitmap.width {
            usual
        } else {
            bitmap.width
        };
        self.entry = Some(KeyboardBitmap { text, scale, color, reserved_width, bitmap });
    }
}

/// The label of a workspace, drawn. The index 0 stands for the mark of the
/// active one.
#[derive(Debug)]
pub struct WorkspaceBitmap {
    pub index: u8,
    pub scale: u32,
    pub color: [u8; 4],
    pub bitmap: Bitmap,
}

/// The drawn labels of workspaces.
#[derive(Debug)]
pub struct WorkspaceLabels {
    pub entries: Vec<WorkspaceBitmap>,
}

/// Where a label is, from a place of the cache on.
pub open spec fn workspace_place(
    entries: Seq<WorkspaceBitmap>,
    index: u8,
    scale: u32,
    color: [u8; 4],
    start: int,
) -> Option<int>
    decreases entries.len() - start,
{
    if start < 0 || start >= entries.len() {
        None
    } else if entries[start].index == index && entries[start].scale == scale
        && entries[start].color@ == color@ {
        Some(start)
    } else {
        workspace_place(entries, index, scale, color, start + 1)
    }
}

/// The text of a workspace's label; if the font cannot show it, a digit stands
/// in its place.
pub open spec fn workspace_text(index: u8, fallback: bool) -> Seq<char> {
    if index == 0 {
        "●"@
    } else if fallback {
        FALLBACK_LABELS[index - 1]@
    } else {
        WORKSPACE_LABELS[index - 1]@
    }
}

/// The digits that stand for labels.
pub const FALLBACK_LABELS: [&'static str; 10] = [
    "1",
    "2",
    "3",
    "4",
    "5",
    "6",
    "7",
    "8",
    "9",
    "0",
];

pub fn workspace_label(index: u8, fallback: bool) -> (result: &'static str)
    requires
        index <= 10,
    ensures
        result@ == workspace_text(index, fallback),
{
    if index == 0 {
        "●"
    } else if fallback {
        FALLBACK_LABELS[index as usize - 1]
    } else {
        WORKSPACE_LABELS[index as usize - 1]
    }
}

impl WorkspaceLabels {
    pub fn cached_workspace_label(&self, index: u8, scale: u32, color: [u8; 4]) -> (result:
        CacheState)
        ensures
            result == (match workspace_place(self.entries@, index, scale, color, 0) {
                Some(place) => CacheState::Fresh(place as usize),
                None => CacheState::Stale,
            }),
    {
        let mut i: usize = 0;
        while i < self.entries.len()
            invariant
                i <= self.entries@.len(),
                workspace_place(self.entries@, index, scale, color, 0) == workspace_place(
                    self.entries@,
                    index,
                    scale,
                    color,
                    i as int,
                ),
            decreases self.entries@.len() - i,
        {
            let entry = &self.entries[i];
            if entry.index == index && entry.scale == scale && same_color(entry.color, color) {
                return CacheState::Fresh(i);
            }
            i += 1;
        }
        CacheState::Stale
    }

    pub fn store(&mut self, index: u8, scale: u32, color: [u8; 4], bitmap: Bitmap) -> (result: usize)
        ensures
            result == old(self).entries@.len(),
            final(self).entries@ == old(self).entries@.push(
                (WorkspaceBitmap { index, scale, color, bitmap }),
            ),
    {
        self.entries.push(WorkspaceBitmap { index, scale, color, bitmap });
        self.entries.len() - 1
    }
}

/// The texts of the media player, drawn for a scale.
#[derive(Debug)]
pub struct MediaBitmap {
    pub scale: u32,
    pub title: String,
    pub title_bitmap: Bitmap,
    pub detail: String,
    pub detail_bitmap: Bitmap,
    pub separator_bitmap: Bitmap,
}

/// The drawn texts of the media player.
#[derive(Debug)]
pub struct MediaCache {
    pub entries: Vec<MediaBitmap>,
}

/// Which texts of the media player are to be drawn.
#[derive(Clone, Copy, Debug, PartialEq, Eq, Structural)]
pub enum MediaState {
    /// All of them.
    Missing,
    /// Those of an entry that have changed.
    Kept { index: usize, title: bool, detail: bool },
}

/// Where the texts of a scale are, from a place of the cache on.
pub open spec fn media_place(entries: Seq<MediaBitmap>, scale: u32, start: int) -> Option<int>
    decreases entries.len() - start,
{
    if start < 0 || start >= entries.len() {
        None
    } else if entries[start].scale == scale {
        Some(start)
    } else {
        media_place(entries, scale, start + 1)
    }
}

impl MediaCache {
    pub fn state(&self, scale: u32, title: &str, detail: &str) -> (result: MediaState)
        ensures
            result == (match media_place(self.entries@, scale, 0) {
                Some(index) => MediaState::Kept {
                    index: index as usize,
                    title: self.entries@[index].title@ != title@,
                    detail: self.entries@[index].detail@ != detail@,
                },
                None => MediaState::Missing,
            }),
            result matches MediaState::Kept { index, .. } ==> index < self.entries@.len(),
    {
        let mut i: usize = 0;
        while i < self.entries.len()
            invariant
                i <= self.entries@.len(),
                media_place(self.entries@, scale, 0) == media_place(
                    self.entries@,
                    scale,
                    i as int,
                ),
            decreases self.entries@.len() - i,
        {
            let entry = &self.entries[i];
            if entry.scale == scale {
                return MediaState::Kept {
                    index: i,
                    title: !same_text(entry.title.as_str(), title),
                    detail: !same_text(entry.detail.as_str(), detail),
                };
            }
            i += 1;
        }
        MediaState::Missing
    }

    pub fn store(&mut self, entry: MediaBitmap) -> (result: usize)
        ensures
            result == old(self).entries@.len(),
            final(self).entries@ == old(self).entries@.push(entry),
    {
        self.entries.push(entry);
        self.entries.len() - 1
    }

    pub fn store_title(&mut self, index: usize, title: String, bitmap: Bitmap)
        requires
            index < old(self).entries@.len(),
        ensures
            final(self).entries@ == old(self).entries@.update(
                index as int,
                (MediaBitmap {
                    title,
                    title_bitmap: bitmap,
                    ..old(self).entries@[index as int]
                }),
            ),
    {
        let ghost before = self.entries@;
        let mut entry = self.entries.remove(index);
        entry.title = title;
        entry.title_bitmap = bitmap;
        self.entries.insert(index, entry);
        assert(self.entries@ =~= before.update(index as int, entry));
    }

    pub fn store_detail(&mut self, index: usize, detail: String, bitmap: Bitmap)
        requires
            index < old(self).entries@.len(),
        ensures
            final(self).entries@ == old(self).entries@.update(
                index as int,
                (MediaBitmap {
                    detail,
                    detail_bitmap: bitmap,
                    ..old(self).entries@[index as int]
                }),
            ),
    {
        let ghost before = self.entries@;
        let mut entry = self.entries.remove(index);
        entry.detail = detail;
        entry.detail_bitmap = bitmap;
        self.entries.insert(index, entry);
        assert(self.entries@ =~= before.update(index as int, entry));
    }

    /// Without a player nothing is kept.
    pub fn clear(&mut self)
        ensures
            final(self).entries@.len() == 0,
    {
        self.entries.clear();
    }
}

/// A new position draws the line of details only; the title is kept.
pub proof fn law_ticks_keep_the_title(
    entries: Seq<MediaBitmap>,
    scale: u32,
    detail: String,
    bitmap: Bitmap,
)
    requires
        media_place(entries, scale, 0) is Some,
    ensures
        ({
            let index = media_place(entries, scale, 0)->0;
            let after = entries.update(
                index,
                MediaBitmap { detail, detail_bitmap: bitmap, ..entries[index] },
            );
            &&& after[index].title == entries[index].title
            &&& after[index].title_bitmap == entries[index].title_bitmap
            &&& after[index].detail == detail
        }),
{
    lemma_media_place(entries, scale, 0);
}

proof fn lemma_media_place(entries: Seq<MediaBitmap>, scale: u32, start: int)
    requires
        0 <= start,
    ensures
        media_place(entries, scale, start) matches Some(index) ==> start <= index < entries.len(),
    decreases entries.len() - start,
{
    if start < entries.len() && entries[start].scale != scale {
        lemma_media_place(entries, scale, start + 1);
    }
}

/// The icon of an indicator, drawn in a size.
#[derive(Debug)]
pub struct SizedBitmap {
    pub size: u32,
    pub bitmap: Bitmap,
}

/// Where an icon of a size is, from a place of the cache on.
pub open spec fn size_place(entries: Seq<SizedBitmap>, size: u32, start: int) -> Option<int>
    decreases entries.len() - start,
{
    if start < 0 || start >= entries.len() {
        None
    } else if entries[start].size == size {
        Some(start)
    } else {
        size_place(entries, size, start + 1)
    }
}

/// Whether the icon of an indicator is drawn in a size.
pub fn cached_size(entries: &Vec<SizedBitmap>, size: u32) -> (result: CacheState)
    ensures
        result == (match size_place(entries@, size, 0) {
            Some(index) => CacheState::Fresh(index as usize),
            None => CacheState::Stale,
        }),
{
    let mut i: usize = 0;
    while i < entries.len()
        invariant
            i <= entries@.len(),
            size_place(entries@, size, 0) == size_place(entries@, size, i as int),
        decreases entries@.len() - i,
    {
        if entries[i].size == size {
            return CacheState::Fresh(i);
        }
        i += 1;
    }
    CacheState::Stale
}

/// What is drawn on the bars, and what is kept of it.
#[derive(Debug)]
pub struct Renderer {
    pub style: Style,
    pub clocks: Clocks,
    pub keyboard: KeyboardCache,
    pub weather_condition: (Condition, bool),
    pub weather_icons: Vec<SizedBitmap>,
    pub network_kind: NetworkKind,
    pub network_icons: Vec<SizedBitmap>,
    pub icons: TrayIcons,
    pub workspaces: WorkspaceLabels,
    pub task_labels: TaskLabels,
    pub task_icons: TaskIcons,
    pub media: MediaCache,
}

impl Renderer {
    pub fn new(config: &Config) -> (result: Self)
        requires
            has_colors(*config),
        ensures
            result.style.follows(*config),
            result.clocks.entries@ == Map::<u32, ClockBitmap>::empty(),
            result.keyboard.entry is None,
            result.weather_condition == (Condition::Unknown, false),
            result.weather_icons@.len() == 0,
            result.network_kind == NetworkKind::Offline,
            result.network_icons@.len() == 0,
            result.icons.entries@.len() == 0,
            result.workspaces.entries@.len() == 0,
            result.task_labels.entries@.len() == 0,
            result.task_icons.entries@.len() == 0,
            result.media.entries@.len() == 0,
    {
        Renderer {
            style: Style::new(config),
            clocks: Clocks { entries: HashMap::new() },
            keyboard: KeyboardCache { entry: None },
            weather_condition: (Condition::Unknown, false),
            weather_icons: Vec::new(),
            network_kind: NetworkKind::Offline,
            network_icons: Vec::new(),
            icons: TrayIcons { entries: Vec::new() },
            workspaces: WorkspaceLabels { entries: Vec::new() },
            task_labels: TaskLabels { entries: Vec::new() },
            task_icons: TaskIcons { entries: Vec::new() },
            media: MediaCache { entries: Vec::new() },
        }
    }

    /// Drops what is kept of a window that was closed, of every scale.
    pub fn evict_window(&mut self, window_id: u64)
        ensures
            final(self).task_labels.entries@ == of_others(
                old(self).task_labels.entries@,
                window_id,
                old(self).task_labels.entries@.len() as int,
            ),
            final(self).task_icons.entries@ == of_others(
                old(self).task_icons.entries@,
                window_id,
                old(self).task_icons.entries@.len() as int,
            ),
            *final(self) == (Renderer {
                task_labels: final(self).task_labels,
                task_icons: final(self).task_icons,
                ..*old(self)
            }),
    {
        evict(&mut self.task_labels.entries, window_id);
        evict(&mut self.task_icons.entries, window_id);
    }

    /// Drops the icons that have left the tray, of every scale.
    pub fn retain_tray_icons(&mut self, tray: &Vec<TrayIcon>)
        ensures
            final(self).icons.entries@ == still_in_tray(
                old(self).icons.entries@,
                tray@,
                old(self).icons.entries@.len() as int,
            ),
            *final(self) == (Renderer { icons: final(self).icons, ..*old(self) }),
    {
        self.icons.retain(tray);
    }

    /// Sets what the weather icon shows, and tells whether that is new.
    pub fn set_weather_condition(&mut self, condition: Condition, night: bool) -> (result: bool)
        ensures
            result == (old(self).weather_condition != (condition, night)),
            result ==> final(self).weather_icons@.len() == 0,
            !result ==> final(self).weather_icons == old(self).weather_icons,
            *final(self) == (Renderer {
                weather_condition: (condition, night),
                weather_icons: final(self).weather_icons,
                ..*old(self)
            }),
    {
        if self.weather_condition.0 == condition && self.weather_condition.1 == night {
            return false;
        }
        self.weather_condition = (condition, night);
        self.weather_icons.clear();
        true
    }

    /// Sets what the network icon shows, and tells whether that is new.
    pub fn set_network_kind(&mut self, kind: NetworkKind) -> (result: bool)
        ensures
            result == (old(self).network_kind != kind),
            result ==> final(self).network_icons@.len() == 0,
            !result ==> final(self).network_icons == old(self).network_icons,
            *final(self) == (Renderer {
                network_kind: kind,
                network_icons: final(self).network_icons,
                ..*old(self)
            }),
    {
        if self.network_kind == kind {
            return false;
        }
        self.network_kind = kind;
        self.network_icons.clear();
        true
    }

    /// The color of the network icon.
    pub fn network_color(&self) -> (result: [u8; 4])
        ensures
            result == (if self.network_kind == NetworkKind::Offline {
                self.style.network_muted
            } else {
                self.style.network_foreground
            }),
    {
        if self.network_kind == NetworkKind::Offline {
            self.style.network_muted
        } else {
            self.style.network_foreground
        }
    }

    /// Plans the drawing of a bar.
    pub fn draw(&self, content: &RenderContent) -> (result: BarPlan)
        requires
            self.style.wf(),
            content.wf(&self.style),
        ensures
            result.commands@ == content.all_drawings(&self.style),
            result.hitboxes@ == content.all_boxes(&self.style),
    {
        draw(content, &self.style)
    }
}

} // verus!
