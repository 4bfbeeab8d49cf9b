//! Which fonts are loaded, and how long texts are shortened.

use vstd::prelude::*;
use vstd::slice::slice_subrange;

use crate::text::{
    chars_of, lines_of, option_view, same, split_lines, string_of,
    string_views, trim, trimmed, views,
};

verus! {

/// The first line, from one on, that is not blank, without spaces around it.
pub open spec fn first_filled(lines: Seq<Seq<char>>, start: int) -> Option<Seq<char>>
    decreases lines.len() - start,
{
    if start < 0 || start >= lines.len() {
        None
    } else if trimmed(lines[start]).len() > 0 {
        Some(trimmed(lines[start]))
    } else {
        first_filled(lines, start + 1)
    }
}

/// The path of a font in the output of fontconfig's matching.
pub fn font_path(output: &str) -> (result: Option<String>)
    ensures
        option_view(result) == first_filled(lines_of(output@), 0),
{
    let characters = chars_of(output);
    let lines = split_lines(characters.as_slice());
    let mut i: usize = 0;
    while i < lines.len()
        invariant
            i <= lines@.len(),
            views(lines@) == lines_of(output@),
            first_filled(lines_of(output@), 0) == first_filled(views(lines@), i as int),
        decreases lines@.len() - i,
    {
        let line = trim(lines[i]);
        if line.len() > 0 {
            return Some(string_of(line));
        }
        i += 1;
    }
    None
}

/// The parts of a path, which repeated slashes and dots do not change; a dot
/// counts only at the beginning of a relative path.
pub open spec fn path_parts(path: Seq<char>, first: bool) -> Seq<Seq<char>>
    decreases path.len(),
{
    if path.len() == 0 {
        Seq::empty()
    } else if path[0] == '/' {
        path_parts(path.skip(1), false)
    } else {
        proof {
            lemma_part_length(path);
        }
        let end = part_length(path);
        let part = path.take(end);
        let rest = path_parts(path.skip(end), false);
        if part == seq!['.'] && !first {
            rest
        } else {
            seq![part] + rest
        }
    }
}

/// The number of characters before the first slash.
pub open spec fn part_length(path: Seq<char>) -> int
    decreases path.len(),
{
    if path.len() == 0 || path[0] == '/' {
        0
    } else {
        1 + part_length(path.skip(1))
    }
}

/// Whether two paths are equal, part by part.
pub open spec fn same_path(left: Seq<char>, right: Seq<char>) -> bool {
    &&& (left.len() > 0 && left[0] == '/') == (right.len() > 0 && right[0] == '/')
    &&& path_parts(left, true) == path_parts(right, true)
}

pub proof fn lemma_part_length(path: Seq<char>)
    ensures
        0 <= part_length(path) <= path.len(),
        path.len() > 0 && path[0] != '/' ==> part_length(path) > 0,
    decreases path.len(),
{
    if path.len() > 0 && path[0] != '/' {
        lemma_part_length(path.skip(1));
    }
}

fn find_part_end(path: &[char]) -> (result: usize)
    ensures
        result == part_length(path@),
        result <= path@.len(),
{
    let total: usize = path.len();
    let mut i: usize = 0;
    assert(path@.skip(0) =~= path@);
    proof {
        lemma_part_length(path@);
    }
    while i < total && path[i] != '/'
        invariant
            i <= total,
            total == path@.len(),
            part_length(path@) == i + part_length(path@.skip(i as int)),
        decreases total - i,
    {
        assert(path@.skip(i as int).skip(1) =~= path@.skip(i + 1));
        i += 1;
    }
    i
}

fn split_path<'a>(path: &'a [char]) -> (result: Vec<&'a [char]>)
    ensures
        views(result@) == path_parts(path@, true),
{
    let mut parts: Vec<&'a [char]> = Vec::new();
    let mut rest = path;
    let mut first = true;
    assert(views(parts@) + path_parts(path@, true) =~= path_parts(path@, true));
    while rest.len() > 0
        invariant
            views(parts@) + path_parts(rest@, first) == path_parts(path@, true),
        decreases rest@.len(),
    {
        let total: usize = rest.len();
        if rest[0] == '/' {
            let shorter = slice_subrange(rest, 1, total);
            assert(shorter@ =~= rest@.skip(1));
            rest = shorter;
        } else {
            let end: usize = find_part_end(rest);
            proof {
                lemma_part_length(rest@);
            }
            let part = slice_subrange(rest, 0, end);
            assert(part@ =~= rest@.take(end as int));
            let shorter = slice_subrange(rest, end, total);
            assert(shorter@ =~= rest@.skip(end as int));
            let dot = end == 1 && part[0] == '.';
            assert(dot == (part@ =~= seq!['.']));
            if !dot || first {
                let ghost before = views(parts@);
                proof {
                    crate::text::lemma_views_push(parts@, part);
                }
                parts.push(part);
                assert(before + (seq![part@] + path_parts(shorter@, false)) =~= views(parts@)
                    + path_parts(shorter@, false));
            }
            rest = shorter;
        }
        first = false;
    }
    assert(path_parts(rest@, first) =~= Seq::<Seq<char>>::empty());
    assert(views(parts@) =~= path_parts(path@, true));
    parts
}

fn equal_paths(left: &str, right: &str) -> (result: bool)
    ensures
        result == same_path(left@, right@),
{
    let a = chars_of(left);
    let b = chars_of(right);
    let left_root = a.len() > 0 && a[0] == '/';
    let right_root = b.len() > 0 && b[0] == '/';
    if left_root != right_root {
        return false;
    }
    let first = split_path(a.as_slice());
    let second = split_path(b.as_slice());
    assert(views(first@).len() == first@.len());
    assert(views(second@).len() == second@.len());
    if first.len() != second.len() {
        return false;
    }
    let mut i: usize = 0;
    while i < first.len()
        invariant
            i <= first@.len(),
            first@.len() == second@.len(),
            views(first@) == path_parts(left@, true),
            views(second@) == path_parts(right@, true),
            forall|k: int| 0 <= k < i ==> #[trigger] views(first@)[k] == views(second@)[k],
        decreases first@.len() - i,
    {
        if !same(first[i], second[i]) {
            assert(views(first@)[i as int] != views(second@)[i as int]);
            return false;
        }
        i += 1;
    }
    assert(views(first@) =~= views(second@));
    true
}

/// The two paths, or one where they are equal.
pub fn distinct_font_paths(primary: String, fallback: String) -> (result: Vec<String>)
    ensures
        string_views(result@) == (if same_path(primary@, fallback@) {
            seq![primary@]
        } else {
            seq![primary@, fallback@]
        }),
{
    let shared = equal_paths(primary.as_str(), fallback.as_str());
    let mut paths: Vec<String> = Vec::new();
    let ghost first = primary@;
    let ghost second = fallback@;
    paths.push(primary);
    if shared {
        assert(string_views(paths@) =~= seq![first]);
    } else {
        paths.push(fallback);
        assert(string_views(paths@) =~= seq![first, second]);
    }
    paths
}

/// The fonts to load, if both were matched.
pub fn selected_font_paths(primary: Option<String>, fallback: Option<String>) -> (result: Option<
    Vec<String>,
>)
    ensures
        match (primary, fallback) {
            (Some(primary), Some(fallback)) => result matches Some(paths) && string_views(paths@)
                == (if same_path(primary@, fallback@) {
                seq![primary@]
            } else {
                seq![primary@, fallback@]
            }),
            _ => result is None,
        },
{
    match (primary, fallback) {
        (Some(primary), Some(fallback)) => Some(distinct_font_paths(primary, fallback)),
        _ => None,
    }
}

/// The beginning of a text, and an ellipsis in place of the rest.
pub open spec fn cut_text(text: Seq<char>, count: int) -> Seq<char> {
    text.take(count).push('…')
}

pub fn ellipsized(text: &str, count: usize) -> (result: String)
    requires
        count <= text@.len(),
    ensures
        result@ == cut_text(text@, count as int),
{
    let characters = chars_of(text);
    let start = slice_subrange(characters.as_slice(), 0, count);
    assert(start@ =~= text@.take(count as int));
    let mut cut = string_of(start);
    cut.push('…');
    cut
}

/// The search for the longest beginning of a text that fits: as many characters
/// as are known to fit, and as many as may.
#[derive(Clone, Copy, Debug, PartialEq, Eq, Structural)]
pub struct EllipsisSearch {
    pub lower: usize,
    pub upper: usize,
}

impl EllipsisSearch {
    pub open spec fn wf(self) -> bool {
        self.lower <= self.upper
    }

    /// The number of characters that is tried next.
    pub open spec fn middle(self) -> int {
        (self.lower + self.upper + 1) / 2
    }

    /// Whether what is known agrees with what fits.
    pub open spec fn knows(self, fits: spec_fn(int) -> bool) -> bool {
        &&& self.lower > 0 ==> fits(self.lower as int)
        &&& forall|count: int| count > self.upper ==> !#[trigger] fits(count)
    }

    pub fn new(length: usize) -> (result: Self)
        ensures
            result.wf(),
            result == (EllipsisSearch { lower: 0, upper: length }),
    {
        EllipsisSearch { lower: 0, upper: length }
    }

    /// The number of characters to try, until the search is over.
    pub fn next(&self) -> (result: Option<usize>)
        requires
            self.wf(),
        ensures
            match result {
                Some(count) => self.lower < self.upper && count == self.middle() && self.lower
                    < count <= self.upper,
                None => self.lower == self.upper,
            },
    {
        if self.lower < self.upper {
            Some(self.lower + (self.upper - self.lower - 1) / 2 + 1)
        } else {
            None
        }
    }

    /// Takes over whether the characters that were tried fit.
    pub fn report(&mut self, fits: bool)
        requires
            old(self).wf(),
            old(self).lower < old(self).upper,
        ensures
            final(self).wf(),
            *final(self) == (if fits {
                EllipsisSearch { lower: old(self).middle() as usize, upper: old(self).upper }
            } else {
                EllipsisSearch {
                    lower: old(self).lower,
                    upper: (old(self).middle() - 1) as usize,
                }
            }),
            final(self).upper - final(self).lower < old(self).upper - old(self).lower,
    {
        let middle: usize = self.lower + (self.upper - self.lower - 1) / 2 + 1;
        if fits {
            self.lower = middle;
        } else {
            self.upper = middle - 1;
        }
    }
}

/// A search that is answered truly finds the longest beginning that fits, if a
/// beginning fits wherever a longer one does.
pub proof fn law_search_finds_the_longest(
    search: EllipsisSearch,
    after: EllipsisSearch,
    fits: spec_fn(int) -> bool,
    count: int,
)
    requires
        search.wf(),
        search.knows(fits),
        forall|a: int, b: int| 0 < a <= b && #[trigger] fits(b) ==> #[trigger] fits(a),
    ensures
        search.lower < search.upper && after == (if fits(search.middle()) {
            EllipsisSearch { lower: search.middle() as usize, upper: search.upper }
        } else {
            EllipsisSearch { lower: search.lower, upper: (search.middle() - 1) as usize }
        }) ==> after.knows(fits),
        search.lower == search.upper && count > 0 ==> (fits(count) <==> count <= search.lower),
{
    if search.lower < search.upper && !fits(search.middle()) {
        assert forall|other: int| other > search.middle() - 1 implies !#[trigger] fits(other) by {
            if fits(other) {
                assert(fits(search.middle()));
            }
        }
    }
}

} // verus!
