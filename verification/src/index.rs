//! Grouping the pixels of a grid by their exact colour.
//!
//! Every pixel that is not transparent belongs to the group of its colour.
//! A group lists its positions in the order in which the grid is read, row
//! by row from the top, and the groups stand in the order in which their
//! colours first occur.

use std::collections::HashMap;
use vstd::prelude::*;
use vstd::std_specs::hash::group_hash_axioms;
use crate::color::Pixel;
use crate::grid::{buffer_dimensions, buffer_get, scans_before, GridView, ImageGrid};

verus! {

/// All positions of a grid that hold one colour.
#[derive(Debug, PartialEq, Eq)]
pub struct ColorGroup {
    pub color: Pixel,
    pub locations: Vec<(u32, u32)>,
}

/// What a colour group is to the contracts of this crate.
pub struct GroupView {
    pub color: Pixel,
    pub locations: Seq<(u32, u32)>,
}

impl View for ColorGroup {
    type V = GroupView;

    open spec fn view(&self) -> GroupView {
        GroupView { color: self.color, locations: self.locations@ }
    }
}

/// The views of a sequence of groups.
pub open spec fn group_views(groups: Seq<ColorGroup>) -> Seq<GroupView> {
    groups.map_values(|group: ColorGroup| group@)
}

/// Every listed position lies in the grid and holds the colour of its group.
pub open spec fn members_match(groups: Seq<GroupView>, grid: GridView) -> bool {
    forall|i: int, j: int|
        0 <= i < groups.len() && 0 <= j < groups[i].locations.len() ==> {
            let at = #[trigger] groups[i].locations[j];
            grid.contains(at) && grid.pixels[at] == groups[i].color
        }
}

/// No group is empty and none is of a transparent colour.
pub open spec fn groups_visible(groups: Seq<GroupView>) -> bool {
    forall|i: int|
        0 <= i < groups.len() ==> (#[trigger] groups[i]).locations.len() > 0
            && !groups[i].color.is_transparent()
}

/// Every position of the grid whose pixel is not transparent is listed.
pub open spec fn covers_visible(groups: Seq<GroupView>, grid: GridView) -> bool {
    forall|at: (u32, u32)|
        grid.contains(at) && !(#[trigger] grid.pixels[at]).is_transparent() ==> exists|i: int|
            0 <= i < groups.len() && (#[trigger] groups[i]).locations.contains(at)
}

/// No two groups share a colour, and a group whose colour occurs first in
/// the grid stands first.
pub open spec fn groups_ordered(groups: Seq<GroupView>) -> bool {
    forall|i: int, j: int|
        0 <= i < j < groups.len() ==> (#[trigger] groups[i]).color != (#[trigger] groups[j]).color
            && scans_before(groups[i].locations[0], groups[j].locations[0])
}

/// Each group lists its positions in the order in which the grid is read.
pub open spec fn locations_ordered(groups: Seq<GroupView>) -> bool {
    forall|i: int, j: int, k: int|
        0 <= i < groups.len() && 0 <= j < k < groups[i].locations.len() ==> scans_before(
            #[trigger] groups[i].locations[j],
            #[trigger] groups[i].locations[k],
        )
}

/// Whether `groups` is the index of `grid`: the grouping of its visible
/// pixels by colour, in reading order.
pub open spec fn is_index(groups: Seq<GroupView>, grid: GridView) -> bool {
    &&& members_match(groups, grid)
    &&& groups_visible(groups)
    &&& covers_visible(groups, grid)
    &&& groups_ordered(groups)
    &&& locations_ordered(groups)
}

/// The position `at` is read before the reading reaches column `x` of row `y`.
spec fn reached(at: (u32, u32), x: int, y: int) -> bool {
    at.1 < y || (at.1 == y && at.0 < x)
}

/// `groups` is the index of the part of `grid` read before column `x` of
/// row `y`.
spec fn indexes_before(groups: Seq<GroupView>, grid: GridView, x: int, y: int) -> bool {
    &&& members_match(groups, grid)
    &&& forall|i: int, j: int|
        0 <= i < groups.len() && 0 <= j < groups[i].locations.len() ==> reached(
            #[trigger] groups[i].locations[j],
            x,
            y,
        )
    &&& groups_visible(groups)
    &&& forall|at: (u32, u32)|
        grid.contains(at) && reached(at, x, y) && !(#[trigger] grid.pixels[at]).is_transparent()
            ==> exists|i: int|
            0 <= i < groups.len() && (#[trigger] groups[i]).locations.contains(at)
    &&& groups_ordered(groups)
    &&& locations_ordered(groups)
}

/// One number for each colour, no two colours sharing one.
spec fn color_key(color: Pixel) -> u32 {
    (color.red * 0x100_0000 + color.green * 0x1_0000 + color.blue * 0x100 + color.alpha) as u32
}

/// The lookup table holds, for the colour of each group, where the group
/// stands, and nothing else.
spec fn slots_match(slots: Map<u32, usize>, groups: Seq<GroupView>) -> bool {
    &&& forall|i: int|
        0 <= i < groups.len() ==> slots.contains_key(color_key((#[trigger] groups[i]).color))
            && slots[color_key(groups[i].color)] == i
    &&& forall|key: u32| #[trigger]
        slots.contains_key(key) ==> slots[key] < groups.len() && color_key(
            groups[slots[key] as int].color,
        ) == key
}

fn key_of(color: Pixel) -> (key: u32)
    ensures
        key == color_key(color),
{
    (color.red as u32) * 0x100_0000 + (color.green as u32) * 0x1_0000 + (color.blue as u32) * 0x100
        + (color.alpha as u32)
}

/// Different colours have different keys.
proof fn lemma_color_key_injective(a: Pixel, b: Pixel)
    requires
        color_key(a) == color_key(b),
    ensures
        a == b,
{
    let high_a = a.red * 0x1_0000 + a.green * 0x100 + a.blue;
    let high_b = b.red * 0x1_0000 + b.green * 0x100 + b.blue;
    assert(color_key(a) == high_a * 0x100 + a.alpha);
    assert(color_key(b) == high_b * 0x100 + b.alpha);
    assert(high_a == high_b && a.alpha == b.alpha);
    let top_a = a.red * 0x100 + a.green;
    let top_b = b.red * 0x100 + b.green;
    assert(high_a == top_a * 0x100 + a.blue);
    assert(high_b == top_b * 0x100 + b.blue);
    assert(top_a == top_b && a.blue == b.blue);
}

proof fn lemma_skip(groups: Seq<GroupView>, grid: GridView, x: int, y: int)
    requires
        indexes_before(groups, grid, x, y),
        0 <= x <= u32::MAX,
        0 <= y <= u32::MAX,
        !grid.contains((x as u32, y as u32)) || grid.pixels[(x as u32, y as u32)].is_transparent(),
    ensures
        indexes_before(groups, grid, x + 1, y),
{
}

proof fn lemma_next_row(groups: Seq<GroupView>, grid: GridView, y: int)
    requires
        indexes_before(groups, grid, grid.width as int, y),
    ensures
        indexes_before(groups, grid, 0, y + 1),
{
}

proof fn lemma_extend_group(groups: Seq<GroupView>, grid: GridView, at: (u32, u32), slot: int)
    requires
        indexes_before(groups, grid, at.0 as int, at.1 as int),
        grid.contains(at),
        0 <= slot < groups.len(),
        groups[slot].color == grid.pixels[at],
    ensures
        indexes_before(
            groups.update(
                slot,
                GroupView { color: groups[slot].color, locations: groups[slot].locations.push(at) },
            ),
            grid,
            at.0 + 1,
            at.1 as int,
        ),
{
    let x = at.0 as int;
    let y = at.1 as int;
    let old_locations = groups[slot].locations;
    let grown = GroupView { color: groups[slot].color, locations: old_locations.push(at) };
    let after = groups.update(slot, grown);
    assert forall|m: (u32, u32)|
        grid.contains(m) && reached(m, x + 1, y) && !(#[trigger] grid.pixels[m]).is_transparent()
        implies exists|i: int|
        0 <= i < after.len() && (#[trigger] after[i]).locations.contains(m) by {
        if m == at {
            assert(after[slot].locations[old_locations.len() as int] == at);
            assert(after[slot].locations.contains(m));
        } else {
            assert(reached(m, x, y));
            let i = choose|i: int|
                0 <= i < groups.len() && (#[trigger] groups[i]).locations.contains(m);
            let j = choose|j: int|
                0 <= j < groups[i].locations.len() && groups[i].locations[j] == m;
            assert(after[i].locations[j] == m);
            assert(after[i].locations.contains(m));
        }
    }
}

proof fn lemma_new_group(groups: Seq<GroupView>, grid: GridView, at: (u32, u32))
    requires
        indexes_before(groups, grid, at.0 as int, at.1 as int),
        grid.contains(at),
        !grid.pixels[at].is_transparent(),
        forall|i: int| 0 <= i < groups.len() ==> (#[trigger] groups[i]).color != grid.pixels[at],
    ensures
        indexes_before(
            groups.push(GroupView { color: grid.pixels[at], locations: seq![at] }),
            grid,
            at.0 + 1,
            at.1 as int,
        ),
{
    let x = at.0 as int;
    let y = at.1 as int;
    let fresh = GroupView { color: grid.pixels[at], locations: seq![at] };
    let after = groups.push(fresh);
    let n = groups.len() as int;
    assert forall|m: (u32, u32)|
        grid.contains(m) && reached(m, x + 1, y) && !(#[trigger] grid.pixels[m]).is_transparent()
        implies exists|i: int|
        0 <= i < after.len() && (#[trigger] after[i]).locations.contains(m) by {
        if m == at {
            assert(after[n].locations[0] == at);
            assert(after[n].locations.contains(m));
        } else {
            assert(reached(m, x, y));
            let i = choose|i: int|
                0 <= i < groups.len() && (#[trigger] groups[i]).locations.contains(m);
            assert(after[i] == groups[i]);
            assert(after[i].locations.contains(m));
        }
    }
}

/// Appends `at` to the positions of the group at `slot`.
fn add_location(groups: &mut Vec<ColorGroup>, slot: usize, at: (u32, u32))
    requires
        slot < old(groups).len(),
    ensures
        group_views(final(groups)@) == group_views(old(groups)@).update(
            slot as int,
            GroupView {
                color: old(groups)[slot as int].color,
                locations: old(groups)[slot as int].locations@.push(at),
            },
        ),
{
    groups[slot].locations.push(at);
}

/// Appends a group that holds `at` alone.
fn add_group(groups: &mut Vec<ColorGroup>, color: Pixel, at: (u32, u32))
    ensures
        group_views(final(groups)@) == group_views(old(groups)@).push(
            GroupView { color, locations: seq![at] },
        ),
{
    let mut locations: Vec<(u32, u32)> = Vec::new();
    locations.push(at);
    groups.push(ColorGroup { color, locations });
}

/// Groups the visible pixels of `grid` by colour.
///
/// Transparent pixels are in no group. The groups stand in the order in
/// which their colours first occur when the grid is read row by row from
/// the top, and each lists its positions in that order.
pub fn index_pixels(grid: &ImageGrid) -> (groups: Vec<ColorGroup>)
    ensures
        is_index(group_views(groups@), grid@),
{
    broadcast use group_hash_axioms;

    let (width, height) = buffer_dimensions(grid);
    let mut groups: Vec<ColorGroup> = Vec::new();
    let mut slots: HashMap<u32, usize> = HashMap::new();
    for y in 0..height
        invariant
            grid@.width == width,
            grid@.height == height,
            indexes_before(group_views(groups@), grid@, 0, y as int),
            slots_match(slots@, group_views(groups@)),
    {
        for x in 0..width
            invariant
                y < height,
                grid@.width == width,
                grid@.height == height,
                indexes_before(group_views(groups@), grid@, x as int, y as int),
                slots_match(slots@, group_views(groups@)),
        {
            let pixel = buffer_get(grid, x, y);
            let ghost before = group_views(groups@);
            if pixel.alpha != 0 {
                let key = key_of(pixel);
                let found = match slots.get(&key) {
                    Some(slot) => Some(*slot),
                    None => None,
                };
                match found {
                    Some(slot) => {
                        proof {
                            lemma_color_key_injective(before[slot as int].color, pixel);
                            lemma_extend_group(before, grid@, (x, y), slot as int);
                        }
                        add_location(&mut groups, slot, (x, y));
                    },
                    None => {
                        proof {
                            lemma_new_group(before, grid@, (x, y));
                        }
                        let slot = groups.len();
                        add_group(&mut groups, pixel, (x, y));
                        slots.insert(key, slot);
                    },
                }
            } else {
                proof {
                    lemma_skip(before, grid@, x as int, y as int);
                }
            }
        }
        proof {
            lemma_next_row(group_views(groups@), grid@, y as int);
        }
    }
    groups
}

/// The positions of a grid whose pixels are not transparent.
pub open spec fn visible_positions(grid: GridView) -> Set<(u32, u32)> {
    Set::new(|at: (u32, u32)| grid.contains(at) && !grid.pixels[at].is_transparent())
}

/// The positions that some group lists.
pub open spec fn listed_positions(groups: Seq<GroupView>) -> Set<(u32, u32)> {
    Set::new(
        |at: (u32, u32)|
            exists|i: int| 0 <= i < groups.len() && (#[trigger] groups[i]).locations.contains(at),
    )
}

/// The groups of an index partition the visible pixels: together they list
/// exactly the positions whose pixels are not transparent, no position
/// stands in two groups, and none stands twice in one.
pub proof fn lemma_index_partitions(groups: Seq<GroupView>, grid: GridView)
    requires
        is_index(groups, grid),
    ensures
        listed_positions(groups) == visible_positions(grid),
        forall|i: int, j: int, at: (u32, u32)|
            0 <= i < groups.len() && 0 <= j < groups.len() && i != j
                && #[trigger] groups[i].locations.contains(at)
                ==> !#[trigger] groups[j].locations.contains(at),
        forall|i: int| 0 <= i < groups.len() ==> (#[trigger] groups[i]).locations.no_duplicates(),
{
}

/// A position that a group of an index lists lies in the grid, and its
/// pixel has the colour of the group and is not transparent.
pub proof fn lemma_member(groups: Seq<GroupView>, grid: GridView, i: int, at: (u32, u32))
    requires
        is_index(groups, grid),
        0 <= i < groups.len(),
        groups[i].locations.contains(at),
    ensures
        grid.contains(at),
        grid.pixels[at] == groups[i].color,
        !grid.pixels[at].is_transparent(),
{
    let j = groups[i].locations.index_of(at);
    assert(grid.contains(groups[i].locations[j]));
}

/// No group of an index lists the position of a transparent pixel.
pub proof fn lemma_transparent_unlisted(groups: Seq<GroupView>, grid: GridView, at: (u32, u32))
    requires
        is_index(groups, grid),
        grid.pixels[at].is_transparent(),
    ensures
        forall|i: int| 0 <= i < groups.len() ==> !(#[trigger] groups[i]).locations.contains(at),
{
}

/// A group of an index lists every position that holds its colour.
pub proof fn lemma_group_lists_its_color(
    groups: Seq<GroupView>,
    grid: GridView,
    i: int,
    at: (u32, u32),
)
    requires
        is_index(groups, grid),
        0 <= i < groups.len(),
        grid.contains(at),
        grid.pixels[at] == groups[i].color,
    ensures
        groups[i].locations.contains(at),
{
    let holder = choose|k: int|
        0 <= k < groups.len() && (#[trigger] groups[k]).locations.contains(at);
    lemma_member(groups, grid, holder, at);
}

/// Two sequences that hold the same items, each in strictly rising reading
/// order of the positions that `key` gives them, are equal.
proof fn lemma_sorted_equal<T>(s: Seq<T>, t: Seq<T>, key: spec_fn(T) -> (u32, u32))
    requires
        forall|j: int, k: int|
            0 <= j < k < s.len() ==> scans_before(#[trigger] key(s[j]), #[trigger] key(s[k])),
        forall|j: int, k: int|
            0 <= j < k < t.len() ==> scans_before(#[trigger] key(t[j]), #[trigger] key(t[k])),
        forall|item: T| s.contains(item) <==> t.contains(item),
    ensures
        s == t,
    decreases s.len(),
{
    if s.len() == 0 {
        if t.len() > 0 {
            assert(t.contains(t[0]));
        }
    } else {
        assert(s.contains(s.last()));
        let into_t = choose|j: int| 0 <= j < t.len() && t[j] == s.last();
        assert(t.contains(t.last()));
        let into_s = choose|j: int| 0 <= j < s.len() && s[j] == t.last();
        assert(s.last() == t.last()) by {
            if into_t < t.len() - 1 && into_s < s.len() - 1 {
                assert(scans_before(key(t[into_t]), key(t[t.len() - 1])));
                assert(scans_before(key(s[into_s]), key(s[s.len() - 1])));
            }
        }
        let front_s = s.drop_last();
        let front_t = t.drop_last();
        assert forall|item: T| front_s.contains(item) <==> front_t.contains(item) by {
            if front_s.contains(item) {
                let j = choose|j: int| 0 <= j < front_s.len() && front_s[j] == item;
                assert(scans_before(key(s[j]), key(s[s.len() - 1])));
                assert(s.contains(item));
                let k = choose|k: int| 0 <= k < t.len() && t[k] == item;
                assert(front_t[k] == item);
            }
            if front_t.contains(item) {
                let j = choose|j: int| 0 <= j < front_t.len() && front_t[j] == item;
                assert(scans_before(key(t[j]), key(t[t.len() - 1])));
                assert(t.contains(item));
                let k = choose|k: int| 0 <= k < s.len() && s[k] == item;
                assert(front_s[k] == item);
            }
        }
        lemma_sorted_equal(front_s, front_t, key);
        assert(s =~= front_s.push(s.last()));
    }
}

/// Every group of one index of a grid is a group of any other.
proof fn lemma_group_shared(a: Seq<GroupView>, b: Seq<GroupView>, grid: GridView, i: int)
    requires
        is_index(a, grid),
        is_index(b, grid),
        0 <= i < a.len(),
    ensures
        b.contains(a[i]),
{
    let first = a[i].locations[0];
    lemma_member(a, grid, i, first);
    let j = choose|j: int| 0 <= j < b.len() && (#[trigger] b[j]).locations.contains(first);
    lemma_member(b, grid, j, first);
    let mine = a[i].locations;
    let theirs = b[j].locations;
    assert forall|at: (u32, u32)| mine.contains(at) <==> theirs.contains(at) by {
        if mine.contains(at) {
            lemma_member(a, grid, i, at);
            lemma_group_lists_its_color(b, grid, j, at);
        }
        if theirs.contains(at) {
            lemma_member(b, grid, j, at);
            lemma_group_lists_its_color(a, grid, i, at);
        }
    }
    lemma_sorted_equal(mine, theirs, |at: (u32, u32)| at);
}

/// A grid has one index and no other.
pub proof fn lemma_index_unique(a: Seq<GroupView>, b: Seq<GroupView>, grid: GridView)
    requires
        is_index(a, grid),
        is_index(b, grid),
    ensures
        a == b,
{
    assert forall|group: GroupView| a.contains(group) <==> b.contains(group) by {
        if a.contains(group) {
            let i = choose|i: int| 0 <= i < a.len() && a[i] == group;
            lemma_group_shared(a, b, grid, i);
        }
        if b.contains(group) {
            let i = choose|i: int| 0 <= i < b.len() && b[i] == group;
            lemma_group_shared(b, a, grid, i);
        }
    }
    lemma_sorted_equal(a, b, |group: GroupView| group.locations[0]);
}

} // verus!
