//! Applying a decision to the pixels of one colour group.

use vstd::prelude::*;
use crate::color::{Pixel, Rgb};
use crate::grid::{buffer_get, buffer_put, GridView, ImageGrid};
use crate::index::{is_index, lemma_index_partitions, lemma_member, GroupView};
use crate::hex::{hex_color, parse_hex_color};
use crate::format::RecolorError;
use crate::trim::{chars_of, trimmed, trimmed_range};

verus! {

/// What is to happen to the pixels of one colour group.
#[derive(Clone, Copy, Debug, PartialEq, Eq, Structural)]
pub enum RecolorDecision {
    /// Red, green and blue are replaced; alpha stays.
    Replace(Rgb),
    /// Nothing changes.
    Keep,
}

/// What a line of input says: a replacement when the line is a colour, to
/// keep the colour when the line is empty but for white space, and nothing
/// that can be understood otherwise.
pub open spec fn reading_of(input: Seq<char>) -> Result<RecolorDecision, RecolorError> {
    match hex_color(trimmed(input)) {
        Some(color) => Ok(RecolorDecision::Replace(color)),
        None => if trimmed(input).len() == 0 {
            Ok(RecolorDecision::Keep)
        } else {
            Err(RecolorError::MalformedColorInput)
        },
    }
}

/// The decision that a line of input stands for: what the line says, and
/// to keep the colour where it cannot be understood.
pub open spec fn decision_for(input: Seq<char>) -> RecolorDecision {
    match reading_of(input) {
        Ok(decision) => decision,
        Err(_) => RecolorDecision::Keep,
    }
}

/// The grid after `decision` has been applied at `locations`.
pub open spec fn recolored(
    grid: GridView,
    locations: Seq<(u32, u32)>,
    decision: RecolorDecision,
) -> GridView {
    match decision {
        RecolorDecision::Keep => grid,
        RecolorDecision::Replace(color) => GridView {
            pixels: Map::new(
                |at: (u32, u32)| grid.pixels.dom().contains(at),
                |at: (u32, u32)|
                    if locations.contains(at) {
                        grid.pixels[at].with_rgb(color)
                    } else {
                        grid.pixels[at]
                    },
            ),
            ..grid
        },
    }
}

/// Whether every position of `locations` lies inside `grid`.
pub open spec fn all_inside(grid: GridView, locations: Seq<(u32, u32)>) -> bool {
    forall|i: int| 0 <= i < locations.len() ==> grid.contains(#[trigger] locations[i])
}

/// Reads a line of input and tells a line that cannot be understood from
/// an empty one.
pub fn read_decision(input: &str) -> (reading: Result<RecolorDecision, RecolorError>)
    ensures
        reading == reading_of(input@),
{
    match parse_hex_color(input) {
        Some(color) => Ok(RecolorDecision::Replace(color)),
        None => {
            let chars = chars_of(input);
            let (start, end) = trimmed_range(&chars);
            if start == end {
                Ok(RecolorDecision::Keep)
            } else {
                Err(RecolorError::MalformedColorInput)
            }
        },
    }
}

/// Reads a decision from a line of input.
///
/// Text that is no colour, the empty line included, means that the colour
/// is kept; it is no error.
pub fn decide(input: &str) -> (decision: RecolorDecision)
    ensures
        decision == decision_for(input@),
{
    match parse_hex_color(input) {
        Some(color) => RecolorDecision::Replace(color),
        None => RecolorDecision::Keep,
    }
}

/// Applies `decision` to the pixels at `locations`.
///
/// To keep changes nothing. To replace gives each listed pixel the new red,
/// green and blue and leaves its alpha as it is. No other pixel changes, and
/// neither does the size of the grid.
pub fn apply_decision(
    grid: &mut ImageGrid,
    decision: RecolorDecision,
    locations: &Vec<(u32, u32)>,
)
    requires
        all_inside(old(grid)@, locations@),
    ensures
        final(grid)@ == recolored(old(grid)@, locations@, decision),
{
    match decision {
        RecolorDecision::Keep => {},
        RecolorDecision::Replace(color) => {
            let ghost start = grid@;
            assert(grid@.pixels =~= recolored(start, locations@.take(0), decision).pixels);
            for i in 0..locations.len()
                invariant
                    decision == RecolorDecision::Replace(color),
                    all_inside(start, locations@),
                    grid@ == recolored(start, locations@.take(i as int), decision),
            {
                let (x, y) = locations[i];
                let pixel = buffer_get(grid, x, y);
                buffer_put(grid, x, y, pixel.recolored(color));
                proof {
                    let done = locations@.take(i as int);
                    let next = locations@.take(i + 1);
                    assert(next[i as int] == (x, y));
                    assert forall|m: (u32, u32)| next.contains(m) <==> done.contains(m) || m == (
                        x,
                        y,
                    ) by {
                        if done.contains(m) {
                            let j = done.index_of(m);
                            assert(next[j] == m);
                        }
                        if next.contains(m) && m != (x, y) {
                            let j = next.index_of(m);
                            assert(done[j] == m);
                        }
                    }
                    assert(grid@.pixels =~= recolored(start, next, decision).pixels);
                }
            }
            assert(locations@.take(locations.len() as int) == locations@);
        },
    }
}

/// A pixel after a decision on it.
pub open spec fn decided(pixel: Pixel, decision: RecolorDecision) -> Pixel {
    match decision {
        RecolorDecision::Replace(color) => pixel.with_rgb(color),
        RecolorDecision::Keep => pixel,
    }
}

/// The grid after the first groups have been decided one after the other:
/// `decisions[k]` is applied to the positions of `groups[k]`.
pub open spec fn recolored_all(
    grid: GridView,
    groups: Seq<GroupView>,
    decisions: Seq<RecolorDecision>,
) -> GridView
    decreases decisions.len(),
{
    if decisions.len() == 0 {
        grid
    } else {
        recolored(
            recolored_all(grid, groups, decisions.drop_last()),
            groups[decisions.len() - 1].locations,
            decisions.last(),
        )
    }
}

/// A decision changes neither the size of a grid nor the positions at which
/// it holds pixels.
pub proof fn lemma_recolored_shape(
    grid: GridView,
    locations: Seq<(u32, u32)>,
    decision: RecolorDecision,
)
    ensures
        recolored(grid, locations, decision).width == grid.width,
        recolored(grid, locations, decision).height == grid.height,
        recolored(grid, locations, decision).pixels.dom() == grid.pixels.dom(),
        grid.wf() ==> recolored(grid, locations, decision).wf(),
{
}

/// A pixel at a listed position is changed as the decision says, and its
/// alpha is the one it had: after a replacement its red, green and blue are
/// those of the new colour.
pub proof fn lemma_recolored_listed(
    grid: GridView,
    locations: Seq<(u32, u32)>,
    decision: RecolorDecision,
    at: (u32, u32),
)
    requires
        grid.wf(),
        grid.contains(at),
        locations.contains(at),
    ensures
        recolored(grid, locations, decision).pixels[at] == decided(grid.pixels[at], decision),
        recolored(grid, locations, decision).pixels[at].alpha == grid.pixels[at].alpha,
        decision matches RecolorDecision::Replace(color) ==> recolored(
            grid,
            locations,
            decision,
        ).pixels[at].rgb() == color,
{
}

/// A pixel at a position that is not listed stays as it is.
pub proof fn lemma_recolored_unlisted(
    grid: GridView,
    locations: Seq<(u32, u32)>,
    decision: RecolorDecision,
    at: (u32, u32),
)
    requires
        grid.wf(),
        grid.contains(at),
        !locations.contains(at),
    ensures
        recolored(grid, locations, decision).pixels[at] == grid.pixels[at],
{
}

/// Deciding groups one after the other changes neither the size of a grid
/// nor the positions at which it holds pixels.
pub proof fn lemma_recolored_all_shape(
    grid: GridView,
    groups: Seq<GroupView>,
    decisions: Seq<RecolorDecision>,
)
    ensures
        recolored_all(grid, groups, decisions).width == grid.width,
        recolored_all(grid, groups, decisions).height == grid.height,
        recolored_all(grid, groups, decisions).pixels.dom() == grid.pixels.dom(),
        grid.wf() ==> recolored_all(grid, groups, decisions).wf(),
    decreases decisions.len(),
{
    if decisions.len() > 0 {
        lemma_recolored_all_shape(grid, groups, decisions.drop_last());
        lemma_recolored_shape(
            recolored_all(grid, groups, decisions.drop_last()),
            groups[decisions.len() - 1].locations,
            decisions.last(),
        );
    }
}

/// Where every decision is to keep, the grid stays pixel for pixel as it was.
pub proof fn lemma_keep_all_changes_nothing(
    grid: GridView,
    groups: Seq<GroupView>,
    decisions: Seq<RecolorDecision>,
)
    requires
        forall|k: int| 0 <= k < decisions.len() ==> decisions[k] == RecolorDecision::Keep,
    ensures
        recolored_all(grid, groups, decisions) == grid,
    decreases decisions.len(),
{
    if decisions.len() > 0 {
        lemma_keep_all_changes_nothing(grid, groups, decisions.drop_last());
    }
}

/// A pixel that no decided group lists is, after all the decisions, as it
/// was at the start.
pub proof fn lemma_undecided_pixel(
    grid: GridView,
    groups: Seq<GroupView>,
    decisions: Seq<RecolorDecision>,
    at: (u32, u32),
)
    requires
        grid.wf(),
        grid.contains(at),
        decisions.len() <= groups.len(),
        forall|k: int| 0 <= k < decisions.len() ==> !(#[trigger] groups[k]).locations.contains(at),
    ensures
        recolored_all(grid, groups, decisions).pixels[at] == grid.pixels[at],
    decreases decisions.len(),
{
    if decisions.len() > 0 {
        let rest = decisions.drop_last();
        let last = decisions.len() - 1;
        lemma_undecided_pixel(grid, groups, rest, at);
        lemma_recolored_all_shape(grid, groups, rest);
        lemma_recolored_unlisted(
            recolored_all(grid, groups, rest),
            groups[last].locations,
            decisions.last(),
            at,
        );
    }
}

/// After the groups of an index have been decided one after the other, a
/// pixel of a decided group is what the decision on that group made of the
/// pixel at the start: a later decision on another group does not reach it.
pub proof fn lemma_decided_pixel(
    grid: GridView,
    groups: Seq<GroupView>,
    decisions: Seq<RecolorDecision>,
    k: int,
    at: (u32, u32),
)
    requires
        grid.wf(),
        is_index(groups, grid),
        decisions.len() <= groups.len(),
        0 <= k < decisions.len(),
        groups[k].locations.contains(at),
    ensures
        recolored_all(grid, groups, decisions).pixels[at] == decided(grid.pixels[at], decisions[k]),
    decreases decisions.len(),
{
    let rest = decisions.drop_last();
    let last = decisions.len() - 1;
    let before = recolored_all(grid, groups, rest);
    lemma_member(groups, grid, k, at);
    lemma_index_partitions(groups, grid);
    lemma_recolored_all_shape(grid, groups, rest);
    if k == last {
        lemma_undecided_pixel(grid, groups, rest, at);
        lemma_recolored_listed(before, groups[last].locations, decisions.last(), at);
    } else {
        lemma_decided_pixel(grid, groups, rest, k, at);
        lemma_recolored_unlisted(before, groups[last].locations, decisions.last(), at);
    }
}

/// A transparent pixel is never changed, and every pixel keeps its alpha,
/// whatever is decided for the groups of an index.
pub proof fn lemma_alpha_and_transparency_kept(
    grid: GridView,
    groups: Seq<GroupView>,
    decisions: Seq<RecolorDecision>,
    at: (u32, u32),
)
    requires
        grid.wf(),
        is_index(groups, grid),
        decisions.len() <= groups.len(),
        grid.contains(at),
    ensures
        recolored_all(grid, groups, decisions).pixels[at].alpha == grid.pixels[at].alpha,
        grid.pixels[at].is_transparent() ==> recolored_all(grid, groups, decisions).pixels[at]
            == grid.pixels[at],
{
    if exists|k: int| 0 <= k < decisions.len() && (#[trigger] groups[k]).locations.contains(at) {
        let k = choose|k: int|
            0 <= k < decisions.len() && (#[trigger] groups[k]).locations.contains(at);
        lemma_decided_pixel(grid, groups, decisions, k, at);
        lemma_member(groups, grid, k, at);
    } else {
        lemma_undecided_pixel(grid, groups, decisions, at);
    }
}

} // verus!
