//! The interactive session as a state machine.
//!
//! A session owns the grid. It asks for one line of input for each colour
//! group, in the order of the index, and then for the name of the file to
//! write. The caller shows what the session requests, reads the line and
//! hands it back; the session decides.

use vstd::prelude::*;
use vstd::string::StringExecFns;
use crate::format::RecolorError;
use crate::grid::{GridView, ImageGrid};
use crate::index::{
    group_views, index_pixels, is_index, lemma_index_partitions, lemma_member, listed_positions,
    visible_positions, ColorGroup, GroupView,
};
use crate::mutate::{
    apply_decision, decide, decided, decision_for, lemma_alpha_and_transparency_kept,
    lemma_decided_pixel, lemma_keep_all_changes_nothing, lemma_recolored_all_shape, recolored,
    recolored_all, RecolorDecision,
};
use crate::render::{preview_line, preview_text};
use crate::trim::{chars_of, trimmed, trimmed_range};

verus! {

/// The line that asks for the new colour of a group.
pub const COLOR_PROMPT: &'static str =
    "Enter new color for this color (in hex format, e.g. #ff00ff), or press Enter to keep the same color:";

/// The line that asks for the name of the file to write.
pub const FILENAME_PROMPT: &'static str =
    "Enter a filename for the recolored image: (default: recolor_output.png)";

/// The name of the file that is written when none is given.
pub const DEFAULT_FILENAME: &'static str = "recolor_output.png";

/// What the caller reports to the session.
#[derive(Debug)]
pub enum Event {
    /// One line of input, with or without its line ending.
    Line(String),
    /// No line could be read.
    Closed,
}

/// Where a session stands.
#[derive(Debug)]
pub enum Stage {
    /// A line is awaited that decides the next colour group.
    AwaitingColor,
    /// Every group is decided; the name of the output file is awaited.
    AwaitingFilename,
    /// The session is over; the grid is to be written to this file.
    Done(String),
    /// The session was given up.
    Failed(RecolorError),
}

/// What a stage is to the contracts of this crate.
pub enum StageView {
    AwaitingColor,
    AwaitingFilename,
    Done(Seq<char>),
    Failed(RecolorError),
}

impl View for Stage {
    type V = StageView;

    open spec fn view(&self) -> StageView {
        match self {
            Stage::AwaitingColor => StageView::AwaitingColor,
            Stage::AwaitingFilename => StageView::AwaitingFilename,
            Stage::Done(name) => StageView::Done(name@),
            Stage::Failed(error) => StageView::Failed(*error),
        }
    }
}

/// What the session asks the caller to do next.
#[derive(Debug)]
pub enum Request {
    /// Show the text, which presents a colour group, and read a line.
    Color(String),
    /// Show the text, which asks for a file name, and read a line.
    Filename(String),
    /// Write the grid to the file of this name.
    Save(String),
    /// Report the error and stop.
    Abort(RecolorError),
}

/// What a request is to the contracts of this crate.
pub enum RequestView {
    Color(Seq<char>),
    Filename(Seq<char>),
    Save(Seq<char>),
    Abort(RecolorError),
}

impl View for Request {
    type V = RequestView;

    open spec fn view(&self) -> RequestView {
        match self {
            Request::Color(text) => RequestView::Color(text@),
            Request::Filename(text) => RequestView::Filename(text@),
            Request::Save(name) => RequestView::Save(name@),
            Request::Abort(error) => RequestView::Abort(*error),
        }
    }
}

/// What a session is to the contracts of this crate.
pub struct SessionView {
    /// The grid as it was when the session began.
    pub initial: GridView,
    /// The grid as it is now.
    pub grid: GridView,
    /// The index of the initial grid.
    pub groups: Seq<GroupView>,
    /// The decisions made so far, one for each of the first groups.
    pub decisions: Seq<RecolorDecision>,
    pub stage: StageView,
}

impl SessionView {
    /// The groups are the index of the initial grid, the grid is the initial
    /// one after the decisions made so far, and the stage fits the number of
    /// decisions.
    pub open spec fn wf(self) -> bool {
        &&& self.initial.wf()
        &&& is_index(self.groups, self.initial)
        &&& self.decisions.len() <= self.groups.len()
        &&& self.grid == recolored_all(self.initial, self.groups, self.decisions)
        &&& self.stage is AwaitingColor ==> self.decisions.len() < self.groups.len()
        &&& self.stage is AwaitingFilename || self.stage is Done ==> self.decisions.len()
            == self.groups.len()
    }
}

/// The name of the file to write for a line of input: the line without the
/// white space at its ends, or the default name where nothing is left.
pub open spec fn output_name(input: Seq<char>) -> Seq<char> {
    if trimmed(input).len() == 0 {
        DEFAULT_FILENAME@
    } else {
        trimmed(input)
    }
}

/// The text that presents a colour group and asks for its new colour.
pub open spec fn color_request(group: GroupView) -> Seq<char> {
    preview_text(group.color, group.locations) + seq!['\n'] + COLOR_PROMPT@
}

/// The stage after `count` of `total` groups have been decided.
pub open spec fn stage_after(count: nat, total: nat) -> StageView {
    if count < total {
        StageView::AwaitingColor
    } else {
        StageView::AwaitingFilename
    }
}

/// The session that begins on `grid` with the index `groups`.
pub open spec fn started(grid: GridView, groups: Seq<GroupView>) -> SessionView {
    SessionView {
        initial: grid,
        grid,
        groups,
        decisions: Seq::empty(),
        stage: stage_after(0, groups.len()),
    }
}

/// What a session in this state asks for.
pub open spec fn requested(session: SessionView) -> RequestView {
    match session.stage {
        StageView::AwaitingColor => RequestView::Color(
            color_request(session.groups[session.decisions.len() as int]),
        ),
        StageView::AwaitingFilename => RequestView::Filename(FILENAME_PROMPT@),
        StageView::Done(name) => RequestView::Save(name),
        StageView::Failed(error) => RequestView::Abort(error),
    }
}

/// The state that follows `session` on `event`.
///
/// A line decides the next group while colours are awaited, and names the
/// output file once they are all decided. Where no line could be read the
/// session fails. A session that is done or has failed stays as it is.
pub open spec fn advanced(session: SessionView, event: Event) -> SessionView {
    match (session.stage, event) {
        (StageView::AwaitingColor, Event::Line(line)) => {
            let decision = decision_for(line@);
            let decisions = session.decisions.push(decision);
            SessionView {
                grid: recolored(
                    session.grid,
                    session.groups[session.decisions.len() as int].locations,
                    decision,
                ),
                decisions,
                stage: stage_after(decisions.len(), session.groups.len()),
                ..session
            }
        },
        (StageView::AwaitingFilename, Event::Line(line)) => SessionView {
            stage: StageView::Done(output_name(line@)),
            ..session
        },
        (StageView::AwaitingColor, Event::Closed) | (StageView::AwaitingFilename, Event::Closed) => {
            SessionView { stage: StageView::Failed(RecolorError::InputStreamFailure), ..session }
        },
        _ => session,
    }
}

/// Chooses the name of the output file from a line of input.
///
/// White space at the ends of the line does not count. Where nothing else
/// is left, the name is `recolor_output.png`.
pub fn output_filename(input: &str) -> (name: String)
    ensures
        name@ == output_name(input@),
{
    let chars = chars_of(input);
    let (start, end) = trimmed_range(&chars);
    if start == end {
        return DEFAULT_FILENAME.to_owned();
    }
    let mut name = String::new();
    for i in start..end
        invariant
            start <= end <= chars.len(),
            name@ == chars@.subrange(start as int, i as int),
    {
        name.push(chars[i]);
    }
    name
}

/// A recolouring session on one grid.
pub struct Session {
    grid: ImageGrid,
    groups: Vec<ColorGroup>,
    cursor: usize,
    stage: Stage,
    initial: Ghost<GridView>,
    decisions: Ghost<Seq<RecolorDecision>>,
}

impl View for Session {
    type V = SessionView;

    closed spec fn view(&self) -> SessionView {
        SessionView {
            initial: self.initial@,
            grid: self.grid@,
            groups: group_views(self.groups@),
            decisions: self.decisions@,
            stage: self.stage@,
        }
    }
}

impl Session {
    /// The invariant of a session.
    pub closed spec fn wf(&self) -> bool {
        self@.wf() && self.cursor == self.decisions@.len()
    }

    /// Begins a session on `grid`: indexes its colours and awaits the
    /// decision on the first group, or the file name where the grid shows
    /// no colour.
    pub fn begin(grid: ImageGrid) -> (session: Session)
        ensures
            session.wf(),
            session@.wf(),
            session@ == started(grid@, session@.groups),
    {
        // Reading the size tells that every position inside holds a pixel.
        let _ = grid.dimensions();
        let groups = index_pixels(&grid);
        let stage = if groups.len() > 0 {
            Stage::AwaitingColor
        } else {
            Stage::AwaitingFilename
        };
        Session {
            initial: Ghost(grid@),
            decisions: Ghost(Seq::empty()),
            grid,
            groups,
            cursor: 0,
            stage,
        }
    }

    /// What the caller is to do next.
    pub fn request(&self) -> (request: Request)
        requires
            self.wf(),
        ensures
            request@ == requested(self@),
    {
        match &self.stage {
            Stage::AwaitingColor => {
                let group = &self.groups[self.cursor];
                let mut text = preview_line(group.color, &group.locations);
                text.push('\n');
                text.append(COLOR_PROMPT);
                assert(text@ =~= color_request(group@));
                Request::Color(text)
            },
            Stage::AwaitingFilename => Request::Filename(FILENAME_PROMPT.to_owned()),
            Stage::Done(name) => Request::Save(name.clone()),
            Stage::Failed(error) => Request::Abort(*error),
        }
    }

    /// Takes what the caller reports and moves to the next state.
    pub fn advance(&mut self, event: Event)
        requires
            old(self).wf(),
        ensures
            final(self).wf(),
            final(self)@.wf(),
            final(self)@ == advanced(old(self)@, event),
    {
        let awaiting_color = matches!(self.stage, Stage::AwaitingColor);
        let awaiting_filename = matches!(self.stage, Stage::AwaitingFilename);
        if !awaiting_color && !awaiting_filename {
            return ;
        }
        match event {
            Event::Closed => {
                self.stage = Stage::Failed(RecolorError::InputStreamFailure);
            },
            Event::Line(line) => {
                if awaiting_color {
                    let decision = decide(line.as_str());
                    proof {
                        lemma_recolored_all_shape(
                            self.initial@,
                            group_views(self.groups@),
                            self.decisions@,
                        );
                        let locations = group_views(self.groups@)[self.cursor as int].locations;
                        assert forall|i: int| 0 <= i < locations.len() implies self.grid@.contains(
                            #[trigger] locations[i],
                        ) by {
                            assert(self.initial@.contains(
                                group_views(self.groups@)[self.cursor as int].locations[i],
                            ));
                        }
                    }
                    apply_decision(&mut self.grid, decision, &self.groups[self.cursor].locations);
                    proof {
                        let decisions = self.decisions@.push(decision);
                        assert(decisions.drop_last() =~= self.decisions@);
                        assert(self.cursor < self.groups.len());
                    }
                    self.decisions = Ghost(self.decisions@.push(decision));
                    self.cursor = self.cursor + 1;
                    if self.cursor == self.groups.len() {
                        self.stage = Stage::AwaitingFilename;
                    }
                } else {
                    self.stage = Stage::Done(output_filename(line.as_str()));
                }
            },
        }
    }

    /// Where the session stands.
    pub fn stage(&self) -> (stage: &Stage)
        ensures
            stage@ == self@.stage,
    {
        &self.stage
    }

    /// The grid as it is now.
    pub fn grid(&self) -> (grid: &ImageGrid)
        ensures
            grid@ == self@.grid,
    {
        &self.grid
    }

    /// The colour groups of the session, in the order in which they are
    /// decided.
    pub fn groups(&self) -> (groups: &Vec<ColorGroup>)
        ensures
            group_views(groups@) == self@.groups,
    {
        &self.groups
    }

    /// Ends the session and hands out its grid.
    pub fn into_grid(self) -> (grid: ImageGrid)
        ensures
            grid@ == self@.grid,
    {
        self.grid
    }
}

/// Whatever the caller reports, a well-formed session stays well formed.
pub proof fn lemma_advanced_wf(session: SessionView, event: Event)
    requires
        session.wf(),
    ensures
        advanced(session, event).wf(),
{
    let next = advanced(session, event);
    if next.decisions.len() > session.decisions.len() {
        assert(next.decisions.drop_last() =~= session.decisions);
    }
}

/// While every decision is to keep, the grid is pixel for pixel the one
/// that the session began with.
pub proof fn lemma_keeping_changes_nothing(session: SessionView)
    requires
        session.wf(),
        forall|k: int|
            0 <= k < session.decisions.len() ==> session.decisions[k] == RecolorDecision::Keep,
    ensures
        session.grid == session.initial,
{
    lemma_keep_all_changes_nothing(session.initial, session.groups, session.decisions);
}

/// At every state of a session the size of the grid is the initial one,
/// each pixel has the alpha that it began with, and a pixel that began
/// transparent is unchanged.
pub proof fn lemma_alpha_kept(session: SessionView, at: (u32, u32))
    requires
        session.wf(),
        session.initial.contains(at),
    ensures
        session.grid.width == session.initial.width,
        session.grid.height == session.initial.height,
        session.grid.pixels[at].alpha == session.initial.pixels[at].alpha,
        session.initial.pixels[at].is_transparent() ==> session.grid.pixels[at]
            == session.initial.pixels[at],
{
    lemma_recolored_all_shape(session.initial, session.groups, session.decisions);
    lemma_alpha_and_transparency_kept(session.initial, session.groups, session.decisions, at);
}

/// Every pixel of a decided group is the colour of the group after the
/// decision on it: where the decision was to replace, the pixel has the new
/// red, green and blue and the alpha of the group; where it was to keep, it
/// has the colour of the group. Decisions on later groups do not change it.
pub proof fn lemma_decided_group(session: SessionView, k: int, at: (u32, u32))
    requires
        session.wf(),
        0 <= k < session.decisions.len(),
        session.groups[k].locations.contains(at),
    ensures
        session.grid.pixels[at] == decided(session.groups[k].color, session.decisions[k]),
        session.grid.pixels[at].alpha == session.groups[k].color.alpha,
        session.decisions[k] matches RecolorDecision::Replace(color) ==> session.grid.pixels[at].rgb()
            == color,
{
    lemma_member(session.groups, session.initial, k, at);
    lemma_decided_pixel(session.initial, session.groups, session.decisions, k, at);
}

/// At every state of a session its groups partition the visible pixels of
/// the grid as it is now: recolouring moves no pixel into or out of a group.
pub proof fn lemma_partition_kept(session: SessionView)
    requires
        session.wf(),
    ensures
        listed_positions(session.groups) == visible_positions(session.grid),
{
    lemma_index_partitions(session.groups, session.initial);
    lemma_recolored_all_shape(session.initial, session.groups, session.decisions);
    assert forall|at: (u32, u32)|
        visible_positions(session.grid).contains(at) <==> visible_positions(
            session.initial,
        ).contains(at) by {
        if session.initial.contains(at) {
            lemma_alpha_kept(session, at);
        }
    }
    assert(visible_positions(session.grid) =~= visible_positions(session.initial));
}

} // verus!
